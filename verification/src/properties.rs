//! The properties and the required names of an object schema, made from the
//! fields of an object or the arguments of a method.
use vstd::prelude::*;
use indexmap::IndexMap;
use crate::parsed::{Argument, Field, ParserType};
use crate::schema::{parts_first_of, parts_of, parts_view, schema_first_of, schema_of, PartsRef, SchemaItem, SchemaParts, SchemaRef};
use crate::ordered_map::{insert_property, lemma_ordered_insert, new_property_map, ordered_entries, property_entries};

verus! {

/// What a field and an argument have in common.
#[derive(Debug, PartialEq)]
pub struct CommonContent {
    pub name: String,
    pub description: String,
    pub required: bool,
    pub kind: ParserType,
}

/// The content of an argument.
pub open spec fn argument_content(arg: Argument) -> CommonContent {
    CommonContent { name: arg.name, description: arg.description, required: arg.required, kind: arg.kind }
}

/// The content of a field.
pub open spec fn field_content(field: Field) -> CommonContent {
    CommonContent {
        name: field.name,
        description: field.description,
        required: field.required,
        kind: field.kind,
    }
}

impl From<Argument> for CommonContent {
    fn from(arg: Argument) -> (r: Self) {
        CommonContent { name: arg.name, description: arg.description, required: arg.required, kind: arg.kind }
    }
}

impl vstd::std_specs::convert::FromSpecImpl<Argument> for CommonContent {
    open spec fn obeys_from_spec() -> bool {
        true
    }

    open spec fn from_spec(arg: Argument) -> Self {
        argument_content(arg)
    }
}

impl From<Field> for CommonContent {
    fn from(field: Field) -> (r: Self) {
        CommonContent {
            name: field.name,
            description: field.description,
            required: field.required,
            kind: field.kind,
        }
    }
}

impl vstd::std_specs::convert::FromSpecImpl<Field> for CommonContent {
    open spec fn obeys_from_spec() -> bool {
        true
    }

    open spec fn from_spec(field: Field) -> Self {
        field_content(field)
    }
}

/// The names of the contents, in order.
pub open spec fn content_names(cs: Seq<CommonContent>) -> Seq<Seq<char>> {
    cs.map_values(|c: CommonContent| c.name@)
}

/// The names of the required contents, in order, repeats kept.
pub open spec fn required_names(cs: Seq<CommonContent>) -> Seq<Seq<char>>
    decreases cs.len(),
{
    if cs.len() == 0 {
        seq![]
    } else if cs.last().required {
        required_names(cs.drop_last()).push(cs.last().name@)
    } else {
        required_names(cs.drop_last())
    }
}

/// The texts of a sequence of strings.
pub open spec fn string_views(v: Seq<String>) -> Seq<Seq<char>> {
    v.map_values(|s: String| s@)
}

/// `p` is what type `t` becomes in the full (`simplified` false) or the
/// simplified translation.
pub open spec fn parts_in(t: ParserType, p: PartsRef, simplified: bool) -> bool {
    if simplified {
        parts_first_of(t, p)
    } else {
        parts_of(t, p)
    }
}

/// `s` is the schema of type `t` in the chosen translation.
pub open spec fn schema_in(t: ParserType, s: SchemaRef, simplified: bool) -> bool {
    if simplified {
        schema_first_of(t, s)
    } else {
        schema_of(t, s)
    }
}

/// `s` is the property schema of content `c`: what its type becomes, with the
/// content's description when the schema is given in place.
pub open spec fn property_of(c: CommonContent, s: SchemaRef, simplified: bool) -> bool {
    &&& parts_in(c.kind, parts_view(s), simplified)
    &&& s matches SchemaRef::Item(b) ==> b.description == Some(c.description)
}

/// `properties` maps each distinct name of the contents, in order of first
/// appearance, to the property schema of the last content with that name, and
/// `required` lists the names of the required contents in order.
pub open spec fn properties_of(
    cs: Seq<CommonContent>,
    properties: IndexMap<String, SchemaRef>,
    required: Vec<String>,
    simplified: bool,
) -> bool {
    &&& ordered_entries(
        property_entries(properties),
        content_names(cs),
        |j: int, s: SchemaRef| property_of(cs[j], s, simplified),
    )
    &&& string_views(required@) == required_names(cs)
}

/// The property schema of a content.
fn property_schema(content: &CommonContent, simplified: bool) -> (s: SchemaRef)
    ensures
        property_of(*content, s, simplified),
{
    let parts = if simplified {
        content.kind.into_ref_or_schema_parts_first()
    } else {
        content.kind.into_ref_or_schema_parts()
    };
    match parts {
        PartsRef::Item(SchemaParts { default, kind }) => SchemaRef::Item(
            Box::new(SchemaItem { description: Some(content.description.clone()), default, kind }),
        ),
        PartsRef::Reference { reference } => SchemaRef::Reference { reference },
    }
}

/// The properties and required names of contents, in either translation.
pub fn properties_and_required(common: &Vec<CommonContent>, simplified: bool) -> (r: (
    IndexMap<String, SchemaRef>,
    Vec<String>,
))
    ensures
        properties_of(common@, r.0, r.1, simplified),
{
    let ghost cs = common@;
    let ghost value_of = |j: int, s: SchemaRef| property_of(cs[j], s, simplified);
    let mut properties = new_property_map();
    let mut required: Vec<String> = Vec::new();
    let mut i: usize = 0;
    assert(content_names(cs).take(0) =~= seq![]);
    assert(cs.take(0) =~= seq![]);
    assert(string_views(required@) =~= seq![]);
    while i < common.len()
        invariant
            cs == common@,
            value_of == (|j: int, s: SchemaRef| property_of(cs[j], s, simplified)),
            i <= cs.len(),
            ordered_entries(property_entries(properties), content_names(cs).take(i as int), value_of),
            string_views(required@) == required_names(cs.take(i as int)),
        decreases cs.len() - i,
    {
        let content = &common[i];
        if content.required {
            required.push(content.name.clone());
        }
        let s = property_schema(content, simplified);
        let ghost entries = property_entries(properties);
        insert_property(&mut properties, content.name.clone(), s);
        proof {
            let keys = content_names(cs).take(i + 1);
            assert(keys.drop_last() =~= content_names(cs).take(i as int));
            assert(keys.last() == content.name@);
            lemma_ordered_insert(entries, keys, value_of, s);
            assert(cs.take(i + 1).drop_last() =~= cs.take(i as int));
            assert(string_views(required@) =~= required_names(cs.take(i + 1)));
        }
        i = i + 1;
    }
    assert(content_names(cs).take(cs.len() as int) =~= content_names(cs));
    assert(cs.take(cs.len() as int) =~= cs);
    (properties, required)
}

/// The properties and required names of contents, in the full translation.
pub fn make_properties_and_required(common: Vec<CommonContent>) -> (r: (
    IndexMap<String, SchemaRef>,
    Vec<String>,
))
    ensures
        properties_of(common@, r.0, r.1, false),
{
    properties_and_required(&common, false)
}

/// The properties and required names of contents, in the simplified
/// translation.
pub fn make_properties_and_required_simplified(common: Vec<CommonContent>) -> (r: (
    IndexMap<String, SchemaRef>,
    Vec<String>,
))
    ensures
        properties_of(common@, r.0, r.1, true),
{
    properties_and_required(&common, true)
}

} // verus!
