//! When two model values are the same: equal texts, numbers and lists at
//! every depth. Every translation gives the same value for the same input.
use vstd::prelude::*;
use indexmap::IndexMap;
use crate::parsed::{MethodArgs, Object, ObjectData, Method, Parsed, ParserType};
use crate::schema::{kind_first_of, kind_of, parts_view, DefaultValue, SchemaRef, ValueKind};
use crate::properties::{
    content_names, parts_in, properties_of, property_of, schema_in, string_views, CommonContent,
};
use crate::ordered_map::{component_entries, entry_keys, path_entries, property_entries};
use crate::document::{
    argument_contents, component_of, document_of, field_contents, first_kind_of,
    method_paths, object_names, operation_of, ApiDocument, ArgumentsBody, ComponentKind,
    ComponentSchema, MethodOperation,
};

verus! {

/// The text of an optional string.
pub open spec fn option_text(s: Option<String>) -> Option<Seq<char>> {
    match s {
        Some(x) => Some(x@),
        None => None,
    }
}

/// The texts of a list of optional strings.
pub open spec fn option_texts(v: Seq<Option<String>>) -> Seq<Option<Seq<char>>> {
    v.map_values(|o: Option<String>| option_text(o))
}

/// The two default values are the same value.
pub open spec fn same_default(a: Option<DefaultValue>, b: Option<DefaultValue>) -> bool {
    match a {
        Some(DefaultValue::String(x)) => b matches Some(DefaultValue::String(y)) && x@ == y@,
        _ => a == b,
    }
}

/// `a` and `b` are the same schema, descriptions aside: the same reference,
/// or the same default value and the same kind.
pub open spec fn same_parts(a: SchemaRef, b: SchemaRef) -> bool
    decreases a, 0int,
{
    match a {
        SchemaRef::Reference { reference } => b matches SchemaRef::Reference { reference: r } && reference@ == r@,
        SchemaRef::Item(x) => b matches SchemaRef::Item(y) && same_default(x.default, y.default) && same_kind(x.kind, y.kind),
    }
}

/// `a` and `b` are the same schema, at every depth.
pub open spec fn same_schema(a: SchemaRef, b: SchemaRef) -> bool
    decreases a, 1int,
{
    &&& same_parts(a, b)
    &&& a matches SchemaRef::Item(x) ==> b matches SchemaRef::Item(y) && option_text(x.description) == option_text(y.description)
}

/// `a` and `b` are the same kind, at every depth.
pub open spec fn same_kind(a: ValueKind, b: ValueKind) -> bool
    decreases a, 2int,
{
    match a {
        ValueKind::Integer { minimum, maximum, enumeration } => {
            &&& b matches ValueKind::Integer { minimum: n, maximum: x, enumeration: e }
            &&& minimum == n
            &&& maximum == x
            &&& enumeration@ == e@
        },
        ValueKind::String { min_length, max_length, enumeration } => {
            &&& b matches ValueKind::String { min_length: n, max_length: x, enumeration: e }
            &&& min_length == n
            &&& max_length == x
            &&& option_texts(enumeration@) == option_texts(e@)
        },
        ValueKind::Boolean => b is Boolean,
        ValueKind::Number => b is Number,
        ValueKind::Array { items } => {
            &&& b matches ValueKind::Array { items: other }
            &&& match items {
                None => other is None,
                Some(i) => other matches Some(j) && same_schema(*i, *j),
            }
        },
        ValueKind::AnyOf { any_of } => {
            &&& b matches ValueKind::AnyOf { any_of: other }
            &&& same_schemas(any_of@, other@)
        },
        ValueKind::Any => b is Any,
    }
}

/// `a` and `b` list the same schemas in the same order.
pub open spec fn same_schemas(a: Seq<SchemaRef>, b: Seq<SchemaRef>) -> bool
    decreases a, 3int,
{
    &&& a.len() == b.len()
    &&& a.len() > 0 ==> {
        &&& same_schemas(a.subrange(0, a.len() - 1), b.subrange(0, b.len() - 1))
        &&& same_schema(a[a.len() - 1], b[b.len() - 1])
    }
}

/// Lists whose schemas are the same at each place are the same.
pub proof fn lemma_same_schemas(a: Seq<SchemaRef>, b: Seq<SchemaRef>)
    requires
        a.len() == b.len(),
        forall|i: int| 0 <= i < a.len() ==> #[trigger] same_schema(a[i], b[i]),
    ensures
        same_schemas(a, b),
    decreases a.len(),
{
    if a.len() > 0 {
        let a2 = a.subrange(0, a.len() - 1);
        let b2 = b.subrange(0, b.len() - 1);
        assert forall|i: int| 0 <= i < a2.len() implies #[trigger] same_schema(a2[i], b2[i]) by {
            assert(a2[i] == a[i]);
            assert(b2[i] == b[i]);
        }
        lemma_same_schemas(a2, b2);
        assert(same_schema(a[a.len() - 1], b[b.len() - 1]));
    }
}

/// The two maps hold the same property names in the same order, with the
/// same schemas.
pub open spec fn same_properties(a: IndexMap<String, SchemaRef>, b: IndexMap<String, SchemaRef>) -> bool {
    &&& entry_keys(property_entries(a)) == entry_keys(property_entries(b))
    &&& forall|i: int|
        0 <= i < property_entries(a).len() ==> same_schema(
            #[trigger] property_entries(a)[i].1,
            property_entries(b)[i].1,
        )
}

/// The two component schemas are the same.
pub open spec fn same_component(a: ComponentSchema, b: ComponentSchema) -> bool {
    &&& a.description@ == b.description@
    &&& a.docs_url@ == b.docs_url@
    &&& match a.kind {
        ComponentKind::Object { properties, required } => {
            &&& b.kind matches ComponentKind::Object { properties: p, required: r }
            &&& same_properties(properties, p)
            &&& string_views(required@) == string_views(r@)
        },
        ComponentKind::Other(k) => b.kind matches ComponentKind::Other(k2) && same_kind(k, k2),
    }
}

/// The two request bodies are the same.
pub open spec fn same_body(a: ArgumentsBody, b: ArgumentsBody) -> bool {
    &&& string_views(a.content_types@) == string_views(b.content_types@)
    &&& same_properties(a.properties, b.properties)
    &&& string_views(a.required@) == string_views(b.required@)
}

/// The two operations are the same.
pub open spec fn same_operation(a: MethodOperation, b: MethodOperation) -> bool {
    &&& a.description@ == b.description@
    &&& a.docs_url@ == b.docs_url@
    &&& same_schema(a.result, b.result)
    &&& match a.request_body {
        None => b.request_body is None,
        Some(x) => b.request_body matches Some(y) && same_body(x, y),
    }
}

/// The two documents are the same: the same version, the same component
/// schemas and the same operations, under the same names in the same order.
pub open spec fn same_document(a: ApiDocument, b: ApiDocument) -> bool {
    &&& a.version@ == b.version@
    &&& entry_keys(component_entries(a.schemas)) == entry_keys(component_entries(b.schemas))
    &&& forall|i: int|
        0 <= i < component_entries(a.schemas).len() ==> same_component(
            #[trigger] component_entries(a.schemas)[i].1,
            component_entries(b.schemas)[i].1,
        )
    &&& entry_keys(path_entries(a.paths)) == entry_keys(path_entries(b.paths))
    &&& forall|i: int|
        0 <= i < path_entries(a.paths).len() ==> same_operation(
            #[trigger] path_entries(a.paths)[i].1,
            path_entries(b.paths)[i].1,
        )
}

/// `k` is the kind of type `t` in the chosen translation.
pub open spec fn kind_in(t: ParserType, k: ValueKind, simplified: bool) -> bool {
    if simplified {
        kind_first_of(t, k)
    } else {
        kind_of(t, k)
    }
}

/// Two lists that each wrap the strings of `v` have the same texts.
proof fn lemma_same_texts(a: Seq<Option<String>>, b: Seq<Option<String>>, v: Seq<String>)
    requires
        crate::schema::wraps_all(a, v),
        crate::schema::wraps_all(b, v),
    ensures
        option_texts(a) == option_texts(b),
{
    assert(option_texts(a) =~= option_texts(b));
}

/// A type has one kind in each translation.
proof fn lemma_kind_determined(t: ParserType, a: ValueKind, b: ValueKind, simplified: bool)
    requires
        kind_in(t, a, simplified),
        kind_in(t, b, simplified),
    ensures
        same_kind(a, b),
    decreases t, 0int,
{
    match t {
        ParserType::Integer { .. } => {
            assert(a->Integer_enumeration@ =~= b->Integer_enumeration@);
        },
        ParserType::String { one_of, .. } => {
            lemma_same_texts(a->String_enumeration@, b->String_enumeration@, one_of@);
        },
        ParserType::Array(inner) => {
            assert(decreases_to!(t => t->Array_0));
            law_schema_determined(*inner, *a->items.unwrap(), *b->items.unwrap(), simplified);
        },
        ParserType::Or(types) => {
            if !simplified {
                assert forall|i: int| 0 <= i < a->any_of@.len() implies #[trigger] same_schema(
                    a->any_of@[i],
                    b->any_of@[i],
                ) by {
                    assert(decreases_to!(t => t->Or_0));
                    assert(decreases_to!(types => types@[i]));
                    law_schema_determined(types@[i], a->any_of@[i], b->any_of@[i], false);
                }
                lemma_same_schemas(a->any_of@, b->any_of@);
            }
        },
        _ => {},
    }
}

/// A type has one schema in each translation, descriptions aside.
pub proof fn lemma_parts_determined(t: ParserType, a: SchemaRef, b: SchemaRef, simplified: bool)
    requires
        parts_in(t, parts_view(a), simplified),
        parts_in(t, parts_view(b), simplified),
    ensures
        same_parts(a, b),
    decreases t, 1int,
{
    match t {
        ParserType::Object(_) => {},
        ParserType::Or(types) => {
            if simplified && types@.len() > 0 {
                assert(decreases_to!(t => t->Or_0));
                assert(decreases_to!(types => types@[0]));
                lemma_parts_determined(types@[0], a, b, true);
            } else {
                lemma_kind_determined(t, a->Item_0.kind, b->Item_0.kind, simplified);
            }
        },
        _ => {
            lemma_kind_determined(t, a->Item_0.kind, b->Item_0.kind, simplified);
        },
    }
}

/// A type has one schema in each translation: `into_schema` (and
/// `into_schema_first`) give the same schema on the same type.
pub proof fn law_schema_determined(t: ParserType, a: SchemaRef, b: SchemaRef, simplified: bool)
    requires
        schema_in(t, a, simplified),
        schema_in(t, b, simplified),
    ensures
        same_schema(a, b),
    decreases t, 2int,
{
    lemma_parts_determined(t, a, b, simplified);
}

/// A content has one property schema in each translation.
pub proof fn lemma_property_determined(c: CommonContent, a: SchemaRef, b: SchemaRef, simplified: bool)
    requires
        property_of(c, a, simplified),
        property_of(c, b, simplified),
    ensures
        same_schema(a, b),
{
    lemma_parts_determined(c.kind, a, b, simplified);
}

/// Contents have one set of properties and required names in each
/// translation: `make_properties_and_required` gives the same on the same
/// contents.
pub proof fn law_properties_determined(
    cs: Seq<CommonContent>,
    p1: IndexMap<String, SchemaRef>,
    r1: Vec<String>,
    p2: IndexMap<String, SchemaRef>,
    r2: Vec<String>,
    simplified: bool,
)
    requires
        properties_of(cs, p1, r1, simplified),
        properties_of(cs, p2, r2, simplified),
    ensures
        same_properties(p1, p2),
        string_views(r1@) == string_views(r2@),
{
    let e1 = property_entries(p1);
    let e2 = property_entries(p2);
    assert(entry_keys(e1) =~= entry_keys(e2));
    assert forall|i: int| 0 <= i < e1.len() implies same_schema(#[trigger] e1[i].1, e2[i].1) by {
        let c = cs[crate::ordered_map::last_index(content_names(cs), e1[i].0)];
        assert(property_of(c, e1[i].1, simplified));
        assert(property_of(c, e2[i].1, simplified));
        lemma_property_determined(c, e1[i].1, e2[i].1, simplified);
    }
}

/// A type stands for one kind in a simplified union object.
proof fn lemma_first_kind_determined(t: ParserType, a: ValueKind, b: ValueKind)
    requires
        first_kind_of(t, a),
        first_kind_of(t, b),
    ensures
        same_kind(a, b),
    decreases t,
{
    match t {
        ParserType::Object(_) => {},
        ParserType::Or(types) => {
            if types@.len() > 0 {
                assert(decreases_to!(t => t->Or_0));
                assert(decreases_to!(types => types@[0]));
                lemma_first_kind_determined(types@[0], a, b);
            }
        },
        _ => {
            lemma_kind_determined(t, a, b, true);
        },
    }
}

/// An object has one component schema in each translation.
pub proof fn lemma_component_determined(o: Object, a: ComponentSchema, b: ComponentSchema, simplified: bool)
    requires
        component_of(o, a, simplified),
        component_of(o, b, simplified),
    ensures
        same_component(a, b),
{
    match o.data {
        ObjectData::Fields(fields) => {
            law_properties_determined(
                field_contents(fields@),
                a.kind->Object_properties,
                a.kind->Object_required,
                b.kind->Object_properties,
                b.kind->Object_required,
                simplified,
            );
        },
        ObjectData::Elements(elements) => {
            let ka = a.kind->Other_0;
            let kb = b.kind->Other_0;
            if simplified {
                if elements@.len() > 0 {
                    lemma_first_kind_determined(elements@[0], ka, kb);
                }
            } else {
                assert forall|i: int| 0 <= i < ka->any_of@.len() implies #[trigger] same_schema(
                    ka->any_of@[i],
                    kb->any_of@[i],
                ) by {
                    law_schema_determined(elements@[i], ka->any_of@[i], kb->any_of@[i], false);
                }
                lemma_same_schemas(ka->any_of@, kb->any_of@);
            }
        },
        ObjectData::Unknown => {},
    }
}

/// A method has one operation in each translation.
pub proof fn lemma_operation_determined(m: Method, a: MethodOperation, b: MethodOperation, simplified: bool)
    requires
        operation_of(m, a, simplified),
        operation_of(m, b, simplified),
    ensures
        same_operation(a, b),
{
    law_schema_determined(m.return_type, a.result, b.result, simplified);
    match m.args {
        MethodArgs::Yes(args) => {
            let x = a.request_body.unwrap();
            let y = b.request_body.unwrap();
            law_properties_determined(
                argument_contents(args@),
                x.properties,
                x.required,
                y.properties,
                y.required,
                simplified,
            );
        },
        MethodArgs::WithMultipart(args) => {
            let x = a.request_body.unwrap();
            let y = b.request_body.unwrap();
            law_properties_determined(
                argument_contents(args@),
                x.properties,
                x.required,
                y.properties,
                y.required,
                simplified,
            );
        },
        MethodArgs::No => {},
    }
}

/// A parsed reference has one document in each translation: `generate` (and
/// `generate_simplified`) give the same document on the same reference.
pub proof fn law_document_determined(p: Parsed, a: ApiDocument, b: ApiDocument, simplified: bool)
    requires
        document_of(p, a, simplified),
        document_of(p, b, simplified),
    ensures
        same_document(a, b),
{
    let names = object_names(p.objects@);
    let c1 = component_entries(a.schemas);
    let c2 = component_entries(b.schemas);
    assert(entry_keys(c1) =~= entry_keys(c2));
    assert forall|i: int| 0 <= i < c1.len() implies same_component(#[trigger] c1[i].1, c2[i].1) by {
        let o = p.objects@[crate::ordered_map::last_index(names, c1[i].0)];
        assert(component_of(o, c1[i].1, simplified));
        assert(component_of(o, c2[i].1, simplified));
        lemma_component_determined(o, c1[i].1, c2[i].1, simplified);
    }
    let paths = method_paths(p.methods@);
    let e1 = path_entries(a.paths);
    let e2 = path_entries(b.paths);
    assert(entry_keys(e1) =~= entry_keys(e2));
    assert forall|i: int| 0 <= i < e1.len() implies same_operation(#[trigger] e1[i].1, e2[i].1) by {
        let m = p.methods@[crate::ordered_map::last_index(paths, e1[i].0)];
        assert(operation_of(m, e1[i].1, simplified));
        assert(operation_of(m, e2[i].1, simplified));
        lemma_operation_determined(m, e1[i].1, e2[i].1, simplified);
    }
}

} // verus!
