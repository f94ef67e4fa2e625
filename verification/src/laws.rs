//! What holds of the two translations and of the documents they give.
use vstd::prelude::*;
use indexmap::IndexMap;
use crate::parsed::{Method, MethodArgs, Object, ObjectData, Parsed, ParserType};
use crate::schema::{
    kind_first_of, kind_of, parts_first_of, parts_of, parts_view, schema_first_of, schema_of,
    ValueKind, SchemaRef,
};
use crate::properties::{
    content_names, properties_of, property_of, required_names, string_views, CommonContent,
};
use crate::ordered_map::{
    component_entries, entry_keys, first_keys, last_index, lemma_first_keys, lemma_last_index,
    lemma_ordered_entries_agree, lemma_ordered_entries_keys,
    path_entries, property_entries,
};
use crate::same::{
    law_document_determined, law_properties_determined, law_schema_determined,
    lemma_property_determined, same_document, same_properties, same_schema,
};
use crate::document::{
    argument_contents, component_of, document_of, field_contents, first_kind_of, method_paths,
    object_names,
    operation_of, path_of, ApiDocument, ComponentKind, ComponentSchema, MethodOperation,
};

verus! {

/// `t` holds no union, at any depth.
pub open spec fn union_free(t: ParserType) -> bool
    decreases t,
{
    match t {
        ParserType::Array(inner) => union_free(*inner),
        ParserType::Or(_) => false,
        _ => true,
    }
}

/// `s` holds no `anyOf`, at any depth.
pub open spec fn any_of_free(s: SchemaRef) -> bool
    decreases s,
{
    match s {
        SchemaRef::Reference { .. } => true,
        SchemaRef::Item(b) => match b.kind {
            ValueKind::AnyOf { .. } => false,
            ValueKind::Array { items } => match items {
                Some(i) => any_of_free(*i),
                None => true,
            },
            _ => true,
        },
    }
}

/// Kind `k` holds no `anyOf`, at any depth.
pub open spec fn kind_any_of_free(k: ValueKind) -> bool {
    match k {
        ValueKind::AnyOf { .. } => false,
        ValueKind::Array { items } => match items {
            Some(i) => any_of_free(*i),
            None => true,
        },
        _ => true,
    }
}

/// No property schema of `m` holds `anyOf`.
pub open spec fn properties_any_of_free(m: IndexMap<String, SchemaRef>) -> bool {
    forall|i: int|
        0 <= i < property_entries(m).len() ==> any_of_free(#[trigger] property_entries(m)[i].1)
}

/// No schema of the document holds `anyOf`: not in a component, a request
/// body or a result.
pub open spec fn document_any_of_free(d: ApiDocument) -> bool {
    &&& forall|i: int|
        #![trigger component_entries(d.schemas)[i]]
        0 <= i < component_entries(d.schemas).len() ==> match component_entries(d.schemas)[i].1.kind {
            ComponentKind::Object { properties, .. } => properties_any_of_free(properties),
            ComponentKind::Other(k) => kind_any_of_free(k),
        }
    &&& forall|i: int|
        #![trigger path_entries(d.paths)[i]]
        0 <= i < path_entries(d.paths).len() ==> {
            let o = path_entries(d.paths)[i].1;
            &&& any_of_free(o.result)
            &&& o.request_body matches Some(b) ==> properties_any_of_free(b.properties)
        }
}

proof fn lemma_kinds_agree(t: ParserType, k: ValueKind)
    requires
        union_free(t),
    ensures
        kind_of(t, k) == kind_first_of(t, k),
    decreases t, 0int,
{
    if let ParserType::Array(inner) = t {
        if let ValueKind::Array { items: Some(b) } = k {
            assert(decreases_to!(t => t->Array_0));
            law_union_free_translations_agree(*inner, *b);
        }
    }
}

/// On a type with no union, the full and the simplified translation give the
/// same schema.
pub proof fn law_union_free_translations_agree(t: ParserType, s: SchemaRef)
    requires
        union_free(t),
    ensures
        schema_of(t, s) == schema_first_of(t, s),
        parts_of(t, parts_view(s)) == parts_first_of(t, parts_view(s)),
    decreases t, 1int,
{
    if let SchemaRef::Item(b) = s {
        lemma_kinds_agree(t, b.kind);
    }
}

/// The simplified translation of a type holds no `anyOf`.
pub proof fn law_simplified_schema_has_no_any_of(t: ParserType, s: SchemaRef)
    requires
        parts_first_of(t, parts_view(s)),
    ensures
        any_of_free(s),
    decreases t,
{
    match t {
        ParserType::Or(types) => {
            if types@.len() > 0 {
                assert(decreases_to!(t => t->Or_0));
                assert(decreases_to!(types => types@[0]));
                law_simplified_schema_has_no_any_of(types@[0], s);
            } else if let SchemaRef::Item(b) = s {
                assert(kind_first_of(t, b.kind));
            }
        },
        ParserType::Array(inner) => {
            if let SchemaRef::Item(b) = s {
                assert(kind_first_of(t, b.kind));
                if let ValueKind::Array { items: Some(i) } = b.kind {
                    assert(decreases_to!(t => t->Array_0));
                    assert(schema_first_of(*inner, *i));
                    law_simplified_schema_has_no_any_of(*inner, *i);
                }
            }
        },
        _ => {
            if let SchemaRef::Item(b) = s {
                assert(kind_first_of(t, b.kind));
            }
        },
    }
}

proof fn lemma_first_kind_has_no_any_of(t: ParserType, k: ValueKind)
    requires
        first_kind_of(t, k),
    ensures
        kind_any_of_free(k),
    decreases t,
{
    match t {
        ParserType::Or(types) => {
            if types@.len() > 0 {
                assert(decreases_to!(t => t->Or_0));
                assert(decreases_to!(types => types@[0]));
                lemma_first_kind_has_no_any_of(types@[0], k);
            }
        },
        ParserType::Array(inner) => {
            if let ValueKind::Array { items: Some(i) } = k {
                law_simplified_schema_has_no_any_of(*inner, *i);
            }
        },
        _ => {},
    }
}

proof fn lemma_properties_have_no_any_of(
    cs: Seq<CommonContent>,
    properties: IndexMap<String, SchemaRef>,
    required: Vec<String>,
)
    requires
        properties_of(cs, properties, required, true),
    ensures
        properties_any_of_free(properties),
{
    let e = property_entries(properties);
    assert forall|i: int| 0 <= i < e.len() implies any_of_free(#[trigger] e[i].1) by {
        let c = cs[last_index(content_names(cs), e[i].0)];
        law_simplified_schema_has_no_any_of(c.kind, e[i].1);
    }
}

/// The simplified document holds no `anyOf` anywhere.
pub proof fn law_simplified_document_has_no_any_of(p: Parsed, d: ApiDocument)
    requires
        document_of(p, d, true),
    ensures
        document_any_of_free(d),
{
    let ce = component_entries(d.schemas);
    assert forall|i: int| #![trigger ce[i]] 0 <= i < ce.len() implies match ce[i].1.kind {
        ComponentKind::Object { properties, .. } => properties_any_of_free(properties),
        ComponentKind::Other(k) => kind_any_of_free(k),
    } by {
        let o = p.objects@[last_index(object_names(p.objects@), ce[i].0)];
        assert(component_of(o, ce[i].1, true));
        match o.data {
            ObjectData::Fields(fields) => {
                lemma_properties_have_no_any_of(
                    field_contents(fields@),
                    ce[i].1.kind->properties,
                    ce[i].1.kind->required,
                );
            },
            ObjectData::Elements(elements) => {
                if elements@.len() > 0 {
                    lemma_first_kind_has_no_any_of(elements@[0], ce[i].1.kind->Other_0);
                }
            },
            _ => {},
        }
    }
    let pe = path_entries(d.paths);
    assert forall|i: int| #![trigger pe[i]] 0 <= i < pe.len() implies {
        let o = pe[i].1;
        &&& any_of_free(o.result)
        &&& o.request_body matches Some(b) ==> properties_any_of_free(b.properties)
    } by {
        let m = p.methods@[last_index(method_paths(p.methods@), pe[i].0)];
        let o = pe[i].1;
        assert(operation_of(m, o, true));
        law_simplified_schema_has_no_any_of(m.return_type, o.result);
        match m.args {
            MethodArgs::Yes(args) => {
                lemma_properties_have_no_any_of(
                    argument_contents(args@),
                    o.request_body.unwrap().properties,
                    o.request_body.unwrap().required,
                );
            },
            MethodArgs::WithMultipart(args) => {
                lemma_properties_have_no_any_of(
                    argument_contents(args@),
                    o.request_body.unwrap().properties,
                    o.request_body.unwrap().required,
                );
            },
            _ => {},
        }
    }
}

/// Every object gets a component schema under its name, once, holding the
/// schema of the last object with that name; the document holds no other
/// component schema.
pub proof fn law_one_component_per_object(p: Parsed, d: ApiDocument, simplified: bool)
    requires
        document_of(p, d, simplified),
    ensures
        forall|i: int, j: int|
            0 <= i < j < component_entries(d.schemas).len() ==> component_entries(d.schemas)[i].0
                != component_entries(d.schemas)[j].0,
        forall|i: int|
            0 <= i < component_entries(d.schemas).len() ==> object_names(p.objects@).contains(
                #[trigger] component_entries(d.schemas)[i].0,
            ),
        forall|j: int|
            0 <= j < p.objects@.len() ==> exists|i: int|
                0 <= i < component_entries(d.schemas).len() && component_entries(d.schemas)[i].0
                    == (#[trigger] p.objects@[j]).name@ && component_of(
                    p.objects@[last_index(object_names(p.objects@), p.objects@[j].name@)],
                    component_entries(d.schemas)[i].1,
                    simplified,
                ),
{
    let names = object_names(p.objects@);
    lemma_ordered_entries_keys(
        component_entries(d.schemas),
        names,
        |j: int, c: ComponentSchema| component_of(p.objects@[j], c, simplified),
    );
    assert forall|j: int| 0 <= j < p.objects@.len() implies names.contains(
        (#[trigger] p.objects@[j]).name@,
    ) by {
        assert(names[j] == p.objects@[j].name@);
    }
}

/// Every method gets an operation under its path `/name`, once, holding the
/// operation of the last method with that name; the document holds no other
/// path.
pub proof fn law_one_operation_per_method(p: Parsed, d: ApiDocument, simplified: bool)
    requires
        document_of(p, d, simplified),
    ensures
        forall|i: int, j: int|
            0 <= i < j < path_entries(d.paths).len() ==> path_entries(d.paths)[i].0 != path_entries(
                d.paths,
            )[j].0,
        forall|i: int|
            0 <= i < path_entries(d.paths).len() ==> method_paths(p.methods@).contains(
                #[trigger] path_entries(d.paths)[i].0,
            ),
        forall|j: int|
            0 <= j < p.methods@.len() ==> exists|i: int|
                0 <= i < path_entries(d.paths).len() && path_entries(d.paths)[i].0 == path_of(
                    (#[trigger] p.methods@[j]).name@,
                ) && operation_of(
                    p.methods@[last_index(method_paths(p.methods@), path_of(p.methods@[j].name@))],
                    path_entries(d.paths)[i].1,
                    simplified,
                ),
{
    let paths = method_paths(p.methods@);
    lemma_ordered_entries_keys(
        path_entries(d.paths),
        paths,
        |j: int, o: MethodOperation| operation_of(p.methods@[j], o, simplified),
    );
    assert forall|j: int| 0 <= j < p.methods@.len() implies paths.contains(
        path_of((#[trigger] p.methods@[j]).name@),
    ) by {
        assert(paths[j] == path_of(p.methods@[j].name@));
    }
}

/// Some entry has key `k`.
pub open spec fn has_key<V>(entries: Seq<(Seq<char>, V)>, k: Seq<char>) -> bool {
    exists|i: int| 0 <= i < entries.len() && entries[i].0 == k
}

proof fn lemma_required_are_names(cs: Seq<CommonContent>)
    ensures
        forall|r: Seq<char>| required_names(cs).contains(r) ==> content_names(cs).contains(r),
    decreases cs.len(),
{
    if cs.len() > 0 {
        let pre = cs.drop_last();
        lemma_required_are_names(pre);
        assert forall|r: Seq<char>| required_names(cs).contains(r) implies content_names(cs).contains(r) by {
            if required_names(pre).contains(r) {
                let k = choose|k: int| 0 <= k < content_names(pre).len() && content_names(pre)[k] == r;
                assert(content_names(cs)[k] == r);
            } else {
                assert(content_names(cs)[cs.len() - 1] == r);
            }
        }
    }
}

/// Every required name is the name of a property.
pub proof fn law_required_are_properties(
    cs: Seq<CommonContent>,
    properties: IndexMap<String, SchemaRef>,
    required: Vec<String>,
    simplified: bool,
)
    requires
        properties_of(cs, properties, required, simplified),
    ensures
        forall|j: int|
            0 <= j < required@.len() ==> has_key(property_entries(properties), #[trigger] required@[j]@),
{
    lemma_required_are_names(cs);
    lemma_ordered_entries_keys(
        property_entries(properties),
        content_names(cs),
        |j: int, s: SchemaRef| property_of(cs[j], s, simplified),
    );
    assert forall|j: int| 0 <= j < required@.len() implies has_key(
        property_entries(properties),
        #[trigger] required@[j]@,
    ) by {
        let k = required@[j]@;
        assert(string_views(required@)[j] == k);
        assert(required_names(cs).contains(k));
        assert(content_names(cs).contains(k));
        let i = choose|i: int| 0 <= i < property_entries(properties).len()
            && property_entries(properties)[i].0 == k
            && property_of(cs[last_index(content_names(cs), k)], property_entries(properties)[i].1, simplified);
        assert(property_entries(properties)[i].0 == k);
    }
}

/// No type of the contents holds a union.
pub open spec fn contents_union_free(cs: Seq<CommonContent>) -> bool {
    forall|j: int| 0 <= j < cs.len() ==> union_free(#[trigger] cs[j].kind)
}

/// The object is a record whose field types hold no union.
pub open spec fn object_union_free(o: Object) -> bool {
    match o.data {
        ObjectData::Fields(fields) => contents_union_free(field_contents(fields@)),
        ObjectData::Elements(_) => false,
        ObjectData::Unknown => true,
    }
}

/// Neither the result type nor an argument type of the method holds a union.
pub open spec fn method_union_free(m: Method) -> bool {
    &&& union_free(m.return_type)
    &&& match m.args {
        MethodArgs::No => true,
        MethodArgs::Yes(args) => contents_union_free(argument_contents(args@)),
        MethodArgs::WithMultipart(args) => contents_union_free(argument_contents(args@)),
    }
}

/// The reference holds no union type and no union object.
pub open spec fn parsed_union_free(p: Parsed) -> bool {
    &&& forall|j: int| 0 <= j < p.objects@.len() ==> object_union_free(#[trigger] p.objects@[j])
    &&& forall|j: int| 0 <= j < p.methods@.len() ==> method_union_free(#[trigger] p.methods@[j])
}

/// On contents with no union, the full and the simplified translation
/// describe the same properties and required names.
pub proof fn law_properties_agree_without_unions(
    cs: Seq<CommonContent>,
    properties: IndexMap<String, SchemaRef>,
    required: Vec<String>,
)
    requires
        contents_union_free(cs),
    ensures
        properties_of(cs, properties, required, false) == properties_of(cs, properties, required, true),
{
    let f = |j: int, s: SchemaRef| property_of(cs[j], s, false);
    let g = |j: int, s: SchemaRef| property_of(cs[j], s, true);
    assert forall|j: int, s: SchemaRef| #![trigger f(j, s)] 0 <= j < content_names(cs).len() implies f(j, s) == g(j, s) by {
        law_union_free_translations_agree(cs[j].kind, s);
    }
    lemma_ordered_entries_agree(property_entries(properties), content_names(cs), f, g);
}

/// On a reference with no union type and no union object, `generate` and
/// `generate_simplified` describe the same documents.
pub proof fn law_translations_agree_without_unions(p: Parsed, d: ApiDocument)
    requires
        parsed_union_free(p),
    ensures
        document_of(p, d, false) == document_of(p, d, true),
{
    let names = object_names(p.objects@);
    let cf = |j: int, c: ComponentSchema| component_of(p.objects@[j], c, false);
    let cg = |j: int, c: ComponentSchema| component_of(p.objects@[j], c, true);
    assert forall|j: int, c: ComponentSchema| #![trigger cf(j, c)] 0 <= j < names.len() implies cf(j, c) == cg(j, c) by {
        let o = p.objects@[j];
        assert(object_union_free(o));
        if let ObjectData::Fields(fields) = o.data {
            if let ComponentKind::Object { properties, required } = c.kind {
                law_properties_agree_without_unions(field_contents(fields@), properties, required);
            }
        }
    }
    lemma_ordered_entries_agree(component_entries(d.schemas), names, cf, cg);
    let paths = method_paths(p.methods@);
    let of = |j: int, o: MethodOperation| operation_of(p.methods@[j], o, false);
    let og = |j: int, o: MethodOperation| operation_of(p.methods@[j], o, true);
    assert forall|j: int, o: MethodOperation| #![trigger of(j, o)] 0 <= j < paths.len() implies of(j, o) == og(j, o) by {
        let m = p.methods@[j];
        assert(method_union_free(m));
        law_union_free_translations_agree(m.return_type, o.result);
        if let Some(b) = o.request_body {
            match m.args {
                MethodArgs::Yes(args) => {
                    law_properties_agree_without_unions(argument_contents(args@), b.properties, b.required);
                },
                MethodArgs::WithMultipart(args) => {
                    law_properties_agree_without_unions(argument_contents(args@), b.properties, b.required);
                },
                _ => {},
            }
        }
    }
    lemma_ordered_entries_agree(path_entries(d.paths), paths, of, og);
}

/// On a type with no union, `into_schema` and `into_schema_first` give the
/// same schema.
pub proof fn law_union_free_schemas_same(t: ParserType, full: SchemaRef, simple: SchemaRef)
    requires
        union_free(t),
        schema_of(t, full),
        schema_first_of(t, simple),
    ensures
        same_schema(full, simple),
{
    law_union_free_translations_agree(t, simple);
    law_schema_determined(t, full, simple, false);
}

/// On contents with no union, `make_properties_and_required` and
/// `make_properties_and_required_simplified` give the same properties and
/// the same required names.
pub proof fn law_union_free_properties_same(
    cs: Seq<CommonContent>,
    p1: IndexMap<String, SchemaRef>,
    r1: Vec<String>,
    p2: IndexMap<String, SchemaRef>,
    r2: Vec<String>,
)
    requires
        contents_union_free(cs),
        properties_of(cs, p1, r1, false),
        properties_of(cs, p2, r2, true),
    ensures
        same_properties(p1, p2),
        string_views(r1@) == string_views(r2@),
{
    law_properties_agree_without_unions(cs, p2, r2);
    law_properties_determined(cs, p1, r1, p2, r2, false);
}

/// On a reference with no union type and no union object, `generate` and
/// `generate_simplified` give the same document.
pub proof fn law_union_free_documents_same(p: Parsed, full: ApiDocument, simple: ApiDocument)
    requires
        parsed_union_free(p),
        document_of(p, full, false),
        document_of(p, simple, true),
    ensures
        same_document(full, simple),
{
    law_translations_agree_without_unions(p, simple);
    law_document_determined(p, full, simple, false);
}

/// The property names of properties that `properties_of` describes are the
/// distinct content names in order of first appearance.
pub proof fn law_property_names(
    cs: Seq<CommonContent>,
    properties: IndexMap<String, SchemaRef>,
    required: Vec<String>,
    simplified: bool,
)
    requires
        properties_of(cs, properties, required, simplified),
    ensures
        entry_keys(property_entries(properties)) == first_keys(content_names(cs)),
{
    assert(entry_keys(property_entries(properties)) =~= first_keys(content_names(cs)));
}

/// Whether the object schema parts of two component kinds have the same
/// shape: both objects with the same property names and required names, or
/// neither an object.
pub open spec fn same_object_shape(a: ComponentKind, b: ComponentKind) -> bool {
    match a {
        ComponentKind::Object { properties, required } => match b {
            ComponentKind::Object { properties: p2, required: r2 } => {
                &&& entry_keys(property_entries(properties)) == entry_keys(property_entries(p2))
                &&& string_views(required@) == string_views(r2@)
            },
            ComponentKind::Other(_) => false,
        },
        ComponentKind::Other(_) => b is Other,
    }
}

/// Whether two operations have request bodies of the same shape: both none,
/// or both with the same content types, property names and required names.
pub open spec fn same_body_shape(a: MethodOperation, b: MethodOperation) -> bool {
    match a.request_body {
        None => b.request_body is None,
        Some(x) => match b.request_body {
            Some(y) => {
                &&& string_views(x.content_types@) == string_views(y.content_types@)
                &&& entry_keys(property_entries(x.properties)) == entry_keys(property_entries(y.properties))
                &&& string_views(x.required@) == string_views(y.required@)
            },
            None => false,
        },
    }
}

proof fn lemma_same_component_shape(o: Object, c1: ComponentSchema, c2: ComponentSchema)
    requires
        component_of(o, c1, false),
        component_of(o, c2, true),
    ensures
        same_object_shape(c1.kind, c2.kind),
{
    if let ObjectData::Fields(fields) = o.data {
        if let ComponentKind::Object { properties, required } = c1.kind {
            if let ComponentKind::Object { properties: p2, required: r2 } = c2.kind {
                law_property_names(field_contents(fields@), properties, required, false);
                law_property_names(field_contents(fields@), p2, r2, true);
            }
        }
    }
}

proof fn lemma_same_body_shape(m: Method, o1: MethodOperation, o2: MethodOperation)
    requires
        operation_of(m, o1, false),
        operation_of(m, o2, true),
    ensures
        same_body_shape(o1, o2),
{
    match m.args {
        MethodArgs::Yes(args) => {
            let b1 = o1.request_body.unwrap();
            let b2 = o2.request_body.unwrap();
            law_property_names(argument_contents(args@), b1.properties, b1.required, false);
            law_property_names(argument_contents(args@), b2.properties, b2.required, true);
        },
        MethodArgs::WithMultipart(args) => {
            let b1 = o1.request_body.unwrap();
            let b2 = o2.request_body.unwrap();
            law_property_names(argument_contents(args@), b1.properties, b1.required, false);
            law_property_names(argument_contents(args@), b2.properties, b2.required, true);
        },
        MethodArgs::No => {},
    }
}

/// On every reference, the full and the simplified document have the same
/// component names and paths in the same order, objects with the same
/// property and required names, and request bodies of the same presence,
/// content types, property names and required names.
pub proof fn law_translations_share_shape(p: Parsed, full: ApiDocument, simple: ApiDocument)
    requires
        document_of(p, full, false),
        document_of(p, simple, true),
    ensures
        entry_keys(component_entries(full.schemas)) == entry_keys(component_entries(simple.schemas)),
        entry_keys(path_entries(full.paths)) == entry_keys(path_entries(simple.paths)),
        forall|i: int|
            0 <= i < component_entries(full.schemas).len() ==> same_object_shape(
                (#[trigger] component_entries(full.schemas)[i]).1.kind,
                component_entries(simple.schemas)[i].1.kind,
            ),
        forall|i: int|
            0 <= i < path_entries(full.paths).len() ==> same_body_shape(
                (#[trigger] path_entries(full.paths)[i]).1,
                path_entries(simple.paths)[i].1,
            ),
{
    let c1 = component_entries(full.schemas);
    let c2 = component_entries(simple.schemas);
    assert(entry_keys(c1) =~= entry_keys(c2));
    assert forall|i: int| 0 <= i < c1.len() implies same_object_shape(
        (#[trigger] c1[i]).1.kind,
        c2[i].1.kind,
    ) by {
        assert(c1[i].0 == c2[i].0);
        let o = p.objects@[last_index(object_names(p.objects@), c1[i].0)];
        lemma_same_component_shape(o, c1[i].1, c2[i].1);
    }
    let e1 = path_entries(full.paths);
    let e2 = path_entries(simple.paths);
    assert(entry_keys(e1) =~= entry_keys(e2));
    assert forall|i: int| 0 <= i < e1.len() implies same_body_shape((#[trigger] e1[i]).1, e2[i].1) by {
        assert(e1[i].0 == e2[i].0);
        let m = p.methods@[last_index(method_paths(p.methods@), e1[i].0)];
        lemma_same_body_shape(m, e1[i].1, e2[i].1);
    }
}

proof fn lemma_required_concat(xs: Seq<CommonContent>, ys: Seq<CommonContent>)
    ensures
        required_names(xs + ys) == required_names(xs) + required_names(ys),
    decreases ys.len(),
{
    if ys.len() == 0 {
        assert(xs + ys =~= xs);
        assert(required_names(ys) =~= Seq::<Seq<char>>::empty());
        assert(required_names(xs) + required_names(ys) =~= required_names(xs));
    } else {
        lemma_required_concat(xs, ys.drop_last());
        assert((xs + ys).drop_last() =~= xs + ys.drop_last());
        assert((xs + ys).last() == ys.last());
        if ys.last().required {
            assert(required_names(xs + ys) =~= required_names(xs) + required_names(ys));
        }
    }
}

proof fn lemma_first_keys_concat(a: Seq<Seq<char>>, b: Seq<Seq<char>>)
    requires
        forall|i: int, j: int| 0 <= i < a.len() && 0 <= j < b.len() ==> a[i] != b[j],
    ensures
        first_keys(a + b) == first_keys(a) + first_keys(b),
    decreases b.len(),
{
    if b.len() == 0 {
        assert(a + b =~= a);
        assert(first_keys(a) + first_keys(b) =~= first_keys(a));
    } else {
        let bl = b.drop_last();
        let k = b.last();
        lemma_first_keys_concat(a, bl);
        assert((a + b).drop_last() =~= a + bl);
        assert((a + b).last() == k);
        lemma_first_keys(a);
        lemma_first_keys(bl);
        assert(!a.contains(k)) by {
            if a.contains(k) {
                let i = choose|i: int| 0 <= i < a.len() && a[i] == k;
                assert(a[i] != b[b.len() - 1]);
            }
        }
        let fa = first_keys(a);
        let fb = first_keys(bl);
        assert((fa + fb).contains(k) <==> fb.contains(k)) by {
            if (fa + fb).contains(k) {
                let i = choose|i: int| 0 <= i < (fa + fb).len() && (fa + fb)[i] == k;
                if i < fa.len() {
                    assert(fa[i] == k);
                    assert(fa.contains(k));
                } else {
                    assert(fb[i - fa.len()] == k);
                }
            }
            if fb.contains(k) {
                let i = choose|i: int| 0 <= i < fb.len() && fb[i] == k;
                assert((fa + fb)[fa.len() + i] == k);
            }
        }
        if !fb.contains(k) {
            assert((fa + fb).push(k) =~= fa + fb.push(k));
        }
    }
}

proof fn lemma_last_index_concat(a: Seq<Seq<char>>, b: Seq<Seq<char>>, k: Seq<char>)
    ensures
        b.contains(k) ==> last_index(a + b, k) == a.len() + last_index(b, k),
        !b.contains(k) ==> last_index(a + b, k) == last_index(a, k),
    decreases b.len(),
{
    if b.len() == 0 {
        assert(a + b =~= a);
    } else {
        let bl = b.drop_last();
        lemma_last_index_concat(a, bl, k);
        assert((a + b).drop_last() =~= a + bl);
        assert((a + b).last() == b.last());
        if b.last() != k {
            assert(b.contains(k) <==> bl.contains(k)) by {
                if b.contains(k) {
                    let i = choose|i: int| 0 <= i < b.len() && b[i] == k;
                    assert(bl[i] == k);
                }
                if bl.contains(k) {
                    let i = choose|i: int| 0 <= i < bl.len() && bl[i] == k;
                    assert(b[i] == k);
                }
            }
        } else {
            assert(b[b.len() - 1] == k);
        }
    }
}

/// Making the properties of two lists of contents whose names are disjoint,
/// and of the two lists joined, gives for the joined list the first result's
/// properties followed by the second's, each described by the same content
/// and the same schema as in its own result, and the two required lists
/// joined in order.
pub proof fn law_properties_concatenate(
    xs: Seq<CommonContent>,
    ys: Seq<CommonContent>,
    p1: IndexMap<String, SchemaRef>,
    r1: Vec<String>,
    p2: IndexMap<String, SchemaRef>,
    r2: Vec<String>,
    p: IndexMap<String, SchemaRef>,
    r: Vec<String>,
    simplified: bool,
)
    requires
        forall|i: int, j: int| 0 <= i < xs.len() && 0 <= j < ys.len() ==> xs[i].name@ != ys[j].name@,
        properties_of(xs, p1, r1, simplified),
        properties_of(ys, p2, r2, simplified),
        properties_of(xs + ys, p, r, simplified),
    ensures
        string_views(r@) == string_views(r1@) + string_views(r2@),
        entry_keys(property_entries(p)) == entry_keys(property_entries(p1)) + entry_keys(
            property_entries(p2),
        ),
        forall|i: int|
            0 <= i < property_entries(p1).len() ==> property_of(
                xs[last_index(content_names(xs), property_entries(p)[i].0)],
                #[trigger] property_entries(p)[i].1,
                simplified,
            ),
        forall|j: int|
            0 <= j < property_entries(p2).len() ==> property_of(
                ys[last_index(content_names(ys), property_entries(p)[property_entries(p1).len() + j].0)],
                #[trigger] property_entries(p)[property_entries(p1).len() + j].1,
                simplified,
            ),
        forall|i: int|
            0 <= i < property_entries(p1).len() ==> same_schema(
                #[trigger] property_entries(p1)[i].1,
                property_entries(p)[i].1,
            ),
        forall|j: int|
            0 <= j < property_entries(p2).len() ==> same_schema(
                #[trigger] property_entries(p2)[j].1,
                property_entries(p)[property_entries(p1).len() + j].1,
            ),
{
    let a = content_names(xs);
    let b = content_names(ys);
    assert(content_names(xs + ys) =~= a + b);
    lemma_required_concat(xs, ys);
    lemma_first_keys_concat(a, b);
    law_property_names(xs, p1, r1, simplified);
    law_property_names(ys, p2, r2, simplified);
    law_property_names(xs + ys, p, r, simplified);
    lemma_first_keys(a);
    lemma_first_keys(b);
    let e = property_entries(p);
    let n1 = property_entries(p1).len();
    assert(first_keys(a).len() == n1);
    assert forall|i: int| 0 <= i < n1 implies property_of(
        xs[last_index(a, e[i].0)],
        #[trigger] e[i].1,
        simplified,
    ) by {
        let k = e[i].0;
        assert(k == first_keys(a)[i]);
        assert(first_keys(a).contains(k));
        assert(!b.contains(k)) by {
            if b.contains(k) {
                let j = choose|j: int| 0 <= j < b.len() && b[j] == k;
                let m = choose|m: int| 0 <= m < a.len() && a[m] == k;
                assert(xs[m].name@ != ys[j].name@);
            }
        }
        lemma_last_index_concat(a, b, k);
        lemma_last_index(a, k);
        assert((xs + ys)[last_index(a, k)] == xs[last_index(a, k)]);
    }
    let e1 = property_entries(p1);
    assert forall|i: int| 0 <= i < n1 implies same_schema(#[trigger] e1[i].1, e[i].1) by {
        assert(e1[i].0 == e[i].0) by {
            assert(entry_keys(e)[i] == entry_keys(e1)[i]);
        }
        assert(property_of(xs[last_index(a, e[i].0)], e[i].1, simplified));
        lemma_property_determined(xs[last_index(a, e[i].0)], e1[i].1, e[i].1, simplified);
    }
    assert forall|j: int| 0 <= j < property_entries(p2).len() implies property_of(
        ys[last_index(b, e[n1 + j].0)],
        #[trigger] e[n1 + j].1,
        simplified,
    ) by {
        let k = e[n1 + j].0;
        assert(k == first_keys(b)[j]);
        assert(first_keys(b).contains(k));
        lemma_last_index_concat(a, b, k);
        lemma_last_index(b, k);
        assert((xs + ys)[a.len() + last_index(b, k)] == ys[last_index(b, k)]);
    }
    let e2 = property_entries(p2);
    assert forall|j: int| 0 <= j < e2.len() implies same_schema(#[trigger] e2[j].1, e[n1 + j].1) by {
        assert(e2[j].0 == e[n1 + j].0) by {
            assert(entry_keys(e)[n1 + j] == entry_keys(e2)[j]);
        }
        assert(property_of(ys[last_index(b, e[n1 + j].0)], e[n1 + j].1, simplified));
        lemma_property_determined(ys[last_index(b, e[n1 + j].0)], e2[j].1, e[n1 + j].1, simplified);
    }
    assert(string_views(r@) =~= string_views(r1@) + string_views(r2@));
}

} // verus!
