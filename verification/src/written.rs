//! What the written OpenAPI schema of each parsed type holds, stated from the
//! parsed type straight to the fields of the `openapiv3` schema: its default,
//! its bounds and allowed values, the items of an array, the members of a
//! union and the target of an object reference.
use vstd::prelude::*;
use indexmap::IndexMap;
use openapiv3::{PathItem, ReferenceOr, StatusCode, Type};
use crate::parsed::{Method, MethodArgs, Object, ObjectData, ParserType};
use crate::schema::{parts_of, parts_view, schema_of, SchemaRef};
use crate::properties::{
    content_names, parts_in, property_of, required_names, schema_in, string_views, CommonContent,
};
use crate::ordered_map::{entry_keys, first_keys, inserted, last_index, property_entries};
use crate::document::{
    argument_contents, component_of, field_contents, operation_of, ComponentKind, ComponentSchema,
    MethodOperation,
};
use crate::openapi::{
    content_entries, json_bool_value, json_integer_value, json_string_value,
    openapi_property_entries, operation_description, operation_external_docs,
    operation_request_body, operation_responses, response_entries, schema_data_of, schema_kind_of,
};
use crate::output::{
    default_reference, first_schema, openapi_component_of, openapi_path_item_of, openapi_schema_of,
    unboxed,
};

verus! {

/// The schema written for a boolean type is a boolean type whose default is
/// the JSON boolean the type declares, and none where it declares none.
pub proof fn law_written_bool(t: ParserType, s: SchemaRef, o: ReferenceOr<openapiv3::Schema>, simplified: bool)
    requires
        t is Bool,
        parts_in(t, parts_view(s), simplified),
        openapi_schema_of(s, o),
    ensures
        o matches ReferenceOr::Item(x) && {
            &&& schema_kind_of(x) matches openapiv3::SchemaKind::Type(Type::Boolean(_))
            &&& schema_data_of(x).default == match t->Bool_default {
                Some(b) => Some(json_bool_value(b)),
                None => None,
            }
        },
{
    reveal_with_fuel(openapi_schema_of, 2);
    reveal_with_fuel(crate::schema::parts_of, 2);
    reveal_with_fuel(crate::schema::parts_first_of, 2);
}

/// The schema written for an integer type is an integer type with the
/// type's minimum and maximum, its allowed values in order, and the JSON
/// integer it declares as default.
pub proof fn law_written_integer(t: ParserType, s: SchemaRef, o: ReferenceOr<openapiv3::Schema>, simplified: bool)
    requires
        t is Integer,
        parts_in(t, parts_view(s), simplified),
        openapi_schema_of(s, o),
    ensures
        o matches ReferenceOr::Item(x) && {
            &&& schema_kind_of(x) matches openapiv3::SchemaKind::Type(Type::Integer(it))
            &&& it.minimum == t->Integer_min
            &&& it.maximum == t->Integer_max
            &&& it.enumeration@.len() == t->Integer_one_of@.len()
            &&& forall|i: int|
                0 <= i < t->Integer_one_of@.len() ==> #[trigger] it.enumeration@[i] == Some(t->Integer_one_of@[i])
            &&& schema_data_of(x).default == match t->Integer_default {
                Some(v) => Some(json_integer_value(v)),
                None => None,
            }
        },
{
    reveal_with_fuel(openapi_schema_of, 2);
    reveal_with_fuel(crate::schema::parts_of, 2);
    reveal_with_fuel(crate::schema::parts_first_of, 2);
}

/// The schema written for a string type is a string type whose minimum and
/// maximum length are the type's, whose allowed values are the type's in
/// order, and whose default is the JSON string it declares.
pub proof fn law_written_string(t: ParserType, s: SchemaRef, o: ReferenceOr<openapiv3::Schema>, simplified: bool)
    requires
        t is String,
        parts_in(t, parts_view(s), simplified),
        openapi_schema_of(s, o),
    ensures
        o matches ReferenceOr::Item(x) && {
            &&& schema_kind_of(x) matches openapiv3::SchemaKind::Type(Type::String(st))
            &&& match t->String_min_len {
                Some(n) => st.min_length == Some(n as usize),
                None => st.min_length is None,
            }
            &&& match t->String_max_len {
                Some(n) => st.max_length == Some(n as usize),
                None => st.max_length is None,
            }
            &&& st.enumeration@.len() == t->String_one_of@.len()
            &&& forall|i: int|
                0 <= i < t->String_one_of@.len() ==> #[trigger] st.enumeration@[i] == Some(t->String_one_of@[i])
            &&& schema_data_of(x).default == match t->String_default {
                Some(v) => Some(json_string_value(v@)),
                None => None,
            }
        },
{
    reveal_with_fuel(openapi_schema_of, 2);
    reveal_with_fuel(crate::schema::parts_of, 2);
    reveal_with_fuel(crate::schema::parts_first_of, 2);
}

/// The schema written for an object type is a reference to the object's
/// component schema.
pub proof fn law_written_reference(t: ParserType, s: SchemaRef, o: ReferenceOr<openapiv3::Schema>, simplified: bool)
    requires
        t is Object,
        parts_in(t, parts_view(s), simplified),
        openapi_schema_of(s, o),
    ensures
        o matches ReferenceOr::Reference { reference } && reference@ == "#/components/schemas/"@ + t->Object_0@,
{
    reveal_with_fuel(openapi_schema_of, 2);
    reveal_with_fuel(crate::schema::parts_of, 2);
    reveal_with_fuel(crate::schema::parts_first_of, 2);
}

/// The schema written for an array type is an array type with items, and
/// the items are the written schema of the element type; for an array of
/// objects, a reference to the element object's component schema.
pub proof fn law_written_array(t: ParserType, s: SchemaRef, o: ReferenceOr<openapiv3::Schema>, simplified: bool)
    requires
        t is Array,
        parts_in(t, parts_view(s), simplified),
        openapi_schema_of(s, o),
    ensures
        o matches ReferenceOr::Item(x) && {
            &&& schema_kind_of(x) matches openapiv3::SchemaKind::Type(Type::Array(a))
            &&& a.items matches Some(i)
            &&& exists|e: SchemaRef| schema_in(*t->Array_0, e, simplified) && openapi_schema_of(e, unboxed(i))
            &&& (*t->Array_0 is Object) ==> (unboxed(i) matches ReferenceOr::Reference { reference }
                && reference@ == "#/components/schemas/"@ + (*t->Array_0)->Object_0@)
        },
{
    reveal_with_fuel(openapi_schema_of, 2);
    reveal_with_fuel(crate::schema::parts_of, 2);
    reveal_with_fuel(crate::schema::parts_first_of, 2);
    let b = s->Item_0;
    let e = *b.kind->items.unwrap();
    if let ReferenceOr::Item(x) = o {
        if let openapiv3::SchemaKind::Type(Type::Array(a)) = schema_kind_of(x) {
            if let Some(i) = a.items {
                assert(schema_in(*t->Array_0, e, simplified));
                assert(openapi_schema_of(e, unboxed(i)));
                if *t->Array_0 is Object {
                    law_written_reference(*t->Array_0, e, unboxed(i), simplified);
                }
            }
        }
    }
}

/// `w` is the written schema of type `t` in the full translation.
pub open spec fn written_schema_of(t: ParserType, w: ReferenceOr<openapiv3::Schema>) -> bool {
    exists|e: SchemaRef| schema_of(t, e) && openapi_schema_of(e, w)
}

/// The written members of a full union: as many as the union's members, and
/// member `j` the written schema of the union's `j`-th member.
pub open spec fn written_members(types: Seq<ParserType>, v: Seq<ReferenceOr<openapiv3::Schema>>) -> bool {
    &&& v.len() == types.len()
    &&& forall|j: int| 0 <= j < types.len() ==> written_schema_of(types[j], #[trigger] v[j])
}

/// In the full translation, the schema written for a union is `anyOf` over
/// the written schemas of all its members, in order.
pub proof fn law_written_union(t: ParserType, s: SchemaRef, o: ReferenceOr<openapiv3::Schema>)
    requires
        t is Or,
        parts_of(t, parts_view(s)),
        openapi_schema_of(s, o),
    ensures
        o matches ReferenceOr::Item(x) && schema_kind_of(x) matches openapiv3::SchemaKind::AnyOf { any_of: v }
            && written_members(t->Or_0@, v@),
{
    let k = s->Item_0.kind;
    assert(crate::schema::kind_of(t, k));
    if let ReferenceOr::Item(x) = o {
        assert(crate::output::openapi_kind_of(k, schema_kind_of(x)));
        if let openapiv3::SchemaKind::AnyOf { any_of: v } = schema_kind_of(x) {
            assert forall|j: int| 0 <= j < t->Or_0@.len() implies written_schema_of(t->Or_0@[j], #[trigger] v@[j]) by {
                assert(schema_of(t->Or_0@[j], k->any_of@[j]));
                assert(openapi_schema_of(k->any_of@[j], v@[j]));
            }
        }
    }
}

/// In the full translation, the component schema written for a union object
/// carries the object's description and is `anyOf` over the written schemas
/// of all its element types, in order.
pub proof fn law_written_union_object(o: Object, c: ComponentSchema, w: ReferenceOr<openapiv3::Schema>)
    requires
        o.data is Elements,
        component_of(o, c, false),
        openapi_component_of(c, w),
    ensures
        w matches ReferenceOr::Item(x) && {
            &&& schema_data_of(x).description == Some(o.description)
            &&& schema_kind_of(x) matches openapiv3::SchemaKind::AnyOf { any_of: v }
            &&& written_members(o.data->Elements_0@, v@)
        },
{
    let k = c.kind->Other_0;
    let es = o.data->Elements_0@;
    if let ReferenceOr::Item(x) = w {
        assert(crate::output::openapi_kind_of(k, schema_kind_of(x)));
        if let openapiv3::SchemaKind::AnyOf { any_of: v } = schema_kind_of(x) {
            assert forall|j: int| 0 <= j < es.len() implies written_schema_of(es[j], #[trigger] v@[j]) by {
                assert(schema_of(es[j], k->any_of@[j]));
                assert(openapi_schema_of(k->any_of@[j], v@[j]));
            }
        }
    }
}


/// `v` is the written property schema of content `c`.
pub open spec fn written_property_of(c: CommonContent, v: ReferenceOr<Box<openapiv3::Schema>>, simplified: bool) -> bool {
    exists|e: SchemaRef| property_of(c, e, simplified) && openapi_schema_of(e, unboxed(v))
}

/// The property schema written for a content carries the content's
/// description when it is given in place, and is a reference to the object's
/// component schema when the content's type is an object.
pub proof fn law_written_property(c: CommonContent, s: SchemaRef, o: ReferenceOr<openapiv3::Schema>, simplified: bool)
    requires
        property_of(c, s, simplified),
        openapi_schema_of(s, o),
    ensures
        o matches ReferenceOr::Item(x) ==> schema_data_of(x).description == Some(c.description),
        (c.kind is Object) ==> (o matches ReferenceOr::Reference { reference }
            && reference@ == "#/components/schemas/"@ + c.kind->Object_0@),
{
    if c.kind is Object {
        law_written_reference(c.kind, s, o, simplified);
    }
}

/// `ot` is the object type written for these contents: one property per
/// distinct name in order of first appearance, each the written property
/// schema of the last content with that name, and the required names in
/// order.
pub open spec fn written_object_of(cs: Seq<CommonContent>, ot: openapiv3::ObjectType, simplified: bool) -> bool {
    let e = openapi_property_entries(ot.properties);
    &&& entry_keys(e) == first_keys(content_names(cs))
    &&& string_views(ot.required@) == required_names(cs)
    &&& forall|i: int|
        0 <= i < e.len() ==> written_property_of(cs[last_index(content_names(cs), e[i].0)], #[trigger] e[i].1, simplified)
}

/// The object type written for properties and required names of contents
/// is the written object of the contents.
proof fn lemma_written_object(
    cs: Seq<CommonContent>,
    properties: IndexMap<String, SchemaRef>,
    required: Vec<String>,
    k: openapiv3::SchemaKind,
    simplified: bool,
)
    requires
        crate::properties::properties_of(cs, properties, required, simplified),
        crate::output::openapi_object_of(properties, required, k),
    ensures
        k matches openapiv3::SchemaKind::Type(Type::Object(ot)) && written_object_of(cs, ot, simplified),
{
    if let openapiv3::SchemaKind::Type(Type::Object(ot)) = k {
        let pe = property_entries(properties);
        let e = openapi_property_entries(ot.properties);
        let names = content_names(cs);
        assert(entry_keys(e) =~= first_keys(names));
        assert forall|i: int| 0 <= i < e.len() implies written_property_of(
            cs[last_index(names, e[i].0)],
            #[trigger] e[i].1,
            simplified,
        ) by {
            assert(e[i].0 == pe[i].0);
            assert(property_of(cs[last_index(names, pe[i].0)], pe[i].1, simplified));
            assert(openapi_schema_of(pe[i].1, unboxed(e[i].1)));
        }
    }
}

/// The component schema written for an object carries the object's
/// description and documentation link; for a record it is the object type of
/// its fields (one property per distinct field name in order of first
/// appearance, the last field with the name deciding its schema, the required
/// fields' names in order); for an object of unknown shape it is any value.
pub proof fn law_written_object_component(o: Object, c: ComponentSchema, w: ReferenceOr<openapiv3::Schema>, simplified: bool)
    requires
        component_of(o, c, simplified),
        openapi_component_of(c, w),
    ensures
        w matches ReferenceOr::Item(x) && {
            &&& schema_data_of(x).description == Some(o.description)
            &&& schema_data_of(x).external_docs matches Some(d) && d.url == o.docs_link
            &&& match o.data {
                ObjectData::Fields(fs) => schema_kind_of(x) matches openapiv3::SchemaKind::Type(Type::Object(ot))
                    && written_object_of(field_contents(fs@), ot, simplified),
                ObjectData::Unknown => schema_kind_of(x) matches openapiv3::SchemaKind::Any(_),
                ObjectData::Elements(_) => true,
            }
        },
{
    if let ObjectData::Fields(fs) = o.data {
        if let ReferenceOr::Item(x) = w {
            if let ComponentKind::Object { properties, required } = c.kind {
                lemma_written_object(field_contents(fs@), properties, required, schema_kind_of(x), simplified);
            }
        }
    }
}

/// `v` is the written schema of type `t` in the chosen translation.
pub open spec fn written_result_of(t: ParserType, v: ReferenceOr<Box<openapiv3::Schema>>, simplified: bool) -> bool {
    exists|e: SchemaRef| schema_in(t, e, simplified) && openapi_schema_of(e, unboxed(v))
}

/// `ok` is the success schema written for a method with result type `t`: the
/// common success schema, with its `result` property set to the written
/// schema of `t` when it is an object type given in place.
pub open spec fn written_success_of(
    ok: ReferenceOr<openapiv3::Schema>,
    success: ReferenceOr<openapiv3::Schema>,
    t: ParserType,
    simplified: bool,
) -> bool {
    match success {
        ReferenceOr::Reference { .. } => ok == success,
        ReferenceOr::Item(b) => ok matches ReferenceOr::Item(y) && schema_data_of(y) == schema_data_of(b) && match schema_kind_of(b) {
            openapiv3::SchemaKind::Type(Type::Object(ob)) => schema_kind_of(y) matches openapiv3::SchemaKind::Type(Type::Object(oy))
                && oy.required == ob.required
                && exists|v: ReferenceOr<Box<openapiv3::Schema>>|
                    openapi_property_entries(oy.properties) == inserted(openapi_property_entries(ob.properties), "result"@, v)
                        && written_result_of(t, v, simplified),
            _ => y == b,
        },
    }
}

/// `rb` is the request body written for arguments: required, and under each
/// of its content types the object type of the arguments.
pub open spec fn written_body_of(args: Seq<crate::parsed::Argument>, rb: ReferenceOr<openapiv3::RequestBody>, simplified: bool) -> bool {
    &&& rb matches ReferenceOr::Item(b)
    &&& b.required
    &&& forall|j: int| 0 <= j < content_entries(b.content).len() ==> ((#[trigger] content_entries(b.content)[j]).1.schema matches Some(ReferenceOr::Item(z))
        && schema_kind_of(z) matches openapiv3::SchemaKind::Type(Type::Object(ot))
        && written_object_of(argument_contents(args), ot, simplified))
}

/// The path item written for a method is its `POST` operation, with the
/// method's description and documentation link; its default response refers
/// to the `Error` schema and its response for status 200 is the success
/// schema with the written schema of the method's result type; a method with
/// arguments has a required request body holding the object type of its
/// arguments under each content type, one without arguments none.
pub proof fn law_written_operation(
    m: Method,
    o: MethodOperation,
    item: ReferenceOr<PathItem>,
    success: ReferenceOr<openapiv3::Schema>,
    simplified: bool,
)
    requires
        operation_of(m, o, simplified),
        openapi_path_item_of(o, item, success),
    ensures
        item matches ReferenceOr::Item(pi) && pi.post matches Some(op) && {
            &&& operation_description(op) == Some(m.description)
            &&& operation_external_docs(op) matches Some(d) && d.url == m.docs_link
            &&& default_reference(operation_responses(op)) == Some("#/components/schemas/Error"@)
            &&& response_entries(operation_responses(op).responses).len() == 1
            &&& response_entries(operation_responses(op).responses)[0].0 == StatusCode::Code(200)
            &&& response_entries(operation_responses(op).responses)[0].1 matches ReferenceOr::Item(r)
            &&& first_schema(r) matches Some(ok)
            &&& written_success_of(ok, success, m.return_type, simplified)
            &&& match m.args {
                MethodArgs::No => operation_request_body(op) is None,
                MethodArgs::Yes(args) => operation_request_body(op) matches Some(rb) && written_body_of(args@, rb, simplified),
                MethodArgs::WithMultipart(args) => operation_request_body(op) matches Some(rb) && written_body_of(args@, rb, simplified),
            }
        },
{
    reveal_strlit("#/components/schemas/");
    reveal_strlit("Error");
    reveal_strlit("#/components/schemas/Error");
    assert(crate::schema::reference_to("Error"@) =~= "#/components/schemas/Error"@);
    if let ReferenceOr::Item(pi) = item {
        if let Some(op) = pi.post {
            let rs = operation_responses(op);
            let re = response_entries(rs.responses);
            assert(entry_keys(re) == seq![StatusCode::Code(200)]);
            assert(entry_keys(re).len() == re.len());
            assert(re.len() == 1);
            assert(entry_keys(re)[0] == re[0].0);
            if let ReferenceOr::Item(r) = response_entries(rs.responses)[0].1 {
                if let Some(ok) = first_schema(r) {
                    if let ReferenceOr::Item(b) = success {
                        if let openapiv3::SchemaKind::Type(Type::Object(ob)) = schema_kind_of(b) {
                            if let ReferenceOr::Item(y) = ok {
                                if let openapiv3::SchemaKind::Type(Type::Object(oy)) = schema_kind_of(y) {
                                    let v = choose|v: ReferenceOr<Box<openapiv3::Schema>>|
                                        openapi_property_entries(oy.properties) == inserted(openapi_property_entries(ob.properties), "result"@, v)
                                            && openapi_schema_of(o.result, unboxed(v));
                                    assert(written_result_of(m.return_type, v, simplified));
                                }
                            }
                        }
                    }
                }
            }
            match m.args {
                MethodArgs::Yes(args) => {
                    let ab = o.request_body.unwrap();
                    if let Some(ReferenceOr::Item(b)) = operation_request_body(op) {
                        assert forall|j: int| 0 <= j < content_entries(b.content).len() implies ((#[trigger] content_entries(b.content)[j]).1.schema matches Some(ReferenceOr::Item(z))
                            && schema_kind_of(z) matches openapiv3::SchemaKind::Type(Type::Object(ot))
                            && written_object_of(argument_contents(args@), ot, simplified)) by {
                            let z = crate::written::item_or(content_entries(b.content)[j].1.schema.unwrap());
                            lemma_written_object(argument_contents(args@), ab.properties, ab.required, schema_kind_of(z), simplified);
                        }
                    }
                },
                MethodArgs::WithMultipart(args) => {
                    let ab = o.request_body.unwrap();
                    if let Some(ReferenceOr::Item(b)) = operation_request_body(op) {
                        assert forall|j: int| 0 <= j < content_entries(b.content).len() implies ((#[trigger] content_entries(b.content)[j]).1.schema matches Some(ReferenceOr::Item(z))
                            && schema_kind_of(z) matches openapiv3::SchemaKind::Type(Type::Object(ot))
                            && written_object_of(argument_contents(args@), ot, simplified)) by {
                            let z = crate::written::item_or(content_entries(b.content)[j].1.schema.unwrap());
                            lemma_written_object(argument_contents(args@), ab.properties, ab.required, schema_kind_of(z), simplified);
                        }
                    }
                },
                MethodArgs::No => {},
            }
        }
    }
}

/// What a schema or reference given in place holds.
spec fn item_or<T>(r: ReferenceOr<T>) -> T {
    match r {
        ReferenceOr::Item(x) => x,
        ReferenceOr::Reference { .. } => arbitrary(),
    }
}

} // verus!
