//! The OpenAPI document itself: the base document read from YAML, its
//! `Success` schema taken out and used in every operation's successful
//! response, and the generated component schemas and paths written in.
use vstd::prelude::*;
use indexmap::IndexMap;
use openapiv3::{
    AnySchema, ArrayType, BooleanType, ExternalDocumentation, IntegerType, MediaType, NumberType,
    ObjectType, OpenAPI, PathItem, Paths, ReferenceOr, Response, Responses, SchemaData, StatusCode,
    StringType, Type, VariantOrUnknownOrEmpty,
};
use crate::parsed::{Method, MethodArgs, Parsed};
use crate::schema::{reference_to, schema_reference, DefaultValue, SchemaItem, SchemaRef, ValueKind};
use crate::properties::string_views;
use crate::document::{
    component_of, document_of, form_data, form_url_encoded, generate_document, json, method_paths,
    object_names,
    operation_of,
    ApiDocument, ArgumentsBody, ComponentKind, ComponentSchema, MethodOperation,
};
use crate::ordered_map::{
    component_entries, distinct_keys, entry_keys, first_keys, inserted, key_index, key_position,
    keys_after, lemma_first_keys, lemma_inserted_all_lookup, lemma_inserted_keeps, lemma_key_index,
    lemma_key_position, lemma_keys_after_distinct, lemma_keys_of_inserted,
    lemma_keys_of_inserted_all, last_index, path_entries, property_entries,
};
use crate::openapi::{
    base_outline, base_parses, base_schema_names, clone_schema, outline_of, clone_schema_kind, component_list,
    content_entries, extend_schemas, insert_content, insert_object_property, insert_openapi_path,
    insert_openapi_property, insert_response, insert_schema, json_bool, json_bool_value,
    json_integer, json_integer_value, json_map_entries, json_string, json_string_value,
    make_operation, make_schema, new_content_map, new_json_map, new_openapi_path_map,
    example_entries, encoding_entries, header_entries, link_entries, new_example_map,
    new_encoding_map, new_header_map, new_link_map, operation_summary, operation_id,
    operation_tags, operation_parameters, operation_deprecated, operation_security,
    operation_servers, operation_extensions, operation_callbacks, callback_entries,
    new_openapi_property_map, new_response_map, new_schema_map, openapi_path_entries,
    openapi_property_entries, operation_description, operation_external_docs, operation_list,
    operation_request_body, operation_responses, parse_base, property_list, response_entries,
    schema_data_of, schema_entries, schema_kind_of, shift_remove_schema,
};

verus! {

/// The reference to the common error schema.
pub open spec fn error_reference() -> Seq<char> {
    reference_to("Error"@)
}

/// The map holds no entries.
pub open spec fn no_extensions(m: IndexMap<String, serde_json::Value>) -> bool {
    json_map_entries(m).len() == 0
}

/// A schema or reference without its box.
pub open spec fn unboxed(o: ReferenceOr<Box<openapiv3::Schema>>) -> ReferenceOr<openapiv3::Schema> {
    match o {
        ReferenceOr::Reference { reference } => ReferenceOr::Reference { reference },
        ReferenceOr::Item(b) => ReferenceOr::Item(*b),
    }
}

/// The JSON value of a default value.
pub open spec fn json_default(d: Option<DefaultValue>) -> Option<serde_json::Value> {
    match d {
        Some(DefaultValue::Bool(b)) => Some(json_bool_value(b)),
        Some(DefaultValue::Integer(i)) => Some(json_integer_value(i)),
        Some(DefaultValue::String(s)) => Some(json_string_value(s@)),
        None => None,
    }
}

/// `d` is the documentation link to `url`, with nothing else.
pub open spec fn documentation_of(d: ExternalDocumentation, url: String) -> bool {
    &&& d.url == url
    &&& d.description is None
    &&& no_extensions(d.extensions)
}

/// `data` holds this description, default and documentation link, and every
/// other field as `Default` gives it.
pub open spec fn plain_data(
    data: SchemaData,
    description: Option<String>,
    default: Option<serde_json::Value>,
    docs_url: Option<String>,
) -> bool {
    &&& !data.nullable
    &&& !data.read_only
    &&& !data.write_only
    &&& !data.deprecated
    &&& data.example is None
    &&& data.title is None
    &&& data.discriminator is None
    &&& data.description == description
    &&& data.default == default
    &&& no_extensions(data.extensions)
    &&& match docs_url {
        None => data.external_docs is None,
        Some(url) => data.external_docs matches Some(d) && documentation_of(d, url),
    }
}

/// `o` is the OpenAPI form of the schema or reference `s`.
pub open spec fn openapi_schema_of(s: SchemaRef, o: ReferenceOr<openapiv3::Schema>) -> bool
    decreases s,
{
    match s {
        SchemaRef::Reference { reference } => o == ReferenceOr::<openapiv3::Schema>::Reference {
            reference,
        },
        SchemaRef::Item(b) => {
            &&& o matches ReferenceOr::Item(x)
            &&& plain_data(schema_data_of(x), b.description, json_default(b.default), None)
            &&& openapi_kind_of(b.kind, schema_kind_of(x))
        },
    }
}

/// `o` is the OpenAPI form of the schema kind `k`.
pub open spec fn openapi_kind_of(k: ValueKind, o: openapiv3::SchemaKind) -> bool
    decreases k,
{
    match k {
        ValueKind::Integer { minimum, maximum, enumeration } => {
            &&& o matches openapiv3::SchemaKind::Type(Type::Integer(t))
            &&& t.format matches VariantOrUnknownOrEmpty::Empty
            &&& t.multiple_of is None
            &&& !t.exclusive_minimum
            &&& !t.exclusive_maximum
            &&& t.minimum == minimum
            &&& t.maximum == maximum
            &&& t.enumeration == enumeration
        },
        ValueKind::String { min_length, max_length, enumeration } => {
            &&& o matches openapiv3::SchemaKind::Type(Type::String(t))
            &&& t.format matches VariantOrUnknownOrEmpty::Empty
            &&& t.pattern is None
            &&& t.enumeration == enumeration
            &&& t.min_length == min_length
            &&& t.max_length == max_length
        },
        ValueKind::Boolean => o matches openapiv3::SchemaKind::Type(Type::Boolean(t)) && t.enumeration@.len() == 0,
        ValueKind::Number => o matches openapiv3::SchemaKind::Type(Type::Number(_)),
        ValueKind::Array { items } => {
            &&& o matches openapiv3::SchemaKind::Type(Type::Array(t))
            &&& t.min_items is None
            &&& t.max_items is None
            &&& !t.unique_items
            &&& match items {
                None => t.items is None,
                Some(i) => t.items matches Some(x) && openapi_schema_of(*i, unboxed(x)),
            }
        },
        ValueKind::AnyOf { any_of } => {
            &&& o matches openapiv3::SchemaKind::AnyOf { any_of: v }
            &&& v@.len() == any_of@.len()
            &&& forall|j: int| 0 <= j < v@.len() ==> openapi_schema_of(any_of@[j], #[trigger] v@[j])
        },
        ValueKind::Any => o matches openapiv3::SchemaKind::Any(_),
    }
}

/// The OpenAPI property entries `b` are the model's `a`, each value in
/// OpenAPI form.
pub open spec fn converted_entries(
    a: Seq<(Seq<char>, SchemaRef)>,
    b: Seq<(Seq<char>, ReferenceOr<Box<openapiv3::Schema>>)>,
) -> bool {
    &&& a.len() == b.len()
    &&& forall|i: int| 0 <= i < b.len() ==> (#[trigger] b[i]).0 == a[i].0 && openapi_schema_of(a[i].1, unboxed(b[i].1))
}

/// `o` is the OpenAPI object type with these properties and required names.
pub open spec fn openapi_object_of(properties: IndexMap<String, SchemaRef>, required: Vec<String>, o: openapiv3::SchemaKind) -> bool {
    &&& o matches openapiv3::SchemaKind::Type(Type::Object(t))
    &&& t.required == required
    &&& t.additional_properties is None
    &&& t.min_properties is None
    &&& t.max_properties is None
    &&& converted_entries(property_entries(properties), openapi_property_entries(t.properties))
}

/// `o` is the OpenAPI form of the component schema `c`.
pub open spec fn openapi_component_of(c: ComponentSchema, o: ReferenceOr<openapiv3::Schema>) -> bool {
    &&& o matches ReferenceOr::Item(x)
    &&& plain_data(schema_data_of(x), Some(c.description), None, Some(c.docs_url))
    &&& match c.kind {
        ComponentKind::Object { properties, required } => openapi_object_of(properties, required, schema_kind_of(x)),
        ComponentKind::Other(k) => openapi_kind_of(k, schema_kind_of(x)),
    }
}

/// The media type holds nothing but its schema.
pub open spec fn bare_media(m: MediaType) -> bool {
    &&& m.example is None
    &&& example_entries(m.examples).len() == 0
    &&& encoding_entries(m.encoding).len() == 0
    &&& no_extensions(m.extensions)
}

/// `m` holds this schema, and nothing else.
pub open spec fn plain_media(m: MediaType, schema: Option<ReferenceOr<openapiv3::Schema>>) -> bool {
    &&& m.schema == schema
    &&& bare_media(m)
}

/// `r` is a response with no description whose only content is JSON.
pub open spec fn json_response_shape(r: Response) -> bool {
    &&& r.description@.len() == 0
    &&& header_entries(r.headers).len() == 0
    &&& link_entries(r.links).len() == 0
    &&& no_extensions(r.extensions)
    &&& entry_keys(content_entries(r.content)) == seq![json()]
    &&& bare_media(content_entries(r.content)[0].1)
}

/// The schema of the response's first content.
pub open spec fn first_schema(r: Response) -> Option<ReferenceOr<openapiv3::Schema>> {
    content_entries(r.content)[0].1.schema
}

/// `s` is the common success schema `base` with its `result` property set to
/// the OpenAPI form of `result`: a reference stays the same reference; a
/// schema given in place is copied, and when it is an object type `result` is
/// inserted among its properties (in place if it was there, last otherwise),
/// everything else of it kept.
pub open spec fn success_with_result(
    s: ReferenceOr<openapiv3::Schema>,
    base: ReferenceOr<openapiv3::Schema>,
    result: SchemaRef,
) -> bool {
    match base {
        ReferenceOr::Reference { .. } => s == base,
        ReferenceOr::Item(b) => {
            &&& s matches ReferenceOr::Item(y)
            &&& schema_data_of(y) == schema_data_of(b)
            &&& match schema_kind_of(b) {
                openapiv3::SchemaKind::Type(Type::Object(o)) => {
                    &&& schema_kind_of(y) matches openapiv3::SchemaKind::Type(Type::Object(o2))
                    &&& o2.required == o.required
                    &&& o2.additional_properties == o.additional_properties
                    &&& o2.min_properties == o.min_properties
                    &&& o2.max_properties == o.max_properties
                    &&& exists|v: ReferenceOr<Box<openapiv3::Schema>>|
                        openapi_property_entries(o2.properties) == inserted(
                            openapi_property_entries(o.properties),
                            "result"@,
                            v,
                        ) && openapi_schema_of(result, unboxed(v))
                },
                _ => y == b,
            }
        },
    }
}

/// The responses of an operation with result `result`: by default a JSON
/// reference to the error schema; for status 200, and for it alone, the JSON
/// success schema with `result`.
pub open spec fn responses_of(r: Responses, success: ReferenceOr<openapiv3::Schema>, result: SchemaRef) -> bool {
    &&& no_extensions(r.extensions)
    &&& r.default matches Some(ReferenceOr::Item(d))
    &&& json_response_shape(d)
    &&& first_schema(d) matches Some(ReferenceOr::Reference { reference })
    &&& reference@ == error_reference()
    &&& entry_keys(response_entries(r.responses)) == seq![StatusCode::Code(200)]
    &&& response_entries(r.responses)[0].1 matches ReferenceOr::Item(ok)
    &&& json_response_shape(ok)
    &&& first_schema(ok) matches Some(x)
    &&& success_with_result(x, success, result)
}

/// `m` is a media type of the request body `b`: the object schema of its
/// properties and required names.
pub open spec fn body_media_of(b: ArgumentsBody, m: MediaType) -> bool {
    &&& bare_media(m)
    &&& m.schema matches Some(ReferenceOr::Item(x))
    &&& plain_data(schema_data_of(x), None, None, None)
    &&& openapi_object_of(b.properties, b.required, schema_kind_of(x))
}

/// `o` is the OpenAPI form of the request body `b`: required, offered in
/// its content types in order, each with the object schema of its properties.
pub open spec fn openapi_body_of(b: ArgumentsBody, o: ReferenceOr<openapiv3::RequestBody>) -> bool {
    &&& o matches ReferenceOr::Item(rb)
    &&& rb.required
    &&& rb.description is None
    &&& no_extensions(rb.extensions)
    &&& entry_keys(content_entries(rb.content)) == keys_after(
        Seq::<Seq<char>>::empty(),
        string_views(b.content_types@),
    )
    &&& forall|i: int|
        0 <= i < content_entries(rb.content).len() ==> body_media_of(b, #[trigger] content_entries(rb.content)[i].1)
}

/// `op` is the OpenAPI form of the operation `o`.
pub open spec fn openapi_operation_of(o: MethodOperation, op: openapiv3::Operation, success: ReferenceOr<openapiv3::Schema>) -> bool {
    &&& operation_description(op) == Some(o.description)
    &&& operation_summary(op) is None
    &&& operation_id(op) is None
    &&& operation_tags(op)@.len() == 0
    &&& operation_parameters(op)@.len() == 0
    &&& !operation_deprecated(op)
    &&& operation_security(op) is None
    &&& operation_servers(op)@.len() == 0
    &&& no_extensions(operation_extensions(op))
    &&& callback_entries(operation_callbacks(op)).len() == 0
    &&& operation_external_docs(op) matches Some(d)
    &&& documentation_of(d, o.docs_url)
    &&& responses_of(operation_responses(op), success, o.result)
    &&& match o.request_body {
        None => operation_request_body(op) is None,
        Some(b) => operation_request_body(op) matches Some(rb) && openapi_body_of(b, rb),
    }
}

/// `item` is the path item of the operation `o`: its `POST` operation, and
/// nothing else.
pub open spec fn openapi_path_item_of(o: MethodOperation, item: ReferenceOr<PathItem>, success: ReferenceOr<openapiv3::Schema>) -> bool {
    &&& item matches ReferenceOr::Item(pi)
    &&& pi.summary is None
    &&& pi.description is None
    &&& pi.get is None
    &&& pi.put is None
    &&& pi.delete is None
    &&& pi.options is None
    &&& pi.head is None
    &&& pi.patch is None
    &&& pi.trace is None
    &&& pi.servers@.len() == 0
    &&& pi.parameters@.len() == 0
    &&& no_extensions(pi.extensions)
    &&& pi.post matches Some(op)
    &&& openapi_operation_of(o, op, success)
}

/// `api` is `base` with the document `d` written in: the version of `d`;
/// the base's component schemas without `Success`, in place and unchanged
/// unless `d` has a schema of that name, followed by the other schemas of
/// `d` in order, every schema of `d` in OpenAPI form; the paths of `d` in
/// order and nothing else, each the path item of its operation answering
/// with the base's `Success` schema; everything else as in `base`.
pub open spec fn written_of(d: ApiDocument, base: OpenAPI, api: OpenAPI) -> bool {
    let bc = base.components.unwrap();
    let entries = schema_entries(bc.schemas);
    let at = key_position(entries, "Success"@);
    let rest = entries.remove(at);
    let ce = component_entries(d.schemas);
    let pe = path_entries(d.paths);
    &&& api.openapi == base.openapi
    &&& api.info.title == base.info.title
    &&& api.info.description == base.info.description
    &&& api.info.terms_of_service == base.info.terms_of_service
    &&& api.info.contact == base.info.contact
    &&& api.info.license == base.info.license
    &&& api.info.extensions == base.info.extensions
    &&& api.info.version == d.version
    &&& api.servers == base.servers
    &&& api.security == base.security
    &&& api.tags == base.tags
    &&& api.external_docs == base.external_docs
    &&& api.extensions == base.extensions
    &&& api.components matches Some(c)
    &&& c.responses == bc.responses
    &&& c.parameters == bc.parameters
    &&& c.examples == bc.examples
    &&& c.request_bodies == bc.request_bodies
    &&& c.headers == bc.headers
    &&& c.security_schemes == bc.security_schemes
    &&& c.links == bc.links
    &&& c.callbacks == bc.callbacks
    &&& c.extensions == bc.extensions
    &&& entry_keys(schema_entries(c.schemas)) == keys_after(entry_keys(rest), entry_keys(ce))
    &&& forall|i: int|
        #![trigger schema_entries(c.schemas)[i]]
        0 <= i < schema_entries(c.schemas).len() ==> if key_position(ce, schema_entries(c.schemas)[i].0) >= 0 {
            openapi_component_of(ce[key_position(ce, schema_entries(c.schemas)[i].0)].1, schema_entries(c.schemas)[i].1)
        } else {
            i < rest.len() && schema_entries(c.schemas)[i] == rest[i]
        }
    &&& no_extensions(api.paths.extensions)
    &&& openapi_path_entries(api.paths.paths).len() == pe.len()
    &&& forall|i: int|
        #![trigger openapi_path_entries(api.paths.paths)[i]]
        0 <= i < pe.len() ==> openapi_path_entries(api.paths.paths)[i].0 == pe[i].0 && openapi_path_item_of(
            pe[i].1,
            openapi_path_entries(api.paths.paths)[i].1,
            entries[at].1,
        )
}

/// `api` is `base` with the document of `p` written in (see `written_of`);
/// in particular its version is that of `p`, its component names are the
/// base's without `Success` followed by the new distinct object names, and
/// its paths are the distinct method paths.
pub open spec fn merged_of(p: Parsed, base: OpenAPI, api: OpenAPI, simplified: bool) -> bool {
    let entries = schema_entries(base.components.unwrap().schemas);
    let at = key_position(entries, "Success"@);
    &&& api.info.version == p.version
    &&& api.components matches Some(c)
    &&& entry_keys(schema_entries(c.schemas)) == keys_after(
        entry_keys(entries.remove(at)),
        first_keys(object_names(p.objects@)),
    )
    &&& entry_keys(openapi_path_entries(api.paths.paths)) == first_keys(method_paths(p.methods@))
    &&& exists|d: ApiDocument| document_of(p, d, simplified) && written_of(d, base, api)
}

fn json_default_value(d: Option<DefaultValue>) -> (r: Option<serde_json::Value>)
    ensures
        r == json_default(d),
{
    match d {
        Some(DefaultValue::Bool(b)) => Some(json_bool(b)),
        Some(DefaultValue::Integer(i)) => Some(json_integer(i)),
        Some(DefaultValue::String(s)) => Some(json_string(s)),
        None => None,
    }
}

fn schema_data(
    description: Option<String>,
    default: Option<serde_json::Value>,
    external_docs: Option<ExternalDocumentation>,
) -> (r: SchemaData)
    ensures
        !r.nullable && !r.read_only && !r.write_only && !r.deprecated,
        r.example is None && r.title is None && r.discriminator is None,
        r.description == description,
        r.default == default,
        r.external_docs == external_docs,
        no_extensions(r.extensions),
{
    SchemaData {
        nullable: false,
        read_only: false,
        write_only: false,
        deprecated: false,
        external_docs,
        example: None,
        title: None,
        description,
        discriminator: None,
        default,
        extensions: new_json_map(),
    }
}

fn documentation(url: String) -> (r: ExternalDocumentation)
    ensures
        documentation_of(r, url),
{
    ExternalDocumentation { description: None, url, extensions: new_json_map() }
}

/// The OpenAPI form of a schema or reference.
fn openapi_schema_ref(s: SchemaRef) -> (r: ReferenceOr<Box<openapiv3::Schema>>)
    ensures
        openapi_schema_of(s, unboxed(r)),
    decreases s,
{
    match s {
        SchemaRef::Reference { reference } => ReferenceOr::Reference { reference },
        SchemaRef::Item(b) => {
            proof {
                assert(decreases_to!(s => s->Item_0));
            }
            let SchemaItem { description, default, kind } = *b;
            let default = json_default_value(default);
            let kind = openapi_kind(kind);
            ReferenceOr::Item(Box::new(make_schema(schema_data(description, default, None), kind)))
        },
    }
}

/// The OpenAPI form of a schema kind.
fn openapi_kind(k: ValueKind) -> (r: openapiv3::SchemaKind)
    ensures
        openapi_kind_of(k, r),
    decreases k,
{
    match k {
        ValueKind::Integer { minimum, maximum, enumeration } => openapiv3::SchemaKind::Type(
            Type::Integer(IntegerType {
                format: VariantOrUnknownOrEmpty::Empty,
                multiple_of: None,
                exclusive_minimum: false,
                exclusive_maximum: false,
                minimum,
                maximum,
                enumeration,
            }),
        ),
        ValueKind::String { min_length, max_length, enumeration } => openapiv3::SchemaKind::Type(
            Type::String(StringType {
                format: VariantOrUnknownOrEmpty::Empty,
                pattern: None,
                enumeration,
                min_length,
                max_length,
            }),
        ),
        ValueKind::Boolean => openapiv3::SchemaKind::Type(
            Type::Boolean(BooleanType { enumeration: Vec::new() }),
        ),
        ValueKind::Number => openapiv3::SchemaKind::Type(Type::Number(NumberType::default())),
        ValueKind::Array { items } => {
            let items = match items {
                Some(i) => {
                    proof {
                        assert(decreases_to!(k => k->items));
                    }
                    Some(openapi_schema_ref(*i))
                },
                None => None,
            };
            openapiv3::SchemaKind::Type(
                Type::Array(ArrayType { items, min_items: None, max_items: None, unique_items: false }),
            )
        },
        ValueKind::AnyOf { any_of } => {
            let ghost members = any_of@;
            assert(members == k->AnyOf_any_of@);
            let mut converted: Vec<ReferenceOr<openapiv3::Schema>> = Vec::new();
            for member in iter: any_of
                invariant
                    iter.seq() == members,
                    k is AnyOf,
                    members == k->AnyOf_any_of@,
                    converted@.len() == iter.index(),
                    forall|j: int| 0 <= j < converted@.len() ==> openapi_schema_of(members[j], #[trigger] converted@[j]),
            {
                proof {
                    assert(decreases_to!(k => k->AnyOf_any_of));
                    assert(decreases_to!(k->AnyOf_any_of => k->AnyOf_any_of[iter.index() as int]));
                }
                let r = openapi_schema_ref(member);
                let unboxed_r = match r {
                    ReferenceOr::Reference { reference } => ReferenceOr::Reference { reference },
                    ReferenceOr::Item(b) => ReferenceOr::Item(*b),
                };
                converted.push(unboxed_r);
            }
            openapiv3::SchemaKind::AnyOf { any_of: converted }
        },
        ValueKind::Any => openapiv3::SchemaKind::Any(AnySchema::default()),
    }
}

/// The OpenAPI form of an object with these properties and required names.
fn openapi_object_kind(properties: IndexMap<String, SchemaRef>, required: Vec<String>) -> (r: openapiv3::SchemaKind)
    ensures
        openapi_object_of(properties, required, r),
{
    let ghost pe = property_entries(properties);
    let list = property_list(properties);
    let ghost items = list@;
    let mut converted = new_openapi_property_map();
    for pair in iter: list
        invariant
            iter.seq() == items,
            items.len() == pe.len(),
            forall|j: int| 0 <= j < items.len() ==> (#[trigger] items[j]).0@ == pe[j].0 && items[j].1 == pe[j].1,
            forall|i: int, j: int| 0 <= i < j < items.len() ==> items[i].0@ != items[j].0@,
            openapi_property_entries(converted).len() == iter.index(),
            forall|j: int|
                0 <= j < iter.index() ==> (#[trigger] openapi_property_entries(converted)[j]).0 == pe[j].0
                    && openapi_schema_of(pe[j].1, unboxed(openapi_property_entries(converted)[j].1)),
    {
        let ghost i = iter.index() as int;
        let ghost before = openapi_property_entries(converted);
        let (name, schema) = pair;
        let ghost key = name@;
        let value = openapi_schema_ref(schema);
        insert_openapi_property(&mut converted, name, value);
        proof {
            lemma_key_position(before, key);
            if key_position(before, key) >= 0 {
                let q = key_position(before, key);
                assert(before[q].0 == pe[q].0);
                assert(items[q].0@ != items[i].0@);
                assert(false);
            }
            assert(openapi_property_entries(converted) == before.push((key, value)));
            assert forall|j: int| 0 <= j < i + 1 implies (#[trigger] openapi_property_entries(converted)[j]).0 == pe[j].0
                && openapi_schema_of(pe[j].1, unboxed(openapi_property_entries(converted)[j].1)) by {
                if j < i {
                    assert(openapi_property_entries(converted)[j] == before[j]);
                }
            }
        }
    }
    openapiv3::SchemaKind::Type(
        Type::Object(ObjectType {
            properties: converted,
            required,
            additional_properties: None,
            min_properties: None,
            max_properties: None,
        }),
    )
}

/// The OpenAPI form of a component schema.
fn openapi_component(c: ComponentSchema) -> (r: ReferenceOr<openapiv3::Schema>)
    ensures
        openapi_component_of(c, r),
{
    let ComponentSchema { description, docs_url, kind } = c;
    let schema_kind = match kind {
        ComponentKind::Object { properties, required } => openapi_object_kind(properties, required),
        ComponentKind::Other(k) => openapi_kind(k),
    };
    let data = schema_data(Some(description), None, Some(documentation(docs_url)));
    ReferenceOr::Item(make_schema(data, schema_kind))
}

fn media(schema: Option<ReferenceOr<openapiv3::Schema>>) -> (m: MediaType)
    ensures
        plain_media(m, schema),
{
    MediaType {
        schema,
        example: None,
        examples: new_example_map(),
        encoding: new_encoding_map(),
        extensions: new_json_map(),
    }
}

/// A response with no description whose only content is JSON with this
/// schema.
fn json_response(schema: ReferenceOr<openapiv3::Schema>) -> (r: Response)
    ensures
        json_response_shape(r),
        first_schema(r) == Some(schema),
{
    let mut content = new_content_map();
    let key = String::from_str("application/json");
    let m = media(Some(schema));
    let ghost mv = m;
    insert_content(&mut content, key, m);
    assert(content_entries(content) =~= seq![(json(), mv)]);
    assert(entry_keys(content_entries(content)) =~= seq![json()]);
    let description = String::new();
    Response {
        description,
        headers: new_header_map(),
        content,
        links: new_link_map(),
        extensions: new_json_map(),
    }
}

/// The success schema of one operation: a copy of the common one, with the
/// result property set when it is an object type given in place.
fn success_for(success: &ReferenceOr<openapiv3::Schema>, result: SchemaRef) -> (r: ReferenceOr<openapiv3::Schema>)
    ensures
        success_with_result(r, *success, result),
{
    match success {
        ReferenceOr::Reference { reference } => ReferenceOr::Reference { reference: reference.clone() },
        ReferenceOr::Item(schema) => {
            let mut copy = clone_schema(schema);
            let key = String::from_str("result");
            let value = openapi_schema_ref(result);
            insert_object_property(&mut copy, key, value);
            ReferenceOr::Item(copy)
        },
    }
}

/// The common responses of an operation whose result is `result`.
fn responses(success: &ReferenceOr<openapiv3::Schema>, result: SchemaRef) -> (r: Responses)
    ensures
        responses_of(r, *success, result),
{
    let error_name = String::from_str("Error");
    let error = json_response(ReferenceOr::Reference { reference: schema_reference(&error_name) });
    let ok = json_response(success_for(success, result));
    let mut map = new_response_map();
    let ghost item = ReferenceOr::Item(ok);
    insert_response(&mut map, StatusCode::Code(200), ReferenceOr::Item(ok));
    assert(response_entries(map) =~= seq![(StatusCode::Code(200), item)]);
    assert(entry_keys(response_entries(map)) =~= seq![StatusCode::Code(200)]);
    Responses { default: Some(ReferenceOr::Item(error)), responses: map, extensions: new_json_map() }
}

/// The request body of the arguments: the object schema of their properties
/// under each content type.
fn openapi_request_body(b: ArgumentsBody) -> (r: ReferenceOr<openapiv3::RequestBody>)
    ensures
        openapi_body_of(b, r),
{
    let ghost gb = b;
    let ghost types = string_views(b.content_types@);
    let ArgumentsBody { content_types, properties, required } = b;
    let kind = openapi_object_kind(properties, required);
    let mut content = new_content_map();
    assert(types.take(0) =~= Seq::<Seq<char>>::empty());
    for content_type in iter: content_types
        invariant
            types == string_views(iter.seq()),
            openapi_object_of(gb.properties, gb.required, kind),
            entry_keys(content_entries(content)) == keys_after(
                Seq::<Seq<char>>::empty(),
                types.take(iter.index() as int),
            ),
            forall|j: int|
                0 <= j < content_entries(content).len() ==> body_media_of(gb, #[trigger] content_entries(content)[j].1),
    {
        let ghost i = iter.index() as int;
        let ghost before = content_entries(content);
        let ghost key = content_type@;
        let schema = make_schema(schema_data(None, None, None), clone_schema_kind(&kind));
        let m = media(Some(ReferenceOr::Item(schema)));
        let ghost mv = m;
        assert(body_media_of(gb, mv));
        insert_content(&mut content, content_type, m);
        proof {
            lemma_keys_of_inserted(before, key, mv);
            lemma_inserted_keeps(before, key, mv, |x: MediaType| body_media_of(gb, x));
            assert(types.take(i + 1).drop_last() =~= types.take(i));
            assert(types.take(i + 1).last() == key);
        }
    }
    assert(types.take(types.len() as int) =~= types);
    ReferenceOr::Item(openapiv3::RequestBody { description: None, content, required: true, extensions: new_json_map() })
}

/// The three content types, and the one, are distinct.
proof fn lemma_content_types()
    ensures
        keys_after(Seq::<Seq<char>>::empty(), seq![form_url_encoded(), form_data(), json()])
            == seq![form_url_encoded(), form_data(), json()],
        keys_after(Seq::<Seq<char>>::empty(), seq![form_data()]) == seq![form_data()],
{
    reveal_strlit("application/x-www-form-urlencoded");
    reveal_strlit("multipart/form-data");
    reveal_strlit("application/json");
    assert(form_url_encoded()[0] != form_data()[0]);
    assert(form_data()[0] != json()[0]);
    assert(form_url_encoded().len() != json().len());
    assert(form_data() != json());
    assert(form_url_encoded() != json());
    assert(form_url_encoded() != form_data());
    lemma_keys_after_distinct(seq![form_url_encoded(), form_data(), json()]);
    lemma_keys_after_distinct(seq![form_data()]);
}

/// The path item of an operation.
fn openapi_path_item(o: MethodOperation, success: &ReferenceOr<openapiv3::Schema>) -> (r: ReferenceOr<PathItem>)
    ensures
        openapi_path_item_of(o, r, *success),
{
    let MethodOperation { description, docs_url, request_body, result } = o;
    let body = match request_body {
        Some(b) => Some(openapi_request_body(b)),
        None => None,
    };
    let op = make_operation(description, documentation(docs_url), body, responses(success, result));
    ReferenceOr::Item(PathItem {
        summary: None,
        description: None,
        get: None,
        put: None,
        post: Some(op),
        delete: None,
        options: None,
        head: None,
        patch: None,
        trace: None,
        servers: Vec::new(),
        parameters: Vec::new(),
        extensions: new_json_map(),
    })
}

/// The OpenAPI document of a parsed reference on top of a base document, in
/// either translation; `None` where the base has no components or no
/// `Success` schema among them.
pub fn generate_openapi_from(parsed: Parsed, base: OpenAPI, simplified: bool) -> (r: Option<OpenAPI>)
    ensures
        r is None <==> (base.components is None || key_position(
            schema_entries(base.components.unwrap().schemas),
            "Success"@,
        ) < 0),
        r matches Some(api) ==> merged_of(parsed, base, api, simplified),
{
    let ghost p = parsed;
    let ghost b = base;
    let OpenAPI { openapi, info, servers, paths: _, components, security, tags, external_docs, extensions } = base;
    let mut components = match components {
        Some(c) => c,
        None => return None,
    };
    let ghost entries = schema_entries(components.schemas);
    let success = match shift_remove_schema(&mut components.schemas, "Success") {
        Some(s) => s,
        None => return None,
    };
    let ghost at = key_position(entries, "Success"@);
    let ghost rest = entries.remove(at);
    proof {
        lemma_key_position(entries, "Success"@);
    }
    assert(distinct_keys(rest)) by {
        assert forall|i: int, j: int| 0 <= i < j < rest.len() implies rest[i].0 != rest[j].0 by {
            let i2 = if i < at { i } else { i + 1 };
            let j2 = if j < at { j } else { j + 1 };
            assert(rest[i] == entries[i2]);
            assert(rest[j] == entries[j2]);
        }
    }
    let doc = generate_document(parsed, simplified);
    let ghost d = doc;
    let ApiDocument { version, schemas, paths } = doc;

    let ghost ce = component_entries(d.schemas);
    let list = component_list(schemas);
    let ghost items = list@;
    let mut generated = new_schema_map();
    for pair in iter: list
        invariant
            iter.seq() == items,
            items.len() == ce.len(),
            forall|j: int| 0 <= j < items.len() ==> (#[trigger] items[j]).0@ == ce[j].0 && items[j].1 == ce[j].1,
            forall|i: int, j: int| 0 <= i < j < items.len() ==> items[i].0@ != items[j].0@,
            schema_entries(generated).len() == iter.index(),
            forall|j: int|
                0 <= j < iter.index() ==> (#[trigger] schema_entries(generated)[j]).0 == ce[j].0
                    && openapi_component_of(ce[j].1, schema_entries(generated)[j].1),
    {
        let ghost i = iter.index() as int;
        let ghost before = schema_entries(generated);
        let (name, c) = pair;
        let ghost key = name@;
        let value = openapi_component(c);
        insert_schema(&mut generated, name, value);
        proof {
            lemma_key_position(before, key);
            if key_position(before, key) >= 0 {
                let q = key_position(before, key);
                assert(before[q].0 == ce[q].0);
                assert(items[q].0@ != items[i].0@);
                assert(false);
            }
            assert(schema_entries(generated) == before.push((key, value)));
            assert forall|j: int| 0 <= j < i + 1 implies (#[trigger] schema_entries(generated)[j]).0 == ce[j].0
                && openapi_component_of(ce[j].1, schema_entries(generated)[j].1) by {
                if j < i {
                    assert(schema_entries(generated)[j] == before[j]);
                }
            }
        }
    }
    let ghost g = schema_entries(generated);
    assert(entry_keys(g) =~= entry_keys(ce));
    assert(distinct_keys(g)) by {
        assert forall|i: int, j: int| 0 <= i < j < g.len() implies g[i].0 != g[j].0 by {
            assert(items[i].0@ != items[j].0@);
        }
    }
    extend_schemas(&mut components.schemas, generated);
    proof {
        let f = schema_entries(components.schemas);
        lemma_keys_of_inserted_all(rest, g);
        lemma_inserted_all_lookup(rest, g);
        assert forall|i: int| #![trigger f[i]] 0 <= i < f.len() implies if key_position(ce, f[i].0) >= 0 {
            openapi_component_of(ce[key_position(ce, f[i].0)].1, f[i].1)
        } else {
            i < rest.len() && f[i] == rest[i]
        } by {
            lemma_key_index(g, f[i].0);
            lemma_key_index(ce, f[i].0);
            if key_position(ce, f[i].0) >= 0 {
                lemma_key_position(ce, f[i].0);
            }
        }
        // the component names of the document
        lemma_first_keys(object_names(p.objects@));
        assert(entry_keys(ce) =~= first_keys(object_names(p.objects@)));
    }

    let ghost pe = path_entries(d.paths);
    let olist = operation_list(paths);
    let ghost oitems = olist@;
    let mut openapi_paths = new_openapi_path_map();
    for pair in iter: olist
        invariant
            iter.seq() == oitems,
            oitems.len() == pe.len(),
            forall|j: int| 0 <= j < oitems.len() ==> (#[trigger] oitems[j]).0@ == pe[j].0 && oitems[j].1 == pe[j].1,
            forall|i: int, j: int| 0 <= i < j < oitems.len() ==> oitems[i].0@ != oitems[j].0@,
            openapi_path_entries(openapi_paths).len() == iter.index(),
            forall|j: int|
                0 <= j < iter.index() ==> (#[trigger] openapi_path_entries(openapi_paths)[j]).0 == pe[j].0
                    && openapi_path_item_of(pe[j].1, openapi_path_entries(openapi_paths)[j].1, success),
    {
        let ghost i = iter.index() as int;
        let ghost before = openapi_path_entries(openapi_paths);
        let (path, o) = pair;
        let ghost key = path@;
        let item = openapi_path_item(o, &success);
        insert_openapi_path(&mut openapi_paths, path, item);
        proof {
            lemma_key_position(before, key);
            if key_position(before, key) >= 0 {
                let q = key_position(before, key);
                assert(before[q].0 == pe[q].0);
                assert(oitems[q].0@ != oitems[i].0@);
                assert(false);
            }
            assert(openapi_path_entries(openapi_paths) == before.push((key, item)));
            assert forall|j: int| 0 <= j < i + 1 implies (#[trigger] openapi_path_entries(openapi_paths)[j]).0 == pe[j].0
                && openapi_path_item_of(pe[j].1, openapi_path_entries(openapi_paths)[j].1, success) by {
                if j < i {
                    assert(openapi_path_entries(openapi_paths)[j] == before[j]);
                }
            }
        }
    }
    proof {
        lemma_first_keys(method_paths(p.methods@));
        assert(entry_keys(openapi_path_entries(openapi_paths)) =~= entry_keys(pe));
        assert(entry_keys(pe) =~= first_keys(method_paths(p.methods@)));
    }
    let mut info = info;
    info.version = version;
    let api = OpenAPI {
        openapi,
        info,
        servers,
        paths: Paths { paths: openapi_paths, extensions: new_json_map() },
        components: Some(components),
        security,
        tags,
        external_docs,
        extensions,
    };
    assert(written_of(d, b, api));
    Some(api)
}

/// `base` is a document that the text parses as: it has the text's outline.
pub open spec fn base_read_from(yaml: Seq<char>, base: OpenAPI) -> bool {
    base_outline(yaml) == Some(outline_of(base))
}

/// The OpenAPI document of a parsed reference on top of the base document
/// that `base_yaml` holds, in either translation. `None` where the text does
/// not parse as an OpenAPI document, or the document has no components or no
/// `Success` schema among them. Otherwise the result has the text's outline
/// (OpenAPI version, `info` texts, servers, tags) with the reference's
/// version and the new schema names, and is written onto a document with the
/// text's outline; what lies outside the outline is stated of that document
/// (see `parse_base`), and exactly by `generate_openapi_from`.
pub fn generate_openapi(parsed: Parsed, base_yaml: &str, simplified: bool) -> (r: Option<OpenAPI>)
    ensures
        r is None <==> (!base_parses(base_yaml@) || base_schema_names(base_yaml@) is None || key_index(
            base_schema_names(base_yaml@).unwrap(),
            "Success"@,
        ) < 0),
        r matches Some(api) ==> {
            let names = base_schema_names(base_yaml@).unwrap();
            let o = base_outline(base_yaml@).unwrap();
            &&& outline_of(api) == (
                o.0,
                (o.1.0, o.1.1, o.1.2, parsed.version@),
                o.2,
                o.3,
                Some(keys_after(names.remove(key_index(names, "Success"@)), first_keys(object_names(parsed.objects@)))),
            )
            &&& api.info.version == parsed.version
            &&& api.components matches Some(c)
            &&& entry_keys(schema_entries(c.schemas)) == keys_after(
                names.remove(key_index(names, "Success"@)),
                first_keys(object_names(parsed.objects@)),
            )
            &&& entry_keys(openapi_path_entries(api.paths.paths)) == first_keys(method_paths(parsed.methods@))
            &&& exists|base: OpenAPI| base_read_from(base_yaml@, base) && merged_of(parsed, base, api, simplified)
        },
{
    let ghost p = parsed;
    match parse_base(base_yaml) {
        None => None,
        Some(base) => {
            let ghost b = base;
            let r = generate_openapi_from(parsed, base, simplified);
            let ghost rg = r;
            proof {
                if let Some(c) = b.components {
                    let entries = schema_entries(c.schemas);
                    lemma_key_index(entries, "Success"@);
                    lemma_key_position(entries, "Success"@);
                    if let Some(api) = rg {
                        let at = key_position(entries, "Success"@);
                        assert(entry_keys(entries.remove(at)) =~= entry_keys(entries).remove(at));
                        assert(base_read_from(base_yaml@, b));
                    }
                }
            }
            r
        },
    }
}

/// In the written document, a method without arguments has no request body;
/// one whose arguments may carry files is offered as multipart form data
/// only; any other as a form, as multipart form data and as JSON, in that
/// order.
pub proof fn law_request_content_types(
    m: Method,
    o: MethodOperation,
    item: ReferenceOr<PathItem>,
    success: ReferenceOr<openapiv3::Schema>,
    simplified: bool,
)
    requires
        operation_of(m, o, simplified),
        openapi_path_item_of(o, item, success),
    ensures
        item matches ReferenceOr::Item(pi) && pi.post matches Some(op) && match m.args {
            MethodArgs::No => operation_request_body(op) is None,
            MethodArgs::Yes(_) => operation_request_body(op) matches Some(ReferenceOr::Item(rb))
                && entry_keys(content_entries(rb.content)) == seq![form_url_encoded(), form_data(), json()],
            MethodArgs::WithMultipart(_) => operation_request_body(op) matches Some(ReferenceOr::Item(rb))
                && entry_keys(content_entries(rb.content)) == seq![form_data()],
        },
{
    lemma_content_types();
}

/// On a reference with no union type and no union object, the full and the
/// simplified OpenAPI document describe the same documents.
pub proof fn law_openapi_translations_agree_without_unions(p: Parsed, base: OpenAPI, api: OpenAPI)
    requires
        crate::laws::parsed_union_free(p),
    ensures
        merged_of(p, base, api, false) == merged_of(p, base, api, true),
{
    assert forall|d: ApiDocument| document_of(p, d, false) == document_of(p, d, true) by {
        crate::laws::law_translations_agree_without_unions(p, d);
    }
}


/// What a schema or reference given in place holds.
spec fn item_of<T>(r: ReferenceOr<T>) -> T {
    match r {
        ReferenceOr::Item(x) => x,
        ReferenceOr::Reference { .. } => arbitrary(),
    }
}

/// The object type that `openapi_object_of` describes has the model's
/// property names and required names.
proof fn lemma_object_names(properties: IndexMap<String, SchemaRef>, required: Vec<String>, o: openapiv3::SchemaKind)
    requires
        openapi_object_of(properties, required, o),
    ensures
        o matches openapiv3::SchemaKind::Type(Type::Object(t))
            && entry_keys(openapi_property_entries(t.properties)) == entry_keys(property_entries(properties))
            && t.required == required,
{
    if let openapiv3::SchemaKind::Type(Type::Object(t)) = o {
        assert(entry_keys(openapi_property_entries(t.properties)) =~= entry_keys(property_entries(properties)));
    }
}

/// The OpenAPI form of a model kind is never an object type.
proof fn lemma_kind_not_object(k: ValueKind, o: openapiv3::SchemaKind)
    requires
        openapi_kind_of(k, o),
    ensures
        !(o matches openapiv3::SchemaKind::Type(Type::Object(_))),
        (o is AnyOf) ==> (k is AnyOf),
{
}

/// Whether the key occurs among the entries' keys.
proof fn lemma_position_of_key<V>(e: Seq<(Seq<char>, V)>, k: Seq<char>)
    requires
        entry_keys(e).contains(k),
    ensures
        0 <= key_position(e, k) < e.len(),
        e[key_position(e, k)].0 == k,
{
    lemma_key_position(e, k);
    if key_position(e, k) < 0 {
        let j = choose|j: int| 0 <= j < entry_keys(e).len() && entry_keys(e)[j] == k;
        assert(e[j].0 == k);
    }
}

/// In the simplified OpenAPI document, the schemas written from the reference
/// hold no `anyOf` anywhere: the document is written from a document whose
/// component schemas, request bodies and results hold none at any depth, and
/// no component schema of an object is itself an `anyOf`.
pub proof fn law_simplified_openapi_has_no_any_of(p: Parsed, base: OpenAPI, api: OpenAPI)
    requires
        merged_of(p, base, api, true),
    ensures
        exists|d: ApiDocument| crate::laws::document_any_of_free(d) && written_of(d, base, api),
        api.components matches Some(c) && forall|i: int|
            0 <= i < schema_entries(c.schemas).len() && object_names(p.objects@).contains(
                #[trigger] schema_entries(c.schemas)[i].0,
            ) ==> (schema_entries(c.schemas)[i].1 matches ReferenceOr::Item(x) && !(schema_kind_of(x) is AnyOf)),
{
    let d = choose|d: ApiDocument| document_of(p, d, true) && written_of(d, base, api);
    crate::laws::law_simplified_document_has_no_any_of(p, d);
    let c = api.components.unwrap();
    let f = schema_entries(c.schemas);
    let ce = component_entries(d.schemas);
    let names = object_names(p.objects@);
    lemma_first_keys(names);
    assert(entry_keys(ce) =~= first_keys(names));
    assert forall|i: int| 0 <= i < f.len() && names.contains(#[trigger] f[i].0) implies f[i].1 matches ReferenceOr::Item(x)
        && !(schema_kind_of(x) is AnyOf) by {
        let k = f[i].0;
        assert(first_keys(names).contains(k));
        lemma_position_of_key(ce, k);
        let q = key_position(ce, k);
        assert(openapi_component_of(ce[q].1, f[i].1));
        let x = item_of(f[i].1);
        match ce[q].1.kind {
            ComponentKind::Object { properties, required } => {
                lemma_object_names(properties, required, schema_kind_of(x));
            },
            ComponentKind::Other(kind) => {
                assert(crate::laws::kind_any_of_free(kind));
                lemma_kind_not_object(kind, schema_kind_of(x));
            },
        }
    }
}

/// Two schemas have the same shape: the same description, and either both
/// object types with the same property names and required names, or neither
/// an object type.
pub open spec fn same_openapi_schema_shape(a: ReferenceOr<openapiv3::Schema>, b: ReferenceOr<openapiv3::Schema>) -> bool {
    match a {
        ReferenceOr::Reference { .. } => b == a,
        ReferenceOr::Item(x) => b matches ReferenceOr::Item(y) && {
            &&& schema_data_of(x).description == schema_data_of(y).description
            &&& match schema_kind_of(x) {
                openapiv3::SchemaKind::Type(Type::Object(t1)) => schema_kind_of(y) matches openapiv3::SchemaKind::Type(Type::Object(t2))
                    && entry_keys(openapi_property_entries(t1.properties)) == entry_keys(openapi_property_entries(t2.properties))
                    && string_views(t1.required@) == string_views(t2.required@),
                _ => !(schema_kind_of(y) matches openapiv3::SchemaKind::Type(Type::Object(_))),
            }
        },
    }
}

/// Two request bodies have the same shape: the same content types in the
/// same order, the schemas under them of the same shape.
pub open spec fn same_openapi_body_shape(a: ReferenceOr<openapiv3::RequestBody>, b: ReferenceOr<openapiv3::RequestBody>) -> bool {
    &&& a matches ReferenceOr::Item(x)
    &&& b matches ReferenceOr::Item(y)
    &&& entry_keys(content_entries(x.content)) == entry_keys(content_entries(y.content))
    &&& forall|j: int|
        0 <= j < content_entries(x.content).len() ==> ((#[trigger] content_entries(x.content)[j]).1.schema matches Some(sa)
            && content_entries(y.content)[j].1.schema matches Some(sb) && same_openapi_schema_shape(sa, sb))
}

/// The reference that the default response of the responses points to.
pub open spec fn default_reference(r: Responses) -> Option<Seq<char>> {
    match r.default {
        Some(ReferenceOr::Item(d)) => match first_schema(d) {
            Some(ReferenceOr::Reference { reference }) => Some(reference@),
            _ => None,
        },
        _ => None,
    }
}

/// Two path items have the same shape: each a `POST` operation, with the
/// same description, documentation link and default response reference, and
/// request bodies of the same presence and shape.
pub open spec fn same_openapi_path_shape(a: ReferenceOr<PathItem>, b: ReferenceOr<PathItem>) -> bool {
    &&& a matches ReferenceOr::Item(pa)
    &&& b matches ReferenceOr::Item(pb)
    &&& pa.post matches Some(oa)
    &&& pb.post matches Some(ob)
    &&& operation_description(oa) == operation_description(ob)
    &&& operation_external_docs(oa) matches Some(da)
    &&& operation_external_docs(ob) matches Some(db)
    &&& da.url@ == db.url@
    &&& default_reference(operation_responses(oa)) is Some
    &&& default_reference(operation_responses(oa)) == default_reference(operation_responses(ob))
    &&& match operation_request_body(oa) {
        None => operation_request_body(ob) is None,
        Some(ra) => operation_request_body(ob) matches Some(rb) && same_openapi_body_shape(ra, rb),
    }
}

proof fn lemma_same_component_form(c1: ComponentSchema, c2: ComponentSchema, v1: ReferenceOr<openapiv3::Schema>, v2: ReferenceOr<openapiv3::Schema>)
    requires
        c1.description == c2.description,
        crate::laws::same_object_shape(c1.kind, c2.kind),
        openapi_component_of(c1, v1),
        openapi_component_of(c2, v2),
    ensures
        same_openapi_schema_shape(v1, v2),
{
    let x = item_of(v1);
    let y = item_of(v2);
    match c1.kind {
        ComponentKind::Object { properties, required } => {
            let p2 = c2.kind->Object_properties;
            let r2 = c2.kind->Object_required;
            lemma_object_names(properties, required, schema_kind_of(x));
            lemma_object_names(p2, r2, schema_kind_of(y));
        },
        ComponentKind::Other(k) => {
            lemma_kind_not_object(k, schema_kind_of(x));
            lemma_kind_not_object(c2.kind->Other_0, schema_kind_of(y));
        },
    }
}

proof fn lemma_same_item_form(
    o1: MethodOperation,
    o2: MethodOperation,
    i1: ReferenceOr<PathItem>,
    i2: ReferenceOr<PathItem>,
    success: ReferenceOr<openapiv3::Schema>,
)
    requires
        o1.description == o2.description,
        o1.docs_url == o2.docs_url,
        crate::laws::same_body_shape(o1, o2),
        openapi_path_item_of(o1, i1, success),
        openapi_path_item_of(o2, i2, success),
    ensures
        same_openapi_path_shape(i1, i2),
{
    let op1 = item_of(i1).post.unwrap();
    let op2 = item_of(i2).post.unwrap();
    if let Some(b1) = o1.request_body {
        let b2 = o2.request_body.unwrap();
        let r1 = item_of(operation_request_body(op1).unwrap());
        let r2 = item_of(operation_request_body(op2).unwrap());
        let e1 = content_entries(r1.content);
        let e2 = content_entries(r2.content);
        assert(string_views(b1.content_types@) == string_views(b2.content_types@));
        assert forall|j: int| 0 <= j < e1.len() implies (#[trigger] e1[j]).1.schema matches Some(sa)
            && e2[j].1.schema matches Some(sb) && same_openapi_schema_shape(sa, sb) by {
            assert(body_media_of(b1, e1[j].1));
            assert(e2.len() == e1.len()) by {
                assert(entry_keys(e1).len() == e1.len());
                assert(entry_keys(e2).len() == e2.len());
            }
            assert(body_media_of(b2, e2[j].1));
            let x = item_of(e1[j].1.schema.unwrap());
            let y = item_of(e2[j].1.schema.unwrap());
            lemma_object_names(b1.properties, b1.required, schema_kind_of(x));
            lemma_object_names(b2.properties, b2.required, schema_kind_of(y));
        }
    }
}

/// On every reference and base, the full and the simplified OpenAPI document
/// have the same component schema names and paths in the same order; at each
/// place schemas of the same shape (the same description, object types in
/// both or in neither, with the same property names and required names) and
/// path items of the same shape (the same operation description,
/// documentation link and default response reference, request bodies of the
/// same presence, content types and schema shapes); and the same `info`.
pub proof fn law_openapi_translations_share_shape(p: Parsed, base: OpenAPI, full: OpenAPI, simple: OpenAPI)
    requires
        merged_of(p, base, full, false),
        merged_of(p, base, simple, true),
    ensures
        full.info == simple.info,
        full.components matches Some(cf) && simple.components matches Some(cs) && {
            &&& entry_keys(schema_entries(cf.schemas)) == entry_keys(schema_entries(cs.schemas))
            &&& forall|i: int|
                0 <= i < schema_entries(cf.schemas).len() ==> same_openapi_schema_shape(
                    (#[trigger] schema_entries(cf.schemas)[i]).1,
                    schema_entries(cs.schemas)[i].1,
                )
        },
        entry_keys(openapi_path_entries(full.paths.paths)) == entry_keys(openapi_path_entries(simple.paths.paths)),
        forall|i: int|
            0 <= i < openapi_path_entries(full.paths.paths).len() ==> same_openapi_path_shape(
                (#[trigger] openapi_path_entries(full.paths.paths)[i]).1,
                openapi_path_entries(simple.paths.paths)[i].1,
            ),
{
    let d1 = choose|d: ApiDocument| document_of(p, d, false) && written_of(d, base, full);
    let d2 = choose|d: ApiDocument| document_of(p, d, true) && written_of(d, base, simple);
    crate::laws::law_translations_share_shape(p, d1, d2);
    let names = object_names(p.objects@);
    let ce1 = component_entries(d1.schemas);
    let ce2 = component_entries(d2.schemas);
    let cf = full.components.unwrap();
    let cs = simple.components.unwrap();
    let f1 = schema_entries(cf.schemas);
    let f2 = schema_entries(cs.schemas);
    assert(f1.len() == f2.len()) by {
        assert(entry_keys(f1).len() == f1.len());
        assert(entry_keys(f2).len() == f2.len());
    }
    assert forall|i: int| 0 <= i < f1.len() implies same_openapi_schema_shape((#[trigger] f1[i]).1, f2[i].1) by {
        let k = f1[i].0;
        assert(entry_keys(f1)[i] == k);
        assert(f2[i].0 == k) by {
            assert(entry_keys(f2)[i] == f2[i].0);
        }
        lemma_key_index(ce1, k);
        lemma_key_index(ce2, k);
        if key_position(ce1, k) >= 0 {
            let q = key_position(ce1, k);
            lemma_key_position(ce1, k);
            assert(ce1[q].0 == ce2[q].0) by {
                assert(entry_keys(ce1)[q] == entry_keys(ce2)[q]);
            }
            let o = p.objects@[last_index(names, k)];
            assert(component_of(o, ce1[q].1, false));
            assert(component_of(o, ce2[q].1, true));
            lemma_same_component_form(ce1[q].1, ce2[q].1, f1[i].1, f2[i].1);
        } else {
            let x = f1[i].1;
            if let ReferenceOr::Item(s) = x {
                if let openapiv3::SchemaKind::Type(Type::Object(t)) = schema_kind_of(s) {
                    assert(string_views(t.required@) == string_views(t.required@));
                }
            }
        }
    }
    let pe1 = path_entries(d1.paths);
    let pe2 = path_entries(d2.paths);
    let g1 = openapi_path_entries(full.paths.paths);
    let g2 = openapi_path_entries(simple.paths.paths);
    let paths = method_paths(p.methods@);
    let success = schema_entries(base.components.unwrap().schemas)[key_position(
        schema_entries(base.components.unwrap().schemas),
        "Success"@,
    )].1;
    assert forall|i: int| 0 <= i < g1.len() implies same_openapi_path_shape((#[trigger] g1[i]).1, g2[i].1) by {
        assert(pe1[i].0 == pe2[i].0) by {
            assert(entry_keys(pe1)[i] == entry_keys(pe2)[i]);
        }
        let m = p.methods@[last_index(paths, pe1[i].0)];
        assert(operation_of(m, pe1[i].1, false));
        assert(operation_of(m, pe2[i].1, true));
        assert(openapi_path_item_of(pe1[i].1, g1[i].1, success));
        assert(openapi_path_item_of(pe2[i].1, g2[i].1, success));
        lemma_same_item_form(pe1[i].1, pe2[i].1, g1[i].1, g2[i].1, success);
    }
}

} // verus!
