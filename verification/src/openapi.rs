//! The parts of `openapiv3` and `serde_json` that the library builds or
//! reads. The types whose fields the library writes are declared with their
//! fields; the others are opaque.
use vstd::prelude::*;
use indexmap::IndexMap;
use crate::ordered_map::{entry_keys, inserted, key_position};
use crate::document::{ComponentSchema, MethodOperation};
use crate::schema::SchemaRef;
use crate::same::option_text;
use openapiv3::{
    AdditionalProperties, AnySchema, ArrayType, BooleanType, Components, Contact, Discriminator,
    Encoding, Example, ExternalDocumentation, Header, Info, IntegerFormat, IntegerType, License, Link,
    MediaType, NumberType, ObjectType, OpenAPI, Parameter, PathItem, Paths, ReferenceOr,
    Response, Responses, SchemaData, SecurityScheme, Server, ServerVariable,
    StatusCode, StringFormat, StringType, Tag, Type, VariantOrUnknownOrEmpty,
};

verus! {

#[verifier::external_type_specification]
#[verifier::reject_recursive_types(T)]
pub struct ExReferenceOr<T>(ReferenceOr<T>);

#[verifier::external_type_specification]
pub struct ExStatusCode(StatusCode);

#[verifier::external_type_specification]
pub struct ExExternalDocumentation(ExternalDocumentation);

#[verifier::external_type_specification]
pub struct ExOpenAPI(OpenAPI);

#[verifier::external_type_specification]
pub struct ExInfo(Info);

#[verifier::external_type_specification]
pub struct ExPaths(Paths);

#[verifier::external_type_specification]
pub struct ExPathItem(PathItem);

#[verifier::external_type_specification]
pub struct ExComponents(Components);

#[verifier::external_type_specification]
pub struct ExResponses(Responses);

#[verifier::external_type_specification]
pub struct ExResponse(Response);

#[verifier::external_type_specification]
pub struct ExMediaType(MediaType);

#[verifier::external_type_specification]
pub struct ExRequestBody(openapiv3::RequestBody);

#[verifier::external_type_specification]
pub struct ExSchemaData(SchemaData);

#[verifier::external_type_specification]
pub struct ExSchemaKind(openapiv3::SchemaKind);

#[verifier::external_type_specification]
pub struct ExType(Type);

#[verifier::external_type_specification]
pub struct ExStringType(StringType);

#[verifier::external_type_specification]
pub struct ExIntegerType(IntegerType);

#[verifier::external_type_specification]
pub struct ExObjectType(ObjectType);

#[verifier::external_type_specification]
pub struct ExArrayType(ArrayType);

#[verifier::external_type_specification]
pub struct ExBooleanType(BooleanType);

#[verifier::external_type_specification]
#[verifier::reject_recursive_types(T)]
pub struct ExVariantOrUnknownOrEmpty<T>(VariantOrUnknownOrEmpty<T>);

#[verifier::external_type_specification]
#[verifier::external_body]
pub struct ExSchema(openapiv3::Schema);

#[verifier::external_type_specification]
#[verifier::external_body]
pub struct ExOperation(openapiv3::Operation);

#[verifier::external_type_specification]
pub struct ExServer(Server);

#[verifier::external_type_specification]
#[verifier::external_body]
pub struct ExServerVariable(ServerVariable);

#[verifier::external_type_specification]
#[verifier::external_body]
pub struct ExContact(Contact);

#[verifier::external_type_specification]
#[verifier::external_body]
pub struct ExLicense(License);

#[verifier::external_type_specification]
pub struct ExTag(Tag);

#[verifier::external_type_specification]
#[verifier::external_body]
pub struct ExParameter(Parameter);

#[verifier::external_type_specification]
#[verifier::external_body]
pub struct ExExample(Example);

#[verifier::external_type_specification]
#[verifier::external_body]
pub struct ExHeader(Header);

#[verifier::external_type_specification]
#[verifier::external_body]
pub struct ExSecurityScheme(SecurityScheme);

#[verifier::external_type_specification]
#[verifier::external_body]
pub struct ExLink(Link);

#[verifier::external_type_specification]
#[verifier::external_body]
pub struct ExEncoding(Encoding);

#[verifier::external_type_specification]
#[verifier::external_body]
pub struct ExDiscriminator(Discriminator);

#[verifier::external_type_specification]
#[verifier::external_body]
pub struct ExAnySchema(AnySchema);

#[verifier::external_type_specification]
#[verifier::external_body]
pub struct ExNumberType(NumberType);

#[verifier::external_type_specification]
#[verifier::external_body]
pub struct ExAdditionalProperties(AdditionalProperties);

#[verifier::external_type_specification]
#[verifier::external_body]
pub struct ExStringFormat(StringFormat);

#[verifier::external_type_specification]
#[verifier::external_body]
pub struct ExIntegerFormat(IntegerFormat);

#[verifier::external_type_specification]
#[verifier::external_body]
pub struct ExJsonValue(serde_json::Value);

pub assume_specification[ <NumberType as Default>::default ]() -> NumberType;

pub assume_specification[ <AnySchema as Default>::default ]() -> AnySchema;

/// The outline of the OpenAPI document that a YAML text parses as: its
/// OpenAPI version; the title, description, terms of service and version of
/// its `info`; the URL and description of each server, in order; the name and
/// description of each tag, in order; the names of its component schemas in
/// order, or `None` where it has no components. `None` where the text does
/// not parse as an OpenAPI document.
pub uninterp spec fn base_outline(yaml: Seq<char>) -> Option<(Seq<char>, (Seq<char>, Option<Seq<char>>, Option<Seq<char>>, Seq<char>), Seq<(Seq<char>, Option<Seq<char>>)>, Seq<(Seq<char>, Option<Seq<char>>)>, Option<Seq<Seq<char>>>)>;

/// The outline of an OpenAPI document (see `base_outline`).
pub open spec fn outline_of(api: OpenAPI) -> (Seq<char>, (Seq<char>, Option<Seq<char>>, Option<Seq<char>>, Seq<char>), Seq<(Seq<char>, Option<Seq<char>>)>, Seq<(Seq<char>, Option<Seq<char>>)>, Option<Seq<Seq<char>>>) {
    (
        api.openapi@,
        (
            api.info.title@,
            option_text(api.info.description),
            option_text(api.info.terms_of_service),
            api.info.version@,
        ),
        api.servers@.map_values(|s: Server| (s.url@, option_text(s.description))),
        api.tags@.map_values(|t: Tag| (t.name@, option_text(t.description))),
        match api.components {
            Some(c) => Some(entry_keys(schema_entries(c.schemas))),
            None => None,
        },
    )
}

/// Whether the YAML text parses as an OpenAPI document.
pub open spec fn base_parses(yaml: Seq<char>) -> bool {
    base_outline(yaml) is Some
}

/// The names of the component schemas of the document that the YAML text
/// parses as, in order, or `None` where it has no components (or does not
/// parse).
pub open spec fn base_schema_names(yaml: Seq<char>) -> Option<Seq<Seq<char>>> {
    match base_outline(yaml) {
        Some(o) => o.4,
        None => None,
    }
}

/// Calls `serde_yml::from_str` for an `OpenAPI` document. Whether it parses,
/// and the outline of what it parses as, depend on the text alone; the schema
/// names are those of an `IndexMap`, so none occurs twice. The document
/// itself is not named: every `IndexMap` in it carries a hasher that each
/// process seeds, so two parses of one text are not the same value. What the
/// outline leaves out (the contents of the schemas and of the other component
/// maps, contacts, licences, server variables, security requirements,
/// external documentation, extensions) is not tied to the text.
#[verifier::external_body]
pub(crate) fn parse_base(yaml: &str) -> (r: Option<OpenAPI>)
    ensures
        r is Some <==> base_outline(yaml@) is Some,
        r matches Some(api) ==> base_outline(yaml@) == Some(outline_of(api)),
        r matches Some(api) ==> (api.components matches Some(c) ==> forall|i: int, j: int|
            0 <= i < j < schema_entries(c.schemas).len() ==> schema_entries(c.schemas)[i].0
                != schema_entries(c.schemas)[j].0),
{
    serde_yml::from_str(yaml).ok()
}

/// The entries of a map from names to component schemas, in order.
pub uninterp spec fn schema_entries(m: IndexMap<String, ReferenceOr<openapiv3::Schema>>) -> Seq<(Seq<char>, ReferenceOr<openapiv3::Schema>)>;

/// Calls `IndexMap::new`; the new map holds no entries.
#[verifier::external_body]
pub(crate) fn new_schema_map() -> (m: IndexMap<String, ReferenceOr<openapiv3::Schema>>)
    ensures
        schema_entries(m) == Seq::<(Seq<char>, ReferenceOr<openapiv3::Schema>)>::empty(),
{
    IndexMap::new()
}

/// Calls `IndexMap::insert`: an entry with an equal key keeps its place and
/// takes the new value; otherwise the pair goes last.
#[verifier::external_body]
pub(crate) fn insert_schema(
    m: &mut IndexMap<String, ReferenceOr<openapiv3::Schema>>,
    key: String,
    value: ReferenceOr<openapiv3::Schema>,
)
    ensures
        schema_entries(*final(m)) == inserted(schema_entries(*old(m)), key@, value),
{
    m.insert(key, value);
}

/// Calls `IndexMap::shift_remove`: the entry with the key, if any, is taken
/// out, the entries after it keep their order, and its value is returned. A
/// map holds each key once.
#[verifier::external_body]
pub(crate) fn shift_remove_schema(
    m: &mut IndexMap<String, ReferenceOr<openapiv3::Schema>>,
    key: &str,
) -> (r: Option<ReferenceOr<openapiv3::Schema>>)
    ensures
        key_position(schema_entries(*old(m)), key@) >= 0 ==> {
            &&& r == Some(schema_entries(*old(m))[key_position(schema_entries(*old(m)), key@)].1)
            &&& schema_entries(*final(m)) == schema_entries(*old(m)).remove(
                key_position(schema_entries(*old(m)), key@),
            )
        },
        key_position(schema_entries(*old(m)), key@) < 0 ==> r is None && schema_entries(*final(m))
            == schema_entries(*old(m)),
        forall|i: int, j: int|
            0 <= i < j < schema_entries(*old(m)).len() ==> schema_entries(*old(m))[i].0
                != schema_entries(*old(m))[j].0,
{
    m.shift_remove(key)
}

/// Calls `Extend::extend` of `IndexMap`, which its documentation describes as
/// inserting each pair of the other map in order.
#[verifier::external_body]
pub(crate) fn extend_schemas(
    m: &mut IndexMap<String, ReferenceOr<openapiv3::Schema>>,
    other: IndexMap<String, ReferenceOr<openapiv3::Schema>>,
)
    ensures
        schema_entries(*final(m)) == crate::ordered_map::inserted_all(schema_entries(*old(m)), schema_entries(other)),
{
    m.extend(other);
}

/// The entries of a map from paths to path items, in order.
pub uninterp spec fn openapi_path_entries(m: IndexMap<String, ReferenceOr<PathItem>>) -> Seq<(Seq<char>, ReferenceOr<PathItem>)>;

/// Calls `IndexMap::new`; the new map holds no entries.
#[verifier::external_body]
pub(crate) fn new_openapi_path_map() -> (m: IndexMap<String, ReferenceOr<PathItem>>)
    ensures
        openapi_path_entries(m) == Seq::<(Seq<char>, ReferenceOr<PathItem>)>::empty(),
{
    IndexMap::new()
}

/// Calls `IndexMap::insert` (see `insert_schema`).
#[verifier::external_body]
pub(crate) fn insert_openapi_path(m: &mut IndexMap<String, ReferenceOr<PathItem>>, key: String, value: ReferenceOr<PathItem>)
    ensures
        openapi_path_entries(*final(m)) == inserted(openapi_path_entries(*old(m)), key@, value),
{
    m.insert(key, value);
}

/// The entries of a map from content types to media types, in order.
pub uninterp spec fn content_entries(m: IndexMap<String, MediaType>) -> Seq<(Seq<char>, MediaType)>;

/// Calls `IndexMap::new`; the new map holds no entries.
#[verifier::external_body]
pub(crate) fn new_content_map() -> (m: IndexMap<String, MediaType>)
    ensures
        content_entries(m) == Seq::<(Seq<char>, MediaType)>::empty(),
{
    IndexMap::new()
}

/// Calls `IndexMap::insert` (see `insert_schema`).
#[verifier::external_body]
pub(crate) fn insert_content(m: &mut IndexMap<String, MediaType>, key: String, value: MediaType)
    ensures
        content_entries(*final(m)) == inserted(content_entries(*old(m)), key@, value),
{
    m.insert(key, value);
}

/// The entries of a map from status codes to responses, in order.
pub uninterp spec fn response_entries(m: IndexMap<StatusCode, ReferenceOr<Response>>) -> Seq<(StatusCode, ReferenceOr<Response>)>;

/// Calls `IndexMap::new`; the new map holds no entries.
#[verifier::external_body]
pub(crate) fn new_response_map() -> (m: IndexMap<StatusCode, ReferenceOr<Response>>)
    ensures
        response_entries(m) == Seq::<(StatusCode, ReferenceOr<Response>)>::empty(),
{
    IndexMap::new()
}

/// Calls `IndexMap::insert` (see `insert_schema`); status codes are equal
/// when their variants and numbers are.
#[verifier::external_body]
pub(crate) fn insert_response(m: &mut IndexMap<StatusCode, ReferenceOr<Response>>, key: StatusCode, value: ReferenceOr<Response>)
    ensures
        response_entries(*final(m)) == inserted(response_entries(*old(m)), key, value),
{
    m.insert(key, value);
}

/// The entries of a map from property names to schemas of an object type, in
/// order.
pub uninterp spec fn openapi_property_entries(m: IndexMap<String, ReferenceOr<Box<openapiv3::Schema>>>) -> Seq<(Seq<char>, ReferenceOr<Box<openapiv3::Schema>>)>;

/// Calls `IndexMap::new`; the new map holds no entries.
#[verifier::external_body]
pub(crate) fn new_openapi_property_map() -> (m: IndexMap<String, ReferenceOr<Box<openapiv3::Schema>>>)
    ensures
        openapi_property_entries(m) == Seq::<(Seq<char>, ReferenceOr<Box<openapiv3::Schema>>)>::empty(),
{
    IndexMap::new()
}

/// Calls `IndexMap::insert` (see `insert_schema`).
#[verifier::external_body]
pub(crate) fn insert_openapi_property(
    m: &mut IndexMap<String, ReferenceOr<Box<openapiv3::Schema>>>,
    key: String,
    value: ReferenceOr<Box<openapiv3::Schema>>,
)
    ensures
        openapi_property_entries(*final(m)) == inserted(openapi_property_entries(*old(m)), key@, value),
{
    m.insert(key, value);
}

/// The entries of a map from names to headers, in order.
pub uninterp spec fn header_entries(m: IndexMap<String, ReferenceOr<Header>>) -> Seq<(Seq<char>, ReferenceOr<Header>)>;

/// Calls `IndexMap::new`; the new map holds no entries.
#[verifier::external_body]
pub(crate) fn new_header_map() -> (m: IndexMap<String, ReferenceOr<Header>>)
    ensures
        header_entries(m) == Seq::<(Seq<char>, ReferenceOr<Header>)>::empty(),
{
    IndexMap::new()
}

/// The entries of a map from names to links, in order.
pub uninterp spec fn link_entries(m: IndexMap<String, ReferenceOr<Link>>) -> Seq<(Seq<char>, ReferenceOr<Link>)>;

/// Calls `IndexMap::new`; the new map holds no entries.
#[verifier::external_body]
pub(crate) fn new_link_map() -> (m: IndexMap<String, ReferenceOr<Link>>)
    ensures
        link_entries(m) == Seq::<(Seq<char>, ReferenceOr<Link>)>::empty(),
{
    IndexMap::new()
}

/// The entries of a map from names to examples, in order.
pub uninterp spec fn example_entries(m: IndexMap<String, ReferenceOr<Example>>) -> Seq<(Seq<char>, ReferenceOr<Example>)>;

/// Calls `IndexMap::new`; the new map holds no entries.
#[verifier::external_body]
pub(crate) fn new_example_map() -> (m: IndexMap<String, ReferenceOr<Example>>)
    ensures
        example_entries(m) == Seq::<(Seq<char>, ReferenceOr<Example>)>::empty(),
{
    IndexMap::new()
}

/// The entries of a map from property names to encodings, in order.
pub uninterp spec fn encoding_entries(m: IndexMap<String, Encoding>) -> Seq<(Seq<char>, Encoding)>;

/// Calls `IndexMap::new`; the new map holds no entries.
#[verifier::external_body]
pub(crate) fn new_encoding_map() -> (m: IndexMap<String, Encoding>)
    ensures
        encoding_entries(m) == Seq::<(Seq<char>, Encoding)>::empty(),
{
    IndexMap::new()
}

/// The entries of a map from names to JSON values, in order.
pub uninterp spec fn json_map_entries(m: IndexMap<String, serde_json::Value>) -> Seq<(Seq<char>, serde_json::Value)>;

/// Calls `IndexMap::new`; the new map holds no entries.
#[verifier::external_body]
pub(crate) fn new_json_map() -> (m: IndexMap<String, serde_json::Value>)
    ensures
        json_map_entries(m) == Seq::<(Seq<char>, serde_json::Value)>::empty(),
{
    IndexMap::new()
}

/// The responses of an operation.
pub uninterp spec fn operation_responses(op: openapiv3::Operation) -> Responses;

/// The request body of an operation.
pub uninterp spec fn operation_request_body(op: openapiv3::Operation) -> Option<ReferenceOr<openapiv3::RequestBody>>;

/// The description of an operation.
pub uninterp spec fn operation_description(op: openapiv3::Operation) -> Option<String>;

/// The external documentation of an operation.
pub uninterp spec fn operation_external_docs(op: openapiv3::Operation) -> Option<ExternalDocumentation>;

/// The summary of an operation.
pub uninterp spec fn operation_summary(op: openapiv3::Operation) -> Option<String>;

/// The operation id of an operation.
pub uninterp spec fn operation_id(op: openapiv3::Operation) -> Option<String>;

/// The tags of an operation.
pub uninterp spec fn operation_tags(op: openapiv3::Operation) -> Vec<String>;

/// The parameters of an operation.
pub uninterp spec fn operation_parameters(op: openapiv3::Operation) -> Vec<ReferenceOr<Parameter>>;

/// Whether an operation is deprecated.
pub uninterp spec fn operation_deprecated(op: openapiv3::Operation) -> bool;

/// The security requirements of an operation.
pub uninterp spec fn operation_security(op: openapiv3::Operation) -> Option<Vec<IndexMap<String, Vec<String>>>>;

/// The servers of an operation.
pub uninterp spec fn operation_servers(op: openapiv3::Operation) -> Vec<Server>;

/// The extensions of an operation.
pub uninterp spec fn operation_extensions(op: openapiv3::Operation) -> IndexMap<String, serde_json::Value>;

/// The callbacks of an operation.
pub uninterp spec fn operation_callbacks(op: openapiv3::Operation) -> IndexMap<String, IndexMap<String, PathItem>>;

/// The entries of a map from expressions to callbacks, in order.
pub uninterp spec fn callback_entries(m: IndexMap<String, IndexMap<String, PathItem>>) -> Seq<(Seq<char>, IndexMap<String, PathItem>)>;

/// Builds an `Operation` with these fields and the others as `Default`
/// gives them: no summary, id, tags, parameters, callbacks, servers or
/// extensions, not deprecated, no security requirements.
#[verifier::external_body]
pub(crate) fn make_operation(
    description: String,
    external_docs: ExternalDocumentation,
    request_body: Option<ReferenceOr<openapiv3::RequestBody>>,
    responses: Responses,
) -> (r: openapiv3::Operation)
    ensures
        operation_responses(r) == responses,
        operation_request_body(r) == request_body,
        operation_description(r) == Some(description),
        operation_external_docs(r) == Some(external_docs),
        operation_summary(r) is None,
        operation_id(r) is None,
        operation_tags(r)@.len() == 0,
        operation_parameters(r)@.len() == 0,
        !operation_deprecated(r),
        operation_security(r) is None,
        operation_servers(r)@.len() == 0,
        json_map_entries(operation_extensions(r)).len() == 0,
        callback_entries(operation_callbacks(r)).len() == 0,
{
    openapiv3::Operation {
        description: Some(description),
        external_docs: Some(external_docs),
        request_body,
        responses,
        ..openapiv3::Operation::default()
    }
}

/// The data of a schema (`Schema::schema_data`).
pub uninterp spec fn schema_data_of(s: openapiv3::Schema) -> SchemaData;

/// The kind of a schema (`Schema::schema_kind`).
pub uninterp spec fn schema_kind_of(s: openapiv3::Schema) -> openapiv3::SchemaKind;

/// Builds a `Schema` from its two fields.
#[verifier::external_body]
pub(crate) fn make_schema(schema_data: SchemaData, schema_kind: openapiv3::SchemaKind) -> (r: openapiv3::Schema)
    ensures
        schema_data_of(r) == schema_data,
        schema_kind_of(r) == schema_kind,
{
    openapiv3::Schema { schema_data, schema_kind }
}

/// Calls the derived `Clone::clone` of `Schema`, which copies every field.
#[verifier::external_body]
pub(crate) fn clone_schema(s: &openapiv3::Schema) -> (r: openapiv3::Schema)
    ensures
        r == *s,
{
    s.clone()
}

/// Calls the derived `Clone::clone` of `SchemaKind`, which copies every field.
#[verifier::external_body]
pub(crate) fn clone_schema_kind(k: &openapiv3::SchemaKind) -> (r: openapiv3::SchemaKind)
    ensures
        r == *k,
{
    k.clone()
}

/// Calls `IndexMap::insert` on the properties of a schema whose kind is an
/// object type, telling the variants of `SchemaKind` and `Type` apart; the
/// rest of the schema is left as it is, and any other schema too.
#[verifier::external_body]
pub(crate) fn insert_object_property(s: &mut openapiv3::Schema, key: String, value: ReferenceOr<Box<openapiv3::Schema>>)
    ensures
        schema_data_of(*final(s)) == schema_data_of(*old(s)),
        match schema_kind_of(*old(s)) {
            openapiv3::SchemaKind::Type(Type::Object(o)) => {
                &&& schema_kind_of(*final(s)) matches openapiv3::SchemaKind::Type(Type::Object(o2))
                &&& o2.required == o.required
                &&& o2.additional_properties == o.additional_properties
                &&& o2.min_properties == o.min_properties
                &&& o2.max_properties == o.max_properties
                &&& openapi_property_entries(o2.properties) == inserted(
                    openapi_property_entries(o.properties),
                    key@,
                    value,
                )
            },
            _ => *final(s) == *old(s),
        },
{
    if let openapiv3::SchemaKind::Type(Type::Object(object)) = &mut s.schema_kind {
        object.properties.insert(key, value);
    }
}

/// The JSON value `From<bool>` gives.
pub uninterp spec fn json_bool_value(b: bool) -> serde_json::Value;

/// The JSON value `From<i64>` gives.
pub uninterp spec fn json_integer_value(i: i64) -> serde_json::Value;

/// The JSON value `From<String>` gives for a string with this text.
pub uninterp spec fn json_string_value(s: Seq<char>) -> serde_json::Value;

/// Calls `From<bool>` of `serde_json::Value`.
#[verifier::external_body]
pub(crate) fn json_bool(b: bool) -> (r: serde_json::Value)
    ensures
        r == json_bool_value(b),
{
    b.into()
}

/// Calls `From<i64>` of `serde_json::Value`.
#[verifier::external_body]
pub(crate) fn json_integer(i: i64) -> (r: serde_json::Value)
    ensures
        r == json_integer_value(i),
{
    i.into()
}

/// Calls `From<String>` of `serde_json::Value`.
#[verifier::external_body]
pub(crate) fn json_string(s: String) -> (r: serde_json::Value)
    ensures
        r == json_string_value(s@),
{
    s.into()
}

/// Calls `IntoIterator::into_iter` of `IndexMap` and collects the pairs, which
/// come in the map's order; a map holds each key once.
#[verifier::external_body]
pub(crate) fn component_list(m: IndexMap<String, ComponentSchema>) -> (v: Vec<(String, ComponentSchema)>)
    ensures
        v@.len() == crate::ordered_map::component_entries(m).len(),
        forall|i: int| 0 <= i < v@.len() ==> (#[trigger] v@[i]).0@ == crate::ordered_map::component_entries(m)[i].0
            && v@[i].1 == crate::ordered_map::component_entries(m)[i].1,
        forall|i: int, j: int| 0 <= i < j < v@.len() ==> v@[i].0@ != v@[j].0@,
{
    m.into_iter().collect()
}

/// Calls `IntoIterator::into_iter` of `IndexMap` and collects the pairs, which
/// come in the map's order; a map holds each key once.
#[verifier::external_body]
pub(crate) fn operation_list(m: IndexMap<String, MethodOperation>) -> (v: Vec<(String, MethodOperation)>)
    ensures
        v@.len() == crate::ordered_map::path_entries(m).len(),
        forall|i: int| 0 <= i < v@.len() ==> (#[trigger] v@[i]).0@ == crate::ordered_map::path_entries(m)[i].0
            && v@[i].1 == crate::ordered_map::path_entries(m)[i].1,
        forall|i: int, j: int| 0 <= i < j < v@.len() ==> v@[i].0@ != v@[j].0@,
{
    m.into_iter().collect()
}

/// Calls `IntoIterator::into_iter` of `IndexMap` and collects the pairs, which
/// come in the map's order; a map holds each key once.
#[verifier::external_body]
pub(crate) fn property_list(m: IndexMap<String, SchemaRef>) -> (v: Vec<(String, SchemaRef)>)
    ensures
        v@.len() == crate::ordered_map::property_entries(m).len(),
        forall|i: int| 0 <= i < v@.len() ==> (#[trigger] v@[i]).0@ == crate::ordered_map::property_entries(m)[i].0
            && v@[i].1 == crate::ordered_map::property_entries(m)[i].1,
        forall|i: int, j: int| 0 <= i < j < v@.len() ==> v@[i].0@ != v@[j].0@,
{
    m.into_iter().collect()
}

} // verus!
