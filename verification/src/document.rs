//! The document: one component schema per object and one operation per
//! method, in the full translation (`generate`) or the simplified one
//! (`generate_simplified`, where a union stands for its first member).
use vstd::prelude::*;
use indexmap::IndexMap;
use crate::parsed::{Argument, Field, Method, MethodArgs, Object, ObjectData, Parsed, ParserType};
use crate::schema::{kind_first_of, schema_first_of, schema_of, ValueKind, SchemaRef};
use crate::properties::{
    argument_content, field_content, properties_and_required, properties_of, schema_in, string_views,
    CommonContent,
};
use crate::ordered_map::{
    component_entries, insert_component, insert_path, lemma_ordered_insert, new_component_map,
    new_path_map, ordered_entries, path_entries,
};

verus! {

/// The kind of a component schema: an object with properties, or a schema
/// kind of a value type.
#[derive(Debug, PartialEq)]
pub enum ComponentKind {
    Object { properties: IndexMap<String, SchemaRef>, required: Vec<String> },
    Other(ValueKind),
}

/// The component schema of an object: its description, the link to its
/// documentation and its kind.
#[derive(Debug, PartialEq)]
pub struct ComponentSchema {
    pub description: String,
    pub docs_url: String,
    pub kind: ComponentKind,
}

/// A required request body: the same object schema under each content type.
#[derive(Debug, PartialEq)]
pub struct ArgumentsBody {
    pub content_types: Vec<String>,
    pub properties: IndexMap<String, SchemaRef>,
    pub required: Vec<String>,
}

/// The `POST` operation of a method: its description, documentation link,
/// request body and the schema of its result. The responses built from the
/// result, and the request body's media types, are written by
/// `output::generate_openapi`.
#[derive(Debug, PartialEq)]
pub struct MethodOperation {
    pub description: String,
    pub docs_url: String,
    pub request_body: Option<ArgumentsBody>,
    pub result: SchemaRef,
}

/// What the generator adds to the base document: the API version, the
/// component schemas by object name and the operations by path.
#[derive(Debug, PartialEq)]
pub struct ApiDocument {
    pub version: String,
    pub schemas: IndexMap<String, ComponentSchema>,
    pub paths: IndexMap<String, MethodOperation>,
}

/// The content type of form requests.
pub open spec fn form_url_encoded() -> Seq<char> {
    "application/x-www-form-urlencoded"@
}

/// The content type of multipart requests.
pub open spec fn form_data() -> Seq<char> {
    "multipart/form-data"@
}

/// The content type of JSON bodies.
pub open spec fn json() -> Seq<char> {
    "application/json"@
}

/// The contents of the fields.
pub open spec fn field_contents(fields: Seq<Field>) -> Seq<CommonContent> {
    fields.map_values(|f: Field| field_content(f))
}

/// The contents of the arguments.
pub open spec fn argument_contents(args: Seq<Argument>) -> Seq<CommonContent> {
    args.map_values(|a: Argument| argument_content(a))
}

/// `k` is the kind that type `t` stands for in the simplified translation,
/// its first members followed through unions; an object reference or an
/// empty union stands for any value.
pub open spec fn first_kind_of(t: ParserType, k: ValueKind) -> bool
    decreases t,
{
    match t {
        ParserType::Object(_) => k is Any,
        ParserType::Or(types) => if types@.len() > 0 {
            first_kind_of(types@[0], k)
        } else {
            k is Any
        },
        _ => kind_first_of(t, k),
    }
}

/// `k` is the kind of a union object with these elements.
pub open spec fn elements_kind_of(elements: Seq<ParserType>, k: ValueKind, simplified: bool) -> bool {
    if simplified {
        if elements.len() == 0 {
            k is Any
        } else {
            first_kind_of(elements[0], k)
        }
    } else {
        &&& k matches ValueKind::AnyOf { any_of }
        &&& k->any_of@.len() == elements.len()
        &&& forall|i: int|
            #![trigger k->any_of@[i]]
            0 <= i < elements.len() ==> schema_of(elements[i], k->any_of@[i])
    }
}

/// `c` is the component schema of object `o`.
pub open spec fn component_of(o: Object, c: ComponentSchema, simplified: bool) -> bool {
    &&& c.description == o.description
    &&& c.docs_url == o.docs_link
    &&& match o.data {
        ObjectData::Fields(fields) => {
            &&& c.kind matches ComponentKind::Object { properties, required }
            &&& properties_of(
                field_contents(fields@),
                c.kind->properties,
                c.kind->required,
                simplified,
            )
        },
        ObjectData::Elements(elements) => {
            &&& c.kind matches ComponentKind::Other(k)
            &&& elements_kind_of(elements@, c.kind->Other_0, simplified)
        },
        ObjectData::Unknown => c.kind == ComponentKind::Other(ValueKind::Any),
    }
}

/// `b` is the request body of arguments sent as `content_types`.
pub open spec fn request_body_of(
    args: Seq<Argument>,
    content_types: Seq<Seq<char>>,
    b: ArgumentsBody,
    simplified: bool,
) -> bool {
    &&& string_views(b.content_types@) == content_types
    &&& properties_of(argument_contents(args), b.properties, b.required, simplified)
}

/// `o` is the operation of method `m`: a method without arguments has no
/// request body; one whose arguments may carry files is sent as multipart
/// form data only; any other as a form, as multipart form data or as JSON.
pub open spec fn operation_of(m: Method, o: MethodOperation, simplified: bool) -> bool {
    &&& o.description == m.description
    &&& o.docs_url == m.docs_link
    &&& schema_in(m.return_type, o.result, simplified)
    &&& match m.args {
        MethodArgs::No => o.request_body is None,
        MethodArgs::Yes(args) => {
            &&& o.request_body matches Some(b)
            &&& request_body_of(
                args@,
                seq![form_url_encoded(), form_data(), json()],
                o.request_body.unwrap(),
                simplified,
            )
        },
        MethodArgs::WithMultipart(args) => {
            &&& o.request_body matches Some(b)
            &&& request_body_of(args@, seq![form_data()], o.request_body.unwrap(), simplified)
        },
    }
}

/// The names of the objects, in order.
pub open spec fn object_names(objects: Seq<Object>) -> Seq<Seq<char>> {
    objects.map_values(|o: Object| o.name@)
}

/// The path of a method.
pub open spec fn path_of(name: Seq<char>) -> Seq<char> {
    "/"@ + name
}

/// The paths of the methods, in order.
pub open spec fn method_paths(methods: Seq<Method>) -> Seq<Seq<char>> {
    methods.map_values(|m: Method| path_of(m.name@))
}

/// `d` is the document of `p`: its version; the component schemas, one per
/// distinct object name in order of first appearance, each that of the last
/// object with the name; the operations, one per distinct path in order of
/// first appearance, each that of the last method with the path.
pub open spec fn document_of(p: Parsed, d: ApiDocument, simplified: bool) -> bool {
    &&& d.version == p.version
    &&& ordered_entries(
        component_entries(d.schemas),
        object_names(p.objects@),
        |j: int, c: ComponentSchema| component_of(p.objects@[j], c, simplified),
    )
    &&& ordered_entries(
        path_entries(d.paths),
        method_paths(p.methods@),
        |j: int, o: MethodOperation| operation_of(p.methods@[j], o, simplified),
    )
}

/// The simplified schema of a type stands for the kind that
/// `first_kind_of` gives: its own kind, or any value for a reference.
pub proof fn lemma_first_kind(t: ParserType, s: SchemaRef)
    requires
        schema_first_of(t, s),
    ensures
        first_kind_of(t, match s {
            SchemaRef::Item(b) => b.kind,
            SchemaRef::Reference { .. } => ValueKind::Any,
        }),
    decreases t,
{
    if let ParserType::Or(types) = t {
        if types@.len() > 0 {
            assert(decreases_to!(t => t->Or_0));
            assert(decreases_to!(types => types@[0]));
            lemma_first_kind(types@[0], s);
        }
    }
}

/// The contents of fields, in order.
fn contents_of_fields(fields: Vec<Field>) -> (r: Vec<CommonContent>)
    ensures
        r@ == field_contents(fields@),
{
    let ghost fs = fields@;
    let mut r: Vec<CommonContent> = Vec::new();
    for f in iter: fields
        invariant
            iter.seq() == fs,
            r@.len() == iter.index(),
            forall|j: int| 0 <= j < r@.len() ==> #[trigger] r@[j] == field_content(fs[j]),
    {
        r.push(CommonContent::from(f));
    }
    assert(r@ =~= field_contents(fs));
    r
}

/// The contents of arguments, in order.
fn contents_of_arguments(args: Vec<Argument>) -> (r: Vec<CommonContent>)
    ensures
        r@ == argument_contents(args@),
{
    let ghost fs = args@;
    let mut r: Vec<CommonContent> = Vec::new();
    for a in iter: args
        invariant
            iter.seq() == fs,
            r@.len() == iter.index(),
            forall|j: int| 0 <= j < r@.len() ==> #[trigger] r@[j] == argument_content(fs[j]),
    {
        r.push(CommonContent::from(a));
    }
    assert(r@ =~= argument_contents(fs));
    r
}

/// The content types that a request body is offered in.
fn content_types(file_uploading: bool) -> (r: Vec<String>)
    ensures
        string_views(r@) == if file_uploading {
            seq![form_data()]
        } else {
            seq![form_url_encoded(), form_data(), json()]
        },
{
    let mut r: Vec<String> = Vec::new();
    if !file_uploading {
        r.push(String::from_str("application/x-www-form-urlencoded"));
    }
    r.push(String::from_str("multipart/form-data"));
    if !file_uploading {
        r.push(String::from_str("application/json"));
    }
    assert(string_views(r@) =~= if file_uploading {
        seq![form_data()]
    } else {
        seq![form_url_encoded(), form_data(), json()]
    });
    r
}

/// The request body of arguments.
fn request_body(args: Vec<Argument>, file_uploading: bool, simplified: bool) -> (b: ArgumentsBody)
    ensures
        request_body_of(
            args@,
            if file_uploading {
                seq![form_data()]
            } else {
                seq![form_url_encoded(), form_data(), json()]
            },
            b,
            simplified,
        ),
{
    let contents = contents_of_arguments(args);
    let (properties, required) = properties_and_required(&contents, simplified);
    ArgumentsBody { content_types: content_types(file_uploading), properties, required }
}

/// The kind of a union object with these elements.
fn elements_kind(elements: Vec<ParserType>, simplified: bool) -> (k: ValueKind)
    ensures
        elements_kind_of(elements@, k, simplified),
{
    if simplified {
        if elements.len() > 0 {
            let s = elements[0].into_schema_first();
            proof {
                lemma_first_kind(elements@[0], s);
            }
            match s {
                SchemaRef::Item(b) => b.kind,
                SchemaRef::Reference { .. } => ValueKind::Any,
            }
        } else {
            ValueKind::Any
        }
    } else {
        let mut any_of: Vec<SchemaRef> = Vec::new();
        let mut i: usize = 0;
        while i < elements.len()
            invariant
                i <= elements@.len(),
                any_of@.len() == i,
                forall|j: int| 0 <= j < i ==> schema_of(elements@[j], #[trigger] any_of@[j]),
            decreases elements@.len() - i,
        {
            any_of.push(elements[i].into_schema());
            i = i + 1;
        }
        ValueKind::AnyOf { any_of }
    }
}

/// The component schema of an object.
fn component_schema(object: Object, simplified: bool) -> (c: ComponentSchema)
    ensures
        component_of(object, c, simplified),
{
    let kind = match object.data {
        ObjectData::Fields(fields) => {
            let contents = contents_of_fields(fields);
            let (properties, required) = properties_and_required(&contents, simplified);
            ComponentKind::Object { properties, required }
        },
        ObjectData::Elements(elements) => ComponentKind::Other(elements_kind(elements, simplified)),
        ObjectData::Unknown => ComponentKind::Other(ValueKind::Any),
    };
    ComponentSchema { description: object.description, docs_url: object.docs_link, kind }
}

/// The operation of a method.
fn operation(method: Method, simplified: bool) -> (o: MethodOperation)
    ensures
        operation_of(method, o, simplified),
{
    let result = if simplified {
        method.return_type.into_schema_first()
    } else {
        method.return_type.into_schema()
    };
    let request_body = match method.args {
        MethodArgs::No => None,
        MethodArgs::Yes(args) => Some(request_body(args, false, simplified)),
        MethodArgs::WithMultipart(args) => Some(request_body(args, true, simplified)),
    };
    MethodOperation { description: method.description, docs_url: method.docs_link, request_body, result }
}

/// The path of the method named `name`.
pub fn path_key(name: &String) -> (r: String)
    ensures
        r@ == path_of(name@),
{
    let mut r = String::from_str("/");
    r.append(name.as_str());
    r
}

/// The document of a parsed reference, in either translation.
pub fn generate_document(parsed: Parsed, simplified: bool) -> (d: ApiDocument)
    ensures
        document_of(parsed, d, simplified),
{
    let ghost p = parsed;
    let ghost component_value = |j: int, c: ComponentSchema| component_of(p.objects@[j], c, simplified);
    let ghost operation_value = |j: int, o: MethodOperation| operation_of(p.methods@[j], o, simplified);
    let Parsed { version, objects, methods } = parsed;
    let mut schemas = new_component_map();
    assert(object_names(p.objects@).take(0) =~= seq![]);
    for object in iter: objects
        invariant
            iter.seq() == p.objects@,
            component_value == (|j: int, c: ComponentSchema| component_of(p.objects@[j], c, simplified)),
            ordered_entries(
                component_entries(schemas),
                object_names(p.objects@).take(iter.index() as int),
                component_value,
            ),
    {
        let ghost i = iter.index() as int;
        let ghost entries = component_entries(schemas);
        let name = object.name.clone();
        let c = component_schema(object, simplified);
        insert_component(&mut schemas, name, c);
        proof {
            let keys = object_names(p.objects@).take(i + 1);
            assert(keys.drop_last() =~= object_names(p.objects@).take(i));
            lemma_ordered_insert(entries, keys, component_value, c);
        }
    }
    assert(object_names(p.objects@).take(p.objects@.len() as int) =~= object_names(p.objects@));
    let mut paths = new_path_map();
    assert(method_paths(p.methods@).take(0) =~= seq![]);
    for method in iter: methods
        invariant
            iter.seq() == p.methods@,
            operation_value == (|j: int, o: MethodOperation| operation_of(p.methods@[j], o, simplified)),
            ordered_entries(
                path_entries(paths),
                method_paths(p.methods@).take(iter.index() as int),
                operation_value,
            ),
    {
        let ghost i = iter.index() as int;
        let ghost entries = path_entries(paths);
        let key = path_key(&method.name);
        let o = operation(method, simplified);
        insert_path(&mut paths, key, o);
        proof {
            let keys = method_paths(p.methods@).take(i + 1);
            assert(keys.drop_last() =~= method_paths(p.methods@).take(i));
            lemma_ordered_insert(entries, keys, operation_value, o);
        }
    }
    assert(method_paths(p.methods@).take(p.methods@.len() as int) =~= method_paths(p.methods@));
    ApiDocument { version, schemas, paths }
}

/// The document of a parsed reference, with every union written as `anyOf`
/// over its members.
pub fn generate(parsed: Parsed) -> (d: ApiDocument)
    ensures
        document_of(parsed, d, false),
{
    generate_document(parsed, false)
}

/// The document of a parsed reference, with every union written as its first
/// member.
pub fn generate_simplified(parsed: Parsed) -> (d: ApiDocument)
    ensures
        document_of(parsed, d, true),
{
    generate_document(parsed, true)
}

} // verus!
