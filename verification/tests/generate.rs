use tele_api_spec::document::{generate, generate_simplified, path_key, ApiDocument, ComponentKind, MethodOperation};
use tele_api_spec::parsed::{Argument, Field, Method, MethodArgs, Object, ObjectData, Parsed, ParserType};
use tele_api_spec::properties::{make_properties_and_required, make_properties_and_required_simplified, CommonContent};
use tele_api_spec::schema::{schema_reference, DefaultValue, PartsRef, SchemaItem, ValueKind, SchemaRef};

fn s(text: &str) -> String {
    text.to_string()
}

fn int_type() -> ParserType {
    ParserType::Integer { default: None, min: None, max: None, one_of: vec![] }
}

fn str_type() -> ParserType {
    ParserType::String { default: None, min_len: None, max_len: None, one_of: vec![] }
}

fn content(name: &str, required: bool, kind: ParserType) -> CommonContent {
    CommonContent { name: s(name), description: format!("about {name}"), required, kind }
}

fn field(name: &str, required: bool, kind: ParserType) -> Field {
    Field { name: s(name), description: format!("about {name}"), required, kind }
}

fn argument(name: &str, required: bool, kind: ParserType) -> Argument {
    Argument { name: s(name), description: format!("about {name}"), required, kind }
}

fn object(name: &str, data: ObjectData) -> Object {
    Object { name: s(name), description: format!("{name} object"), docs_link: format!("https://docs/#{name}"), data }
}

fn method(name: &str, args: MethodArgs, return_type: ParserType) -> Method {
    Method { name: s(name), description: format!("{name} method"), docs_link: format!("https://docs/#{name}"), args, return_type }
}

fn item(default: Option<DefaultValue>, kind: ValueKind) -> SchemaRef {
    SchemaRef::Item(Box::new(SchemaItem { description: None, default, kind }))
}

fn reference(name: &str) -> SchemaRef {
    SchemaRef::Reference { reference: format!("#/components/schemas/{name}") }
}

fn int_kind() -> ValueKind {
    ValueKind::Integer { minimum: None, maximum: None, enumeration: vec![] }
}

fn str_kind() -> ValueKind {
    ValueKind::String { min_length: None, max_length: None, enumeration: vec![] }
}

fn sample() -> Parsed {
    Parsed {
        version: s("7.1"),
        objects: vec![
            object("User", ObjectData::Fields(vec![
                field("id", true, int_type()),
                field("first_name", true, str_type()),
                field("is_bot", false, ParserType::Bool { default: Some(false) }),
            ])),
            object("ChatId", ObjectData::Elements(vec![int_type(), str_type()])),
            object("Opaque", ObjectData::Unknown),
        ],
        methods: vec![
            method("getMe", MethodArgs::No, ParserType::Object(s("User"))),
            method("sendMessage", MethodArgs::Yes(vec![
                argument("chat_id", true, ParserType::Or(vec![int_type(), str_type()])),
                argument("text", true, str_type()),
            ]), ParserType::Bool { default: None }),
            method("sendPhoto", MethodArgs::WithMultipart(vec![argument("photo", true, str_type())]), ParserType::Bool { default: None }),
        ],
    }
}

fn operation<'a>(doc: &'a ApiDocument, path: &str) -> &'a MethodOperation {
    doc.paths.get(path).expect("path is present")
}

#[test]
fn reference_names_the_component() {
    assert_eq!(schema_reference(&s("User")), "#/components/schemas/User");
    assert_eq!(path_key(&s("getMe")), "/getMe");
}

#[test]
fn object_type_becomes_reference() {
    let t = ParserType::Object(s("Message"));
    assert_eq!(t.into_schema(), reference("Message"));
    assert_eq!(t.into_schema_first(), reference("Message"));
    assert_eq!(t.into_ref_or_schema_parts(), PartsRef::Reference { reference: s("#/components/schemas/Message") });
}

#[test]
fn integer_keeps_bounds_default_and_choices() {
    let t = ParserType::Integer { default: Some(5), min: Some(1), max: Some(100), one_of: vec![1, 5, 9] };
    let expected = item(
        Some(DefaultValue::Integer(5)),
        ValueKind::Integer { minimum: Some(1), maximum: Some(100), enumeration: vec![Some(1), Some(5), Some(9)] },
    );
    assert_eq!(t.into_schema(), expected);
    assert_eq!(t.into_schema_first(), expected);
}

#[test]
fn string_keeps_length_bounds_default_and_choices() {
    let t = ParserType::String { default: Some(s("HTML")), min_len: Some(1), max_len: Some(4096), one_of: vec![s("HTML"), s("Markdown")] };
    let expected = item(
        Some(DefaultValue::String(s("HTML"))),
        ValueKind::String { min_length: Some(1), max_length: Some(4096), enumeration: vec![Some(s("HTML")), Some(s("Markdown"))] },
    );
    assert_eq!(t.into_schema(), expected);
}

#[test]
fn bool_and_float_kinds() {
    assert_eq!(ParserType::Bool { default: Some(true) }.into_schema(), item(Some(DefaultValue::Bool(true)), ValueKind::Boolean));
    assert_eq!(ParserType::Float.into_schema(), item(None, ValueKind::Number));
}

#[test]
fn array_items_are_schemas_of_the_element() {
    let t = ParserType::Array(Box::new(ParserType::Object(s("PhotoSize"))));
    assert_eq!(t.into_schema(), item(None, ValueKind::Array { items: Some(Box::new(reference("PhotoSize"))) }));
}

#[test]
fn union_becomes_any_of_in_full_translation() {
    let t = ParserType::Or(vec![int_type(), ParserType::Object(s("InputFile"))]);
    assert_eq!(t.into_schema(), item(None, ValueKind::AnyOf { any_of: vec![item(None, int_kind()), reference("InputFile")] }));
}

#[test]
fn union_becomes_first_member_in_simplified_translation() {
    let t = ParserType::Or(vec![ParserType::Object(s("InputFile")), str_type()]);
    assert_eq!(t.into_schema_first(), reference("InputFile"));
    let nested = ParserType::Array(Box::new(ParserType::Or(vec![ParserType::Or(vec![str_type(), int_type()]), int_type()])));
    assert_eq!(nested.into_schema_first(), item(None, ValueKind::Array { items: Some(Box::new(item(None, str_kind()))) }));
}

#[test]
fn empty_union() {
    let t = ParserType::Or(vec![]);
    assert_eq!(t.into_schema(), item(None, ValueKind::AnyOf { any_of: vec![] }));
    assert_eq!(t.into_schema_first(), item(None, ValueKind::Any));
}

#[test]
fn contents_convert_from_fields_and_arguments() {
    let f = CommonContent::from(field("a", true, int_type()));
    assert_eq!(f, content("a", true, int_type()));
    let a = CommonContent::from(argument("b", false, str_type()));
    assert_eq!(a, content("b", false, str_type()));
}

#[test]
fn properties_keep_order_and_required_names() {
    let (properties, required) = make_properties_and_required(vec![
        content("b", true, int_type()),
        content("a", false, ParserType::Object(s("User"))),
        content("c", true, str_type()),
    ]);
    let keys: Vec<&String> = properties.keys().collect();
    assert_eq!(keys, vec!["b", "a", "c"]);
    assert_eq!(required, vec![s("b"), s("c")]);
    assert_eq!(properties["b"], SchemaRef::Item(Box::new(SchemaItem { description: Some(s("about b")), default: None, kind: int_kind() })));
    assert_eq!(properties["a"], reference("User"));
}

#[test]
fn repeated_property_keeps_first_place_and_last_schema() {
    let (properties, required) = make_properties_and_required(vec![
        content("x", true, int_type()),
        content("y", false, int_type()),
        content("x", true, str_type()),
    ]);
    let keys: Vec<&String> = properties.keys().collect();
    assert_eq!(keys, vec!["x", "y"]);
    assert_eq!(properties.len(), 2);
    assert_eq!(properties["x"], SchemaRef::Item(Box::new(SchemaItem { description: Some(s("about x")), default: None, kind: str_kind() })));
    assert_eq!(required, vec![s("x"), s("x")]);
}

#[test]
fn simplified_properties_take_first_members() {
    let (properties, _) = make_properties_and_required_simplified(vec![
        content("chat_id", true, ParserType::Or(vec![int_type(), str_type()])),
    ]);
    assert_eq!(properties["chat_id"], SchemaRef::Item(Box::new(SchemaItem { description: Some(s("about chat_id")), default: None, kind: int_kind() })));
}

#[test]
fn document_keeps_version_and_object_order() {
    let doc = generate(sample());
    assert_eq!(doc.version, "7.1");
    let names: Vec<&String> = doc.schemas.keys().collect();
    assert_eq!(names, vec!["User", "ChatId", "Opaque"]);
    let user = &doc.schemas["User"];
    assert_eq!(user.description, "User object");
    assert_eq!(user.docs_url, "https://docs/#User");
    match &user.kind {
        ComponentKind::Object { properties, required } => {
            assert_eq!(properties.len(), 3);
            assert_eq!(required, &vec![s("id"), s("first_name")]);
            assert_eq!(properties["is_bot"], SchemaRef::Item(Box::new(SchemaItem {
                description: Some(s("about is_bot")),
                default: Some(DefaultValue::Bool(false)),
                kind: ValueKind::Boolean,
            })));
        },
        other => panic!("unexpected kind {other:?}"),
    }
    assert_eq!(doc.schemas["Opaque"].kind, ComponentKind::Other(ValueKind::Any));
}

#[test]
fn union_object_in_both_translations() {
    let full = generate(sample());
    assert_eq!(full.schemas["ChatId"].kind, ComponentKind::Other(ValueKind::AnyOf { any_of: vec![item(None, int_kind()), item(None, str_kind())] }));
    let simple = generate_simplified(sample());
    assert_eq!(simple.schemas["ChatId"].kind, ComponentKind::Other(int_kind()));
}

#[test]
fn simplified_union_object_of_reference_or_nothing_is_any() {
    let parsed = Parsed {
        version: s("1"),
        objects: vec![
            object("A", ObjectData::Elements(vec![ParserType::Object(s("B")), int_type()])),
            object("E", ObjectData::Elements(vec![])),
        ],
        methods: vec![],
    };
    let doc = generate_simplified(parsed);
    assert_eq!(doc.schemas["A"].kind, ComponentKind::Other(ValueKind::Any));
    assert_eq!(doc.schemas["E"].kind, ComponentKind::Other(ValueKind::Any));
}

#[test]
fn methods_become_post_paths() {
    let doc = generate(sample());
    let paths: Vec<&String> = doc.paths.keys().collect();
    assert_eq!(paths, vec!["/getMe", "/sendMessage", "/sendPhoto"]);
    let get_me = operation(&doc, "/getMe");
    assert_eq!(get_me.description, "getMe method");
    assert_eq!(get_me.docs_url, "https://docs/#getMe");
    assert!(get_me.request_body.is_none());
    assert_eq!(get_me.result, reference("User"));
}

#[test]
fn content_types_depend_on_file_uploads() {
    let doc = generate(sample());
    let send = operation(&doc, "/sendMessage").request_body.as_ref().expect("has a body");
    assert_eq!(send.content_types, vec![s("application/x-www-form-urlencoded"), s("multipart/form-data"), s("application/json")]);
    assert_eq!(send.required, vec![s("chat_id"), s("text")]);
    assert_eq!(send.properties["chat_id"], SchemaRef::Item(Box::new(SchemaItem {
        description: Some(s("about chat_id")),
        default: None,
        kind: ValueKind::AnyOf { any_of: vec![item(None, int_kind()), item(None, str_kind())] },
    })));
    let photo = operation(&doc, "/sendPhoto").request_body.as_ref().expect("has a body");
    assert_eq!(photo.content_types, vec![s("multipart/form-data")]);
}

#[test]
fn empty_argument_list_still_has_a_body() {
    let parsed = Parsed { version: s("1"), objects: vec![], methods: vec![method("close", MethodArgs::Yes(vec![]), ParserType::Bool { default: None })] };
    let doc = generate(parsed);
    let body = operation(&doc, "/close").request_body.as_ref().expect("has a body");
    assert!(body.properties.is_empty());
    assert!(body.required.is_empty());
}

#[test]
fn repeated_method_keeps_first_place_and_last_operation() {
    let parsed = Parsed {
        version: s("1"),
        objects: vec![object("A", ObjectData::Unknown), object("B", ObjectData::Unknown), object("A", ObjectData::Fields(vec![]))],
        methods: vec![
            method("m", MethodArgs::No, int_type()),
            method("n", MethodArgs::No, int_type()),
            method("m", MethodArgs::No, str_type()),
        ],
    };
    let doc = generate(parsed);
    let names: Vec<&String> = doc.schemas.keys().collect();
    assert_eq!(names, vec!["A", "B"]);
    assert!(matches!(doc.schemas["A"].kind, ComponentKind::Object { .. }));
    let paths: Vec<&String> = doc.paths.keys().collect();
    assert_eq!(paths, vec!["/m", "/n"]);
    assert_eq!(operation(&doc, "/m").result, item(None, str_kind()));
}

#[test]
fn simplified_document_has_no_any_of() {
    let doc = generate_simplified(sample());
    let send = operation(&doc, "/sendMessage").request_body.as_ref().expect("has a body");
    assert_eq!(send.properties["chat_id"], SchemaRef::Item(Box::new(SchemaItem { description: Some(s("about chat_id")), default: None, kind: int_kind() })));
    for (_, component) in &doc.schemas {
        if let ComponentKind::Other(kind) = &component.kind {
            assert!(!matches!(kind, ValueKind::AnyOf { .. }));
        }
    }
}

#[test]
fn translations_agree_without_unions() {
    let parsed = || Parsed {
        version: s("2"),
        objects: vec![object("User", ObjectData::Fields(vec![field("id", true, int_type()), field("tags", false, ParserType::Array(Box::new(str_type())))]))],
        methods: vec![method("getUser", MethodArgs::Yes(vec![argument("id", true, int_type())]), ParserType::Object(s("User")))],
    };
    assert_eq!(generate(parsed()), generate_simplified(parsed()));
}

#[test]
fn joined_contents_join_properties() {
    let xs = || vec![content("a", true, int_type()), content("b", false, str_type())];
    let ys = || vec![content("c", true, str_type()), content("d", true, int_type())];
    let (p1, r1) = make_properties_and_required(xs());
    let (p2, r2) = make_properties_and_required(ys());
    let mut joined = xs();
    joined.extend(ys());
    let (p, r) = make_properties_and_required(joined);
    let mut required = r1.clone();
    required.extend(r2.clone());
    assert_eq!(r, required);
    let keys: Vec<&String> = p.keys().collect();
    let mut expected: Vec<&String> = p1.keys().collect();
    expected.extend(p2.keys());
    assert_eq!(keys, expected);
    assert_eq!(p["a"], p1["a"]);
    assert_eq!(p["d"], p2["d"]);
}

#[test]
fn translations_share_shape() {
    let full = generate(sample());
    let simple = generate_simplified(sample());
    let full_names: Vec<&String> = full.schemas.keys().collect();
    let simple_names: Vec<&String> = simple.schemas.keys().collect();
    assert_eq!(full_names, simple_names);
    let full_paths: Vec<&String> = full.paths.keys().collect();
    let simple_paths: Vec<&String> = simple.paths.keys().collect();
    assert_eq!(full_paths, simple_paths);
    for (path, op) in &full.paths {
        let other = &simple.paths[path];
        match (&op.request_body, &other.request_body) {
            (Some(a), Some(b)) => {
                assert_eq!(a.content_types, b.content_types);
                assert_eq!(a.required, b.required);
                let ka: Vec<&String> = a.properties.keys().collect();
                let kb: Vec<&String> = b.properties.keys().collect();
                assert_eq!(ka, kb);
            },
            (None, None) => {},
            _ => panic!("request bodies differ at {path}"),
        }
    }
}

#[test]
fn same_reference_gives_the_same_document() {
    let first = generate(sample());
    let second = generate(sample());
    assert_eq!(first, second);
    let a: Vec<&String> = first.schemas.keys().collect();
    let b: Vec<&String> = second.schemas.keys().collect();
    assert_eq!(a, b);
    assert_eq!(generate_simplified(sample()), generate_simplified(sample()));
}

#[test]
fn union_free_type_has_one_schema() {
    let t = ParserType::Array(Box::new(ParserType::Integer { default: Some(2), min: Some(0), max: Some(9), one_of: vec![1, 2] }));
    assert_eq!(t.into_schema(), t.into_schema_first());
    let expected = item(None, ValueKind::Array { items: Some(Box::new(item(
        Some(DefaultValue::Integer(2)),
        ValueKind::Integer { minimum: Some(0), maximum: Some(9), enumeration: vec![Some(1), Some(2)] },
    ))) });
    assert_eq!(t.into_schema(), expected);
}

#[test]
fn union_free_contents_have_one_set_of_properties() {
    let contents = || vec![content("a", true, int_type()), content("b", false, ParserType::Array(Box::new(str_type())))];
    let (p1, r1) = make_properties_and_required(contents());
    let (p2, r2) = make_properties_and_required_simplified(contents());
    assert_eq!(r1, r2);
    let k1: Vec<&String> = p1.keys().collect();
    let k2: Vec<&String> = p2.keys().collect();
    assert_eq!(k1, k2);
    assert_eq!(p1["b"], p2["b"]);
}
