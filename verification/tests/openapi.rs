use openapiv3::{OpenAPI, ReferenceOr, SchemaKind, StatusCode, Type};
use tele_api_spec::output::{generate_openapi, generate_openapi_from};
use tele_api_spec::parsed::{Argument, Field, Method, MethodArgs, Object, ObjectData, Parsed, ParserType};

const BASE: &str = "openapi: 3.0.0
info:
  title: Bot API
  version: '0'
paths: {}
components:
  schemas:
    Error:
      type: object
      properties:
        ok:
          type: boolean
        description:
          type: string
    Success:
      type: object
      properties:
        ok:
          type: boolean
      required:
        - ok
        - result
    User:
      type: string
";

fn s(text: &str) -> String {
    text.to_string()
}

fn int_type() -> ParserType {
    ParserType::Integer { default: Some(3), min: Some(1), max: None, one_of: vec![] }
}

fn str_type() -> ParserType {
    ParserType::String { default: None, min_len: Some(1), max_len: Some(64), one_of: vec![s("a")] }
}

fn parsed() -> Parsed {
    Parsed {
        version: s("7.1"),
        objects: vec![
            Object {
                name: s("Chat"),
                description: s("A chat"),
                docs_link: s("https://docs/#chat"),
                data: ObjectData::Fields(vec![
                    Field { name: s("id"), description: s("the id"), required: true, kind: int_type() },
                    Field { name: s("title"), description: s("the title"), required: false, kind: str_type() },
                ]),
            },
            Object {
                name: s("User"),
                description: s("A user"),
                docs_link: s("https://docs/#user"),
                data: ObjectData::Elements(vec![ParserType::Object(s("Chat")), ParserType::Float]),
            },
        ],
        methods: vec![
            Method { name: s("getMe"), description: s("me"), docs_link: s("https://docs/#getme"), args: MethodArgs::No, return_type: ParserType::Object(s("User")) },
            Method {
                name: s("sendMessage"),
                description: s("send"),
                docs_link: s("https://docs/#send"),
                args: MethodArgs::Yes(vec![Argument { name: s("chat_id"), description: s("chat"), required: true, kind: ParserType::Or(vec![int_type(), str_type()]) }]),
                return_type: ParserType::Bool { default: None },
            },
            Method {
                name: s("sendPhoto"),
                description: s("photo"),
                docs_link: s("https://docs/#photo"),
                args: MethodArgs::WithMultipart(vec![Argument { name: s("photo"), description: s("file"), required: true, kind: str_type() }]),
                return_type: ParserType::Bool { default: None },
            },
        ],
    }
}

fn generated(simplified: bool) -> OpenAPI {
    generate_openapi(parsed(), BASE, simplified).expect("base has Success")
}

fn success_properties(api: &OpenAPI, path: &str) -> Vec<String> {
    let item = match &api.paths.paths[path] {
        ReferenceOr::Item(item) => item,
        ReferenceOr::Reference { .. } => panic!("path item is a reference"),
    };
    let op = item.post.as_ref().expect("post");
    let ok = match &op.responses.responses[&StatusCode::Code(200)] {
        ReferenceOr::Item(r) => r,
        ReferenceOr::Reference { .. } => panic!("reference"),
    };
    let schema = ok.content["application/json"].schema.as_ref().expect("schema");
    match schema {
        ReferenceOr::Item(schema) => match &schema.schema_kind {
            SchemaKind::Type(Type::Object(o)) => o.properties.keys().cloned().collect(),
            _ => panic!("not an object"),
        },
        ReferenceOr::Reference { .. } => panic!("reference"),
    }
}

#[test]
fn base_without_success_or_components_gives_nothing() {
    let no_success = "openapi: 3.0.0\ninfo:\n  title: t\n  version: '0'\npaths: {}\ncomponents:\n  schemas:\n    Error:\n      type: object\n";
    assert!(generate_openapi(parsed(), no_success, false).is_none());
    let no_components = "openapi: 3.0.0\ninfo:\n  title: t\n  version: '0'\npaths: {}\n";
    assert!(generate_openapi(parsed(), no_components, false).is_none());
    assert!(generate_openapi(parsed(), "not: [an, openapi", false).is_none());
}

#[test]
fn components_are_base_without_success_then_objects() {
    let api = generated(false);
    let components = api.components.as_ref().expect("components");
    let keys: Vec<&String> = components.schemas.keys().collect();
    assert_eq!(keys, vec!["Error", "User", "Chat"]);
    match &components.schemas["User"] {
        ReferenceOr::Item(schema) => {
            assert_eq!(schema.schema_data.description.as_deref(), Some("A user"));
            assert!(matches!(schema.schema_kind, SchemaKind::AnyOf { .. }));
        },
        ReferenceOr::Reference { .. } => panic!("reference"),
    }
    match &components.schemas["Chat"] {
        ReferenceOr::Item(schema) => match &schema.schema_kind {
            SchemaKind::Type(Type::Object(o)) => {
                assert_eq!(o.required, vec![s("id")]);
                let keys: Vec<&String> = o.properties.keys().collect();
                assert_eq!(keys, vec!["id", "title"]);
                assert_eq!(schema.schema_data.external_docs.as_ref().map(|d| d.url.as_str()), Some("https://docs/#chat"));
            },
            _ => panic!("not an object"),
        },
        ReferenceOr::Reference { .. } => panic!("reference"),
    }
}

#[test]
fn version_and_paths() {
    let api = generated(false);
    assert_eq!(api.info.version, "7.1");
    assert_eq!(api.info.title, "Bot API");
    let paths: Vec<&String> = api.paths.paths.keys().collect();
    assert_eq!(paths, vec!["/getMe", "/sendMessage", "/sendPhoto"]);
}

#[test]
fn responses_are_error_and_success_with_result() {
    let api = generated(false);
    assert_eq!(success_properties(&api, "/getMe"), vec![s("ok"), s("result")]);
    let item = match &api.paths.paths["/getMe"] {
        ReferenceOr::Item(item) => item,
        ReferenceOr::Reference { .. } => panic!("reference"),
    };
    let op = item.post.as_ref().expect("post");
    assert!(op.request_body.is_none());
    assert_eq!(op.description.as_deref(), Some("me"));
    let default = match op.responses.default.as_ref().expect("default") {
        ReferenceOr::Item(r) => r,
        ReferenceOr::Reference { .. } => panic!("reference"),
    };
    match default.content["application/json"].schema.as_ref().expect("schema") {
        ReferenceOr::Reference { reference } => assert_eq!(reference, "#/components/schemas/Error"),
        ReferenceOr::Item(_) => panic!("inline"),
    }
    let codes: Vec<&StatusCode> = op.responses.responses.keys().collect();
    assert_eq!(codes, vec![&StatusCode::Code(200)]);
}

#[test]
fn request_bodies_follow_arguments() {
    let api = generated(false);
    let body_types = |path: &str| -> Vec<String> {
        let item = match &api.paths.paths[path] {
            ReferenceOr::Item(item) => item,
            ReferenceOr::Reference { .. } => panic!("reference"),
        };
        match item.post.as_ref().expect("post").request_body.as_ref().expect("body") {
            ReferenceOr::Item(b) => {
                assert!(b.required);
                b.content.keys().cloned().collect()
            },
            ReferenceOr::Reference { .. } => panic!("reference"),
        }
    };
    assert_eq!(body_types("/sendMessage"), vec![s("application/x-www-form-urlencoded"), s("multipart/form-data"), s("application/json")]);
    assert_eq!(body_types("/sendPhoto"), vec![s("multipart/form-data")]);
}

#[test]
fn simplified_openapi_has_first_members() {
    let api = generated(true);
    let components = api.components.as_ref().expect("components");
    match &components.schemas["User"] {
        ReferenceOr::Item(schema) => assert!(matches!(schema.schema_kind, SchemaKind::Any(_))),
        ReferenceOr::Reference { .. } => panic!("reference"),
    }
    assert_eq!(success_properties(&api, "/sendMessage"), vec![s("ok"), s("result")]);
}

#[test]
fn referenced_success_stays_a_reference() {
    let base = "openapi: 3.0.0
info:
  title: t
  version: '0'
paths: {}
components:
  schemas:
    Success:
      $ref: '#/components/schemas/Reply'
";
    let api = generate_openapi(parsed(), base, false).expect("has Success");
    let item = match &api.paths.paths["/getMe"] {
        ReferenceOr::Item(item) => item,
        ReferenceOr::Reference { .. } => panic!("reference"),
    };
    let op = item.post.as_ref().expect("post");
    let ok = match &op.responses.responses[&StatusCode::Code(200)] {
        ReferenceOr::Item(r) => r,
        ReferenceOr::Reference { .. } => panic!("reference"),
    };
    match ok.content["application/json"].schema.as_ref().expect("schema") {
        ReferenceOr::Reference { reference } => assert_eq!(reference, "#/components/schemas/Reply"),
        ReferenceOr::Item(_) => panic!("inline"),
    }
}

fn item_schema(r: &ReferenceOr<openapiv3::Schema>) -> &openapiv3::Schema {
    match r {
        ReferenceOr::Item(s) => s,
        ReferenceOr::Reference { .. } => panic!("reference"),
    }
}

fn post(api: &OpenAPI, path: &str) -> openapiv3::Operation {
    match &api.paths.paths[path] {
        ReferenceOr::Item(item) => {
            assert!(item.get.is_none() && item.put.is_none() && item.summary.is_none());
            item.post.clone().expect("post")
        },
        ReferenceOr::Reference { .. } => panic!("reference"),
    }
}

#[test]
fn written_values_follow_the_document() {
    let api = generated(false);
    let components = api.components.as_ref().expect("components");
    let base: OpenAPI = serde_yml::from_str(BASE).expect("base parses");
    assert_eq!(components.schemas["Error"], base.components.as_ref().expect("components").schemas["Error"]);
    let chat = item_schema(&components.schemas["Chat"]);
    assert_eq!(chat.schema_data.description.as_deref(), Some("A chat"));
    match &chat.schema_kind {
        SchemaKind::Type(Type::Object(o)) => match &o.properties["id"] {
            ReferenceOr::Item(id) => {
                assert_eq!(id.schema_data.description.as_deref(), Some("the id"));
                assert_eq!(id.schema_data.default, Some(serde_json::Value::from(3)));
                match &id.schema_kind {
                    SchemaKind::Type(Type::Integer(t)) => {
                        assert_eq!(t.minimum, Some(1));
                        assert_eq!(t.maximum, None);
                    },
                    _ => panic!("not an integer"),
                }
            },
            ReferenceOr::Reference { .. } => panic!("reference"),
        },
        _ => panic!("not an object"),
    }
    let me = post(&api, "/getMe");
    assert_eq!(me.description.as_deref(), Some("me"));
    assert_eq!(me.external_docs.as_ref().map(|d| d.url.as_str()), Some("https://docs/#getme"));
    assert!(me.callbacks.is_empty() && me.tags.is_empty() && me.parameters.is_empty() && me.servers.is_empty());
    assert!(me.summary.is_none() && me.operation_id.is_none() && me.security.is_none() && !me.deprecated);
    let ok = match &me.responses.responses[&StatusCode::Code(200)] {
        ReferenceOr::Item(r) => r.clone(),
        ReferenceOr::Reference { .. } => panic!("reference"),
    };
    let success = item_schema(ok.content["application/json"].schema.as_ref().expect("schema"));
    match &success.schema_kind {
        SchemaKind::Type(Type::Object(o)) => {
            assert_eq!(o.required, vec![s("ok"), s("result")]);
            match &o.properties["result"] {
                ReferenceOr::Reference { reference } => assert_eq!(reference, "#/components/schemas/User"),
                ReferenceOr::Item(_) => panic!("inline"),
            }
        },
        _ => panic!("not an object"),
    }
    let send = post(&api, "/sendMessage");
    match send.request_body.expect("body") {
        ReferenceOr::Item(body) => {
            for (_, media) in &body.content {
                match &item_schema(media.schema.as_ref().expect("schema")).schema_kind {
                    SchemaKind::Type(Type::Object(o)) => {
                        assert_eq!(o.required, vec![s("chat_id")]);
                        let keys: Vec<&String> = o.properties.keys().collect();
                        assert_eq!(keys, vec!["chat_id"]);
                    },
                    _ => panic!("not an object"),
                }
            }
        },
        ReferenceOr::Reference { .. } => panic!("reference"),
    }
}

#[test]
fn simplified_openapi_schemas_hold_no_any_of() {
    let full = generated(false);
    let simple = generated(true);
    let full_user = item_schema(&full.components.as_ref().expect("components").schemas["User"]);
    assert!(matches!(full_user.schema_kind, SchemaKind::AnyOf { .. }));
    for name in ["Chat", "User"] {
        let schema = item_schema(&simple.components.as_ref().expect("components").schemas[name]);
        assert!(!matches!(schema.schema_kind, SchemaKind::AnyOf { .. }));
    }
    let send = post(&simple, "/sendMessage");
    match send.request_body.expect("body") {
        ReferenceOr::Item(body) => {
            for (_, media) in &body.content {
                match &item_schema(media.schema.as_ref().expect("schema")).schema_kind {
                    SchemaKind::Type(Type::Object(o)) => match &o.properties["chat_id"] {
                        ReferenceOr::Item(p) => assert!(matches!(p.schema_kind, SchemaKind::Type(Type::Integer(_)))),
                        ReferenceOr::Reference { .. } => panic!("reference"),
                    },
                    _ => panic!("not an object"),
                }
            }
        },
        ReferenceOr::Reference { .. } => panic!("reference"),
    }
}

#[test]
fn openapi_translations_share_shape() {
    let full = generated(false);
    let simple = generated(true);
    let fc = &full.components.as_ref().expect("components").schemas;
    let sc = &simple.components.as_ref().expect("components").schemas;
    let fk: Vec<&String> = fc.keys().collect();
    let sk: Vec<&String> = sc.keys().collect();
    assert_eq!(fk, sk);
    let chat_full = item_schema(&fc["Chat"]);
    let chat_simple = item_schema(&sc["Chat"]);
    assert_eq!(chat_full.schema_data.description, chat_simple.schema_data.description);
    let fp: Vec<&String> = full.paths.paths.keys().collect();
    let sp: Vec<&String> = simple.paths.paths.keys().collect();
    assert_eq!(fp, sp);
    for path in ["/getMe", "/sendMessage", "/sendPhoto"] {
        let a = post(&full, path);
        let b = post(&simple, path);
        assert_eq!(a.description, b.description);
        match (a.request_body, b.request_body) {
            (Some(ReferenceOr::Item(x)), Some(ReferenceOr::Item(y))) => {
                let kx: Vec<&String> = x.content.keys().collect();
                let ky: Vec<&String> = y.content.keys().collect();
                assert_eq!(kx, ky);
            },
            (None, None) => {},
            _ => panic!("request bodies differ at {path}"),
        }
    }
}

#[test]
fn written_onto_a_given_base() {
    let base: OpenAPI = serde_yml::from_str(BASE).expect("base parses");
    let api = generate_openapi_from(parsed(), base.clone(), false).expect("base has Success");
    let bc = base.components.as_ref().expect("components");
    let c = api.components.as_ref().expect("components");
    assert_eq!(c.schemas["Error"], bc.schemas["Error"]);
    assert!(!c.schemas.contains_key("Success"));
    assert_eq!(api.openapi, base.openapi);
    assert_eq!(api.info.title, base.info.title);
    assert_eq!(api.info.version, "7.1");
    assert!(api.paths.extensions.is_empty());
    let base_success = item_schema(&bc.schemas["Success"]);
    let send = post(&api, "/sendMessage");
    let ok = match &send.responses.responses[&StatusCode::Code(200)] {
        ReferenceOr::Item(r) => r.clone(),
        ReferenceOr::Reference { .. } => panic!("reference"),
    };
    let success = item_schema(ok.content["application/json"].schema.as_ref().expect("schema"));
    assert_eq!(success.schema_data, base_success.schema_data);
    match (&success.schema_kind, &base_success.schema_kind) {
        (SchemaKind::Type(Type::Object(o)), SchemaKind::Type(Type::Object(b))) => {
            assert_eq!(o.required, b.required);
            assert_eq!(o.properties["ok"], b.properties["ok"]);
            match &o.properties["result"] {
                ReferenceOr::Item(r) => assert!(matches!(r.schema_kind, SchemaKind::Type(Type::Boolean(_)))),
                ReferenceOr::Reference { .. } => panic!("reference"),
            }
        },
        _ => panic!("not objects"),
    }
    let mut no_components = base.clone();
    no_components.components = None;
    assert!(generate_openapi_from(parsed(), no_components, false).is_none());
}

#[test]
fn base_outline_is_kept() {
    let base = "openapi: 3.0.3
info:
  title: Bot API
  description: All methods
  termsOfService: https://terms
  version: '0'
servers:
  - url: https://api.example/bot{token}
    description: main
tags:
  - name: bots
    description: bot things
paths: {}
components:
  schemas:
    Success:
      type: object
      properties:
        ok:
          type: boolean
";
    let api = generate_openapi(parsed(), base, true).expect("has Success");
    assert_eq!(api.openapi, "3.0.3");
    assert_eq!(api.info.title, "Bot API");
    assert_eq!(api.info.description.as_deref(), Some("All methods"));
    assert_eq!(api.info.terms_of_service.as_deref(), Some("https://terms"));
    assert_eq!(api.info.version, "7.1");
    assert_eq!(api.servers.len(), 1);
    assert_eq!(api.servers[0].url, "https://api.example/bot{token}");
    assert_eq!(api.servers[0].description.as_deref(), Some("main"));
    assert_eq!(api.tags.len(), 1);
    assert_eq!(api.tags[0].name, "bots");
    let keys: Vec<&String> = api.components.as_ref().expect("components").schemas.keys().collect();
    assert_eq!(keys, vec!["Chat", "User"]);
}
