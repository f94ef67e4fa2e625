# tele_api_spec

Derives an OpenAPI description of a bot API from its parsed reference: one
component schema per object, one `POST` operation per method, merged into a
base document that supplies the `info` block, the common `Error` schema and
the `Success` response schema.

- `src/parsed.rs` — the parsed reference: objects, methods, value types.
- `src/schema.rs` — the schema model and the translation of a value type,
  in full (unions as `anyOf`) and simplified (a union as its first member).
- `src/properties.rs` — the properties and required names of an object
  schema, from fields or arguments.
- `src/ordered_map.rs` — `indexmap::IndexMap` as the library uses it for its
  own model, and the statement "one entry per distinct key, in order of first
  appearance, valued by the last item with that key".
- `src/document.rs` — `generate` and `generate_simplified`, the document model.
- `src/openapi.rs` — the `openapiv3`, `serde_json` and `serde_yml` items the
  library builds, reads or calls.
- `src/output.rs` — `generate_openapi`: the base document read from YAML, its
  `Success` schema taken out and used in every operation's responses, and the
  generated schemas and paths merged in.
- `src/same.rs` — when two model values are the same (equal texts, numbers
  and lists at every depth), and that every translation gives the same value
  for the same input.
- `src/laws.rs` — properties of the two translations and of the documents.
- `app/lib.rs` — `generate` and `generate_simplified` returning the OpenAPI
  document, failing where the base has no `Success` schema.

Everything under `src/` is verified with Verus, except the trusted items it
rests on: the outside type declarations, the `assume_specification` items and
the `#[verifier::external_body]` wrappers in `src/ordered_map.rs` and
`src/openapi.rs`, whose contracts state what the outside crates' sources and
documentation say.
