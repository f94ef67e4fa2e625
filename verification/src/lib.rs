//! Derives an OpenAPI description of a bot API from its parsed reference:
//! one component schema per object, one `POST` path per method.
pub mod parsed;
pub mod schema;
pub mod ordered_map;
pub mod properties;
pub mod document;
pub mod same;
pub mod laws;
pub mod openapi;
pub mod output;
pub mod written;
