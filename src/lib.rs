//! Exposes declared relational tables over HTTP: routes map to table schemas,
//! requests are decoded against the schema, turned into parameterized SQL
//! statements, and result rows are encoded back to JSON.

pub mod text;
pub mod schema;
pub mod routing;
pub mod mapping;
pub mod json_calls;
pub mod query;
pub mod builder;
pub mod response;
pub mod pipeline;
pub mod registry;
