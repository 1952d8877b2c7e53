//! Verified core of the personal AI workbench: card validation, request
//! routing and query handling, SQL statement assembly and text extraction.
pub mod text;
pub mod card;
pub mod query;
pub mod routes;
pub mod import;
pub mod digest;
pub mod json;
pub mod update;
pub mod sql;
pub mod workspace;
pub mod migrate;
