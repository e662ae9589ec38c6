//! Typed extraction and validation of HTTP request data, with the schema description that
//! goes with it.
//!
//! - `types`: the value codec, between typed values and JSON values or parameter text;
//! - `validation`: the closed set of validators, their checks, messages and schema records;
//! - `registry`: schema descriptions and the table of named schemas;
//! - `object`: objects and multipart forms, decoded field by field with validation;
//! - `param`: parameters read from the query string;
//! - `request`: request bodies with alternatives chosen by content type;
//! - `error`: extraction failures and their rendered messages;
//! - `middleware`: endpoint transformers.

pub mod error;
pub mod json;
pub mod middleware;
pub mod number;
pub mod object;
pub mod param;
pub mod registry;
pub mod request;
pub mod types;
pub mod validation;
