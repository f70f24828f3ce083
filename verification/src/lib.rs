//! A verified document pipeline for context documents: structural schema
//! validation, a streaming markup reader that builds the in-memory model,
//! template-variable substitution, extraction of a node/edge graph and
//! click-style cross-references from embedded flowchart markup, and
//! deterministic serialization back to markup text.  Every function's
//! behaviour is stated against specification functions over character
//! sequences; reading and writing files stays with the caller.

pub mod errors;
pub mod mermaid_parser;
pub mod models;
pub mod pipeline;
pub mod round_trip;
pub mod schema_validator;
pub mod text;
pub mod variable_resolver;
pub mod xml_events;
pub mod xml_parser;
pub mod xml_serializer;
pub mod xml_tree;
