//! Models of consumer-driven contracts ("pacts") and the rules for comparing,
//! converting and merging them.

pub mod bodies;
pub mod collections;
pub mod content_types;
pub mod document_laws;
pub mod embedded;
pub mod generator_laws;
pub mod generators;
pub mod header_laws;
pub mod headers;
pub mod http_part;
pub mod interactions;
pub mod json;
pub mod matchingrules;
pub mod merge;
pub mod merge_laws;
pub mod message;
pub mod models;
pub mod pacts;
pub mod path_exp;
pub mod provider_states;
pub mod query;
pub mod rule_laws;
pub mod text;
pub mod v4;
pub mod v4_parts;
