//! Verified core of the ontology studio: naming rules, data types, ontology
//! payload validation and import planning, Turtle ontology checks, folder trees,
//! message models and the sentence-splitting tokenizer.

pub mod text;
pub mod naming;
pub mod data_type;
pub mod ttl;
pub mod error;
pub mod payload;
pub mod store;
pub mod preview;
pub mod changelog;
pub mod import;
pub mod import_steps;
pub mod ttl_import;
pub mod timestamp;
pub mod message;
pub mod folders;
pub mod documents;
pub mod repo;
pub mod tokenizer;
pub mod commands;
pub mod schema;
pub mod readview;
