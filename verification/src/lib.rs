//! The front end of the Metel language as a verified library.
pub mod ast;
pub mod coherence;
pub mod coherence_laws;
pub mod conversions;
pub mod elaborate;
pub mod error;
pub mod evaluator;
pub mod grammar_doc;
pub mod grammar_laws;
pub mod grammar_page;
pub mod grammar_source;
pub mod infer;
pub mod lookup;
pub mod lookup_laws;
pub mod module_laws;
pub mod module_loader;
pub mod move_check;
pub mod names;
pub mod native_keys;
pub mod pipeline;
pub mod place;
pub mod registry;
pub mod resolution;
pub mod scheme;
pub mod span;
pub mod stdlib;
pub mod text;
pub mod type_alias;
pub mod typed_ast;
pub mod types;
