//! What the evaluator knows of run-time values: their types, and the functions that it provides
//! itself.
pub mod builtin_laws;
pub mod builtins;
pub mod registry_laws;
pub mod runtime;
pub mod type_laws;
pub mod type_of;
pub mod value;
