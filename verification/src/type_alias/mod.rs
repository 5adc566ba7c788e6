//! Transparent type aliases.
//!
//! `type Name<G> := T;` gives a type a further name within its module. The name is replaced by
//! the type before anything else looks at the module: the aliases of a module are expanded
//! against one another, every type in the module is rewritten, and the alias declarations are
//! dropped. An alias that would expand for ever is rejected. Aliases inside blocks, and the
//! annotations of the parameters of closures, are left alone.
pub mod binding_laws;
pub mod bodies;
pub mod declaration_laws;
pub mod expansion;
pub mod laws;
pub mod module_laws;
pub mod rewrite;

pub use self::rewrite::expand;
