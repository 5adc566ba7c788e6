//! From the syntax tree of a checked module to its typed tree.
pub mod bound_laws;
pub mod bounds;
pub mod calls;
pub mod choice_laws;
pub mod coerce;
pub mod construct;
pub mod construct_calls;
pub mod construct_decls;
pub mod construct_laws;
pub mod construct_loops;
pub mod fields;
pub mod instance_laws;
pub mod laws;
pub mod literal_laws;
pub mod literals;
pub mod match_laws;
pub mod parameter_laws;
pub mod pattern;
pub mod place_laws;
pub mod program;
pub mod rules;
pub mod schemes;
pub mod shapes;
pub mod state;
pub mod steps;
pub mod symbolic;
pub mod tree;
pub mod typing_laws;
