//! The dynamic object and invocation model of an ActionScript-style virtual
//! machine: executables that unify native and bytecode call targets, function
//! objects that double as class constructors, the class-derivation protocol
//! that wires prototype chains, and the property/slot/trait table every
//! object delegates to.

pub mod arena;
pub mod class;
pub mod error;
pub mod function;
pub mod method;
pub mod names;
pub mod globals;
pub mod laws;
pub mod object;
pub mod rng;
pub mod scope;
pub mod value;

