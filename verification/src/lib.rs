//! Resolution of qualified names to stable object identities across a set of
//! schema-definition files.
//!
//! Files may come in any order: an object may be referenced before it is
//! defined. A reference to an unknown name makes a placeholder, which a
//! later definition must agree with. The engine keeps, for every file, what
//! the file created and what it was first to reference.
//!
//! The crate is organised leaves first:
//!
//! * [`objects`] holds the data model: qualified names, the entity catalog
//!   and the objects stored in the arena.
//! * [`order`] orders qualified names.
//! * [`ast`] holds the statement shapes that a syntax front end hands over.
//! * [`model`] is the mathematical model of the engine: the requests a
//!   statement makes and what each request does to the arena.
//! * [`invariants`] proves what each request keeps, and [`laws`] states what
//!   therefore holds of every run.
//! * [`parser`] is the engine itself: the arena, the placeholder protocol,
//!   the conflict rules and the per-file bookkeeping.
//! * [`statements`] walks the statements, turning each into requests on the
//!   engine.
pub mod ast;
pub mod invariants;
pub mod laws;
pub mod model;
pub mod objects;
pub mod order;
pub mod parser;
pub mod statements;
