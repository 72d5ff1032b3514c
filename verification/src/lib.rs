//! Driver core for a borrow-check analysis over an external incremental
//! Datalog evaluator: interning of identifiers, the typed fact model, the
//! relation dispatcher that turns parsed statements into rows, the
//! transactional evaluation orchestrator, and the result decoder.

pub mod decode;
pub mod dispatch;
pub mod facts;
pub mod orchestrate;
pub mod symbols;
