//! A fluent builder for assembling SQL statement text.
//!
//! The builder keeps, per clause, an ordered list of caller-supplied text
//! fragments with append-if-new semantics, plus raw fragments anchored
//! before or after named clauses, and sub-queries attached as CTEs or as
//! set-operator operands.  Terminal calls render the accumulated state in
//! a fixed clause order, either on one line or across several lines with
//! the emitted SQL keywords wrapped in terminal colour codes.
//!
//! Nothing is parsed or validated: fragments are trimmed and otherwise
//! carried verbatim into the rendered statement.

pub mod builder;
pub mod laws;
pub mod model;
pub mod render;
pub mod text;

pub use builder::SelectBuilder;
pub use model::SelectClause;
