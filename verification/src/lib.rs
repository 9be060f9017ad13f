//! A declarative form-interpretation engine.
//!
//! A form specification describes questions, conditional visibility,
//! constraints and secret-bearing store operations; the engine evaluates
//! expressions over an answer context, resolves which questions are shown,
//! navigates to the next unanswered question, validates answers, and applies
//! policy-gated store operations.  Every entry point is a pure function of a
//! complete spec / context / answer snapshot.

pub mod builder;
pub mod component;
pub mod expr;
pub mod form;
pub mod json;
pub mod num;
pub mod pointer;
pub mod progress;
pub mod render;
pub mod schema;
pub mod secrets;
pub mod store;
pub mod strutil;
pub mod validate;
pub mod visibility;
pub mod wizard;
