//! The check for identifiers that are used but not bound.
pub mod error_tracker;
pub mod rules;
pub mod scope;
pub mod unbound;
