//! Manufacturing-line boot diagnostics for an embedded gateway.
//!
//! The heart of the crate is a stateful, timeout-aware boot-sequence
//! analyzer: it consumes chunks of console bytes from the device under
//! test, sanitizes and accumulates them, checks an ordered checklist of
//! boot milestones, and emits one terminal diagnosis per run.  Around it
//! stand the console sanitizer, a substring scanner, the spec-level model
//! of the analyzer with its laws, and the decision logic of the
//! production-inventory lookups.

pub mod analyzer;
pub mod cpms;
pub mod dialog;
pub mod ipr;
pub mod model;
pub mod sanitize;
pub mod search;
