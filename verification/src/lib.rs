//! Formats structured log events as single-line JSON documents in the shape
//! that Google Cloud Logging (Stackdriver) expects.
//!
//! An event arrives as plain values: its level, its target, its source
//! location and its fields, collected by an
//! [`visitor::EventFieldVisitor`]; with it comes a
//! [`span::FormatContext`], which says what the span registry and the tracer
//! know. [`EventFormatter::format_event`] derives the severity, routes the
//! fields, adds the spans and the trace fields, and returns the line.
//!
//! Every function states what it returns over the views of its arguments,
//! and the module [`laws`] states what holds of every document.

pub mod casing;
pub mod clock;
pub mod decimal;
pub mod document;
pub mod error;
pub mod event_formatter;
pub mod field_map;
pub mod json;
pub mod laws;
pub mod router;
pub mod severity;
pub mod single_line;
pub mod span;
pub mod text;
pub mod trace;
pub mod value;
pub mod visitor;

pub use event_formatter::{Event, EventFormatter};
