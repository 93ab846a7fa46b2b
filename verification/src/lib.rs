//! Deferred text rendering.
//!
//! A [`lazy::Lazy`] value captures a rendering closure and runs it only when
//! output is asked for. Each wrapper presents exactly one rendering
//! [`kind::Kind`]; [`template::infer_kind`] decides that kind from the
//! placeholders of a template string, and [`lazy::lazy_format`] builds the
//! matching wrapper. The [`ext`] module lays out lists, sets, maps, structs
//! and tuples whose parts are already rendered text.

pub mod kind;
pub mod template;
pub mod sink;
pub mod lazy;
pub mod ext;
pub mod dispatch;
