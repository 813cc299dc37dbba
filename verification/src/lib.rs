//! A contextual log template engine.
//!
//! A [`value::Value`] tree (or a flat [`template::Plain`] mapping) describes
//! the shape of a log record; placeholder strings embedded in it are
//! resolved against a per-exchange [`context::Context`] snapshot, and the
//! resolved record is encoded either as compact JSON text or as a flat
//! `name="value"` line.

pub mod config;
pub mod context;
pub mod encode;
pub mod info;
pub mod logging;
pub mod placeholder;
pub mod resolve;
pub mod template;
pub mod text;
pub mod value;
