//! Templated bulk mail: placeholder substitution over tabular rows, the
//! configuration lookup that supplies the templates, and the delivery run
//! with its per-row outcomes.

pub mod args;
pub mod chars;
pub mod conf;
pub mod mail;
pub mod pipeline;
pub mod text;
