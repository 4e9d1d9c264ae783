//! A small static-site build library: Markdown sources are converted to
//! HTML, recognized component tags are expanded by rendering their template
//! with the tag's attributes as variables, and the result is composed into
//! the base page template.
//!
//! The scanning and substitution of component tags is the library's own,
//! specified logic; the Markdown conversion and the template rendering are
//! done by outside crates behind trusted declarations.

pub mod engine;
pub mod markdown;
pub mod pipeline;
pub mod scan;
pub mod splice;
pub mod text;
