//! Core data-format engines of a release-mirroring upload tool.
//!
//! The two central components are a template expression mini-language
//! (literal text, escapes, `$name` / `${ name }` interpolation) with
//! byte-accurate diagnostic spans, and a deterministic `multipart/form-data`
//! encoder.  Around them sit the configuration model and the request payload
//! builders whose values feed the HTTP layer.

pub mod chars;
pub mod config;
pub mod curseforge;
pub mod error;
pub mod github;
pub mod modrinth;
pub mod multipart;
pub mod pattern;
pub mod template;
