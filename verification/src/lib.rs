//! Rasterised textures from Typst templates.
//!
//! A template is a main Typst document with the further documents, fonts and
//! assets that it needs. It comes as a zipped bundle or as a single `.typ`
//! file. Jobs ask for a page of a template, compiled with some input, as an
//! image; they wait in a queue that is worked off in passes, each pass taking
//! a limited number of jobs and leaving those whose template is not loaded
//! yet for a later pass.
//!
//! This library holds what is decided along the way:
//!
//! - [`file_resolver`] and [`asset_loading`]: what a bundle's entries are and
//!   which template they make, or why they make none;
//! - [`manifest`]: what a bundle's `package.toml` may hold;
//! - [`server`]: how jobs are queued, how templates are told apart, and which
//!   jobs a pass hands out;
//! - [`cache`]: that each template's engine is built once;
//! - [`input`]: how the two inputs of a job are made one dictionary;
//! - [`page`], [`options`] and [`image`]: which page is rendered, and what an
//!   image is made of.
//!
//! The host loads the bytes, compiles, rasterises and delivers. The zip
//! container, TOML, font programs and Typst dictionaries are read through the
//! crates that define them, in [`archive`], [`toml_tree`], [`font`] and
//! [`input`]; what those modules state of these crates is taken on trust.

pub mod archive;
pub mod asset_loading;
pub mod assoc;
pub mod cache;
pub mod file_resolver;
pub mod font;
pub mod image;
pub mod input;
pub mod manifest;
pub mod options;
pub mod page;
pub mod path;
pub mod server;
pub mod toml_tree;

pub use crate::options::{InputUnifyMode, TypstJobOptions};
pub use crate::server::{PathBufOrTemplate, TypstJob, TypstTextureServer, TypstTexturesPlugin};
