//! Incremental documentation build engine: build cache, orchestration
//! decisions and post-pass validation, with their contracts.

pub mod builder;
pub mod cache;
pub mod clock;
pub mod config;
pub mod directives;
pub mod document;
pub mod environment;
pub mod error;
pub mod fingerprint;
pub mod html;
pub mod inventory;
pub mod namemap;
pub mod paths;
pub mod render;
pub mod roles;
pub mod text;
pub mod utils;
pub mod validate;
