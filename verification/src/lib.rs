//! A small engine for serving a single maintenance page: configuration
//! layering, a MIME-type table, template compilation with per-block
//! CSP hashes, and static-asset content-type resolution.

pub mod assets;
pub mod config;
pub mod csp;
pub mod digest;
pub mod errors;
pub mod mime;
pub mod template;
pub mod text;
