//! Rendering and caching engine for a small content server: a versioned,
//! TTL-aware cache store keyed by document name and request-variant
//! fingerprint, two render backends (markdown files and executable scripts)
//! behind a common capability set, and the invalidation and cleanup rules
//! that keep cached output consistent with the sources on disk.

pub mod config;
pub mod error;
pub mod filters;
pub mod hash_arc_store;
pub mod hashing;
pub mod helpers;
pub mod markdown_render;
pub mod path;
pub mod post;
pub mod strutil;
pub mod systemtime_as_secs;

pub use error::PostError;
