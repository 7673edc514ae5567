//! Alias-aware help resolution for a version-control command line.
//!
//! The crate expands configured command aliases recursively while detecting
//! cycles, matches a token sequence against a hierarchical command registry by
//! longest prefix, renders the resulting help text (optionally preceded by an
//! alias banner), looks up static documentation keywords, and plans the
//! invocations of an external repository-hosting tool that produce web links
//! for commits and bookmarks.

pub mod alias;
pub mod error;
pub mod github;
pub mod help;
pub mod keyword;
pub mod registry;
pub mod strings;
