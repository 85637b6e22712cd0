//! Document pagination and cross-reference resolution engine.
//!
//! Lays styled text spans out onto fixed-size pages, decides when a new page
//! starts, and resolves forward references (table-of-contents page numbers)
//! with a two-pass protocol. All geometry is integer arithmetic in
//! centipoints (hundredths of a typographic point); converting the abstract
//! page list into a concrete document format is left to the caller.

pub mod assemble;
pub mod code;
pub mod cover;
pub mod dates;
pub mod defaults;
pub mod diff;
pub mod error;
pub mod filter;
pub mod git;
pub mod github;
pub mod layout;
pub mod links;
pub mod text;
pub mod toc;
pub mod tree;
pub mod types;
pub mod user_activity;
pub mod user_cover;
pub mod user_repos;
pub mod user_report;
pub mod wrap;
