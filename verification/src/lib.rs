//! Discovery of the games that a launcher has installed under a root, and
//! resolution of launcher-assigned identifiers to game titles.
//!
//! The library holds the decisions; reading manifests, probing the disk and
//! asking the title database are left to the caller, who hands the outcomes in
//! as plain values.

pub mod library;
pub mod manifest;
pub mod platform;
pub mod scan;
pub mod text;
pub mod title_map;
pub mod wrap;
