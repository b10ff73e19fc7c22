//! Anchored path resolution and numeric fixture loading.
//!
//! The crate finds a named project root in the ancestry of a working
//! directory, resolves partial path fragments against the subtree under
//! that root, and models the JSON fixture records that live there.

pub mod anchor;
pub mod codec;
pub mod fixture;
pub mod errors;
pub mod parts;
pub mod resolve;
