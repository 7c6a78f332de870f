//! Repackages a tree of addon packs into a curated output tree.
//!
//! The library holds the verified core: the binary model decoder, the
//! path helpers, the per-pack whitelist state, and the per-file placement
//! rules. Filesystem walking and copying live outside, in the application
//! that drives these functions.

pub mod lowercase_path;
pub mod model;
pub mod pack;
pub mod paths;
pub mod resolve;
