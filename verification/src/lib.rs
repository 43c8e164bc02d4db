//! A stow-style tree-linking engine: the decision logic for mirroring a
//! source directory tree into a target tree with symbolic links.
//!
//! The library holds the pure core — path mapping, ignore filtering,
//! conflict resolution, and dead-link pruning decisions — each with a
//! contract. The filesystem walk that feeds these decisions and carries
//! them out lives outside the library.

pub mod effects;
pub mod ignore;
pub mod linker;
pub mod paths;
pub mod prune;
pub mod vcs;
