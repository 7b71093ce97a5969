//! Trims an installed JavaScript dependency tree down to the files that are
//! actually reachable from a set of entry points.
//!
//! The library models filesystem paths as plain strings, computes the module
//! graph as a fixpoint over a work queue of files, and derives from the final
//! keep-set the list of files that a driver may delete.

pub mod cleaner;
pub mod configurations;
pub mod container_configurations;
pub mod disk;
pub mod glob;
pub mod minifier;
pub mod module_graph;
pub mod paths;
pub mod resolver;
pub mod specifier;
