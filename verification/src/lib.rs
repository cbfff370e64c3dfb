//! Core logic of a reproducible-container build tool.
//!
//! Containers are described by a recipe of build steps, addressed by a
//! content hash of that recipe, built inside user namespaces and committed
//! by an atomic rename.  This crate holds the verified logic: the hashing
//! and versioning of recipes, the uid/gid map arithmetic, the build-context
//! bookkeeping, the coordinator and supervisor state machines, and the
//! path and configuration helpers.  Filesystem, process and network work
//! is planned here as data and performed by an unverified shell around
//! the library.

pub mod bld;
pub mod clean;
pub mod config;
pub mod context;
pub mod coordinator;
pub mod digest;
pub mod download;
pub mod file_util;
pub mod monitor;
pub mod netns;
pub mod packages;
pub mod path_util;
pub mod pip;
pub mod range;
pub mod runner;
pub mod settings;
pub mod spawn;
pub mod steps;
pub mod textparse;
pub mod uidmap;
pub mod version;
pub mod wrapper;
