//! Plugin-driven project scaffolding: an anchor-based source mutation engine
//! and the orchestrator that installs feature plugins onto a generated project.
//!
//! The project is held as a value, [`project::Project`]: the files below the
//! project root together with its dependency, migration and service
//! registries. Plugins edit that value; reading it from disk and writing it
//! back is the caller's business.

pub mod auth;
pub mod bundle;
pub mod error;
pub mod orchestrator;
pub mod plugin;
pub mod project;
pub mod splice;
pub mod step;
pub mod table;
