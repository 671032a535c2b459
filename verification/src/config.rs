//! Project descriptors: the already-validated configuration records that the
//! supervisor consumes.  Loading them (environment lookup, file reading, JSON
//! decoding) is the embedding program's job; the core never re-reads them.

use vstd::prelude::*;

verus! {

/// One configured project: a name (unique registry key), a working directory,
/// a raw start command line, a memory budget in megabytes, and an optional
/// runtime-version pin.
#[derive(Debug, Clone)]
pub struct ProjectConfig {
    pub name: String,
    pub path: String,
    pub start_command: String,
    pub min_memory_usage: u32,
    pub node_version: Option<String>,
}

/// A whole configuration: the ordered list of project descriptors.
pub struct Config {
    pub projects: Vec<ProjectConfig>,
}

/// Marker for the configuration-loading collaborator.  The loader itself runs
/// outside the core and hands over a plain `Vec<ProjectConfig>`.
pub struct ReadConfig;

} // verus!
