//! The command line's values, as plain data.
use vstd::prelude::*;

verus! {

/// What the command line asks for.
#[derive(Debug, Clone)]
pub enum SubCommand {
    Sync(SyncArgs),
    Completions { shell: String },
    PurgeUrl(PurgeUrlArgs),
    PurgeZone(PurgeZoneArgs),
}

/// A parsed command line.
#[derive(Debug, Clone)]
pub struct Cli {
    pub command: SubCommand,
    pub api_key: Option<String>,
}

/// The settings of a sync run.
#[derive(Debug, Clone)]
pub struct SyncArgs {
    pub endpoint: String,
    pub local_path: String,
    pub storage_zone: String,
    pub remote_path: String,
    pub dry_run: bool,
    pub force: bool,
    pub lockfile: String,
    pub ignore: Vec<String>,
    pub verbose: bool,
    pub concurrency: Option<usize>,
}

/// A URL to purge from the edge cache.
#[derive(Debug, Clone)]
pub struct PurgeUrlArgs {
    pub url: String,
}

/// A pull zone to purge, optionally only what carries a cache tag.
#[derive(Debug, Clone)]
pub struct PurgeZoneArgs {
    pub pullzone: u64,
    pub cache_tag: Option<String>,
}

} // verus!
