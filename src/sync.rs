//! A sync run: its configuration, and the modules that plan and resolve its tasks.
pub mod local_path;
pub mod plan;
pub mod task;

use vstd::prelude::*;
use crate::api::StorageZoneClient;
use crate::cli::SyncArgs;
use crate::sync::local_path::{normalize_path, normalized};

verus! {

/// Relies on `num_cpus::get`: the number of logical processors, which it documents as
/// always at least one.
#[verifier::external_body]
fn cpu_count() -> (r: usize)
    ensures
        r >= 1,
{
    num_cpus::get()
}

/// The configuration of one run; fixed once built.
pub struct SyncJob {
    client: StorageZoneClient,
    remote_path: String,
    local_path: String,
    force: bool,
    dry_run: bool,
    verbose: bool,
    lockfile: String,
    ignore: Vec<String>,
    concurrency: usize,
}

impl SyncJob {
    pub closed spec fn remote_path_spec(&self) -> Seq<char> {
        self.remote_path@
    }

    pub closed spec fn local_path_spec(&self) -> Seq<char> {
        self.local_path@
    }

    pub closed spec fn lockfile_spec(&self) -> Seq<char> {
        self.lockfile@
    }

    pub closed spec fn ignore_spec(&self) -> Seq<String> {
        self.ignore@
    }

    pub closed spec fn flags(&self) -> (bool, bool, bool) {
        (self.force, self.dry_run, self.verbose)
    }

    pub closed spec fn concurrency_spec(&self) -> usize {
        self.concurrency
    }

    pub closed spec fn client_spec(&self) -> StorageZoneClient {
        self.client
    }

    /// A run: both paths end in `/`; without a given concurrency, one worker per processor.
    pub fn new(
        api_key: &str,
        endpoint: &str,
        storage_zone: &str,
        local_path: &str,
        remote_path: &str,
        lockfile: &str,
        force: bool,
        dry_run: bool,
        verbose: bool,
        ignore: Vec<String>,
        concurrency: Option<usize>,
    ) -> (r: Self)
        ensures
            r.client_spec().access_key_spec() == api_key@,
            r.client_spec().endpoint_spec() == endpoint@,
            r.client_spec().storage_zone_spec() == storage_zone@,
            r.local_path_spec() == normalized(local_path@),
            r.remote_path_spec() == normalized(remote_path@),
            r.lockfile_spec() == lockfile@,
            r.ignore_spec() == ignore@,
            r.flags() == (force, dry_run, verbose),
            match concurrency {
                Some(n) => r.concurrency_spec() == n,
                None => r.concurrency_spec() >= 1,
            },
    {
        let client = StorageZoneClient::new(api_key.to_owned(), endpoint.to_owned(), storage_zone.to_owned());
        let concurrency = match concurrency {
            Some(n) => n,
            None => cpu_count(),
        };
        SyncJob {
            client,
            remote_path: normalize_path(remote_path),
            local_path: normalize_path(local_path),
            lockfile: lockfile.to_owned(),
            force,
            dry_run,
            verbose,
            ignore,
            concurrency,
        }
    }

    /// The run that the command line's sync settings describe.
    pub fn from_args(api_key: &str, args: SyncArgs) -> (r: Self)
        ensures
            r.client_spec().access_key_spec() == api_key@,
            r.client_spec().endpoint_spec() == args.endpoint@,
            r.client_spec().storage_zone_spec() == args.storage_zone@,
            r.local_path_spec() == normalized(args.local_path@),
            r.remote_path_spec() == normalized(args.remote_path@),
            r.lockfile_spec() == args.lockfile@,
            r.ignore_spec() == args.ignore@,
            r.flags() == (args.force, args.dry_run, args.verbose),
            match args.concurrency {
                Some(n) => r.concurrency_spec() == n,
                None => r.concurrency_spec() >= 1,
            },
    {
        let SyncArgs {
            endpoint,
            local_path,
            storage_zone,
            remote_path,
            dry_run,
            force,
            lockfile,
            ignore,
            verbose,
            concurrency,
        } = args;
        SyncJob::new(
            api_key,
            endpoint.as_str(),
            storage_zone.as_str(),
            local_path.as_str(),
            remote_path.as_str(),
            lockfile.as_str(),
            force,
            dry_run,
            verbose,
            ignore,
            concurrency,
        )
    }

    pub fn client(&self) -> (r: &StorageZoneClient)
        ensures
            *r == self.client_spec(),
    {
        &self.client
    }

    pub fn remote_path(&self) -> (r: &String)
        ensures
            r@ == self.remote_path_spec(),
    {
        &self.remote_path
    }

    pub fn local_path(&self) -> (r: &String)
        ensures
            r@ == self.local_path_spec(),
    {
        &self.local_path
    }

    pub fn lockfile(&self) -> (r: &String)
        ensures
            r@ == self.lockfile_spec(),
    {
        &self.lockfile
    }

    pub fn ignore(&self) -> (r: &Vec<String>)
        ensures
            r@ == self.ignore_spec(),
    {
        &self.ignore
    }

    pub fn force(&self) -> (r: bool)
        ensures
            r == self.flags().0,
    {
        self.force
    }

    pub fn dry_run(&self) -> (r: bool)
        ensures
            r == self.flags().1,
    {
        self.dry_run
    }

    pub fn concurrency(&self) -> (r: usize)
        ensures
            r == self.concurrency_spec(),
    {
        self.concurrency
    }

    /// A real run takes the lock; a dry run neither takes nor releases it.
    pub fn needs_lock(&self) -> (r: bool)
        ensures
            r == !self.flags().1,
    {
        !self.dry_run
    }

    /// Each outcome is printed in verbose mode and in a dry run.
    pub fn reports(&self) -> (r: bool)
        ensures
            r == (self.flags().2 || self.flags().1),
    {
        self.verbose || self.dry_run
    }
}

} // verus!
