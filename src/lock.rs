//! The advisory lock that keeps two runs off the same remote tree.
//!
//! Taking the lock reads the marker, then writes it; the two steps are not atomic, so two
//! runs that race inside that window can both believe they hold it. The marker carries no
//! owner: anyone with the credential can read, overwrite or delete it.
use vstd::prelude::*;

verus! {

/// The marker was there and the run was not forced.
#[derive(Debug, Clone, PartialEq, Eq)]
pub enum LockError {
    Held { lockfile: String, since: String },
}

/// A lock that this run holds: the marker's name and the timestamp written into it.
#[derive(Debug)]
pub struct Lock {
    lockfile: String,
    stamp: String,
}

/// `r` is the outcome of taking the lock `lockfile` at time `now` when the marker read
/// back `existing` (absent if it could not be read).
pub open spec fn acquired(
    lockfile: Seq<char>,
    existing: Option<Seq<char>>,
    force: bool,
    now: Seq<char>,
    r: Result<Lock, LockError>,
) -> bool {
    match r {
        Ok(l) => (existing is None || force) && l.lockfile_spec() == lockfile && l.stamp_spec() == now,
        Err(LockError::Held { lockfile: f, since }) => existing == Some(since@) && !force && f@ == lockfile,
    }
}

/// The marker's content after an attempt: the new timestamp if the lock was taken, else
/// what was there.
pub open spec fn marker_after(before: Option<Seq<char>>, r: Result<Lock, LockError>) -> Option<Seq<char>> {
    match r {
        Ok(l) => Some(l.stamp_spec()),
        Err(_) => before,
    }
}

impl Lock {
    pub closed spec fn lockfile_spec(&self) -> Seq<char> {
        self.lockfile@
    }

    pub closed spec fn stamp_spec(&self) -> Seq<char> {
        self.stamp@
    }

    /// Takes the lock `lockfile`, given what reading the marker gave: refused when a marker
    /// exists and `force` is not set, taken otherwise, with `now` as the marker's content.
    pub fn new(lockfile: &str, existing: Option<String>, force: bool, now: String) -> (r: Result<Lock, LockError>)
        ensures
            acquired(lockfile@, match existing { Some(s) => Some(s@), None => None }, force, now@, r),
    {
        match existing {
            Some(since) => if !force {
                return Err(LockError::Held { lockfile: lockfile.to_owned(), since });
            },
            None => {},
        }
        Ok(Lock { lockfile: lockfile.to_owned(), stamp: now })
    }

    /// The marker's name.
    pub fn lockfile(&self) -> (r: &String)
        ensures
            r@ == self.lockfile_spec(),
    {
        &self.lockfile
    }

    /// The content to write into the marker: the time the lock was taken.
    pub fn stamp(&self) -> (r: &String)
        ensures
            r@ == self.stamp_spec(),
    {
        &self.stamp
    }
}

/// Without `force` an existing marker refuses the lock and stays as it was; with `force`
/// the lock is taken and the marker is overwritten with the new timestamp.
pub proof fn lemma_lock_respects_marker(
    lockfile: Seq<char>,
    existing: Option<Seq<char>>,
    force: bool,
    now: Seq<char>,
    r: Result<Lock, LockError>,
)
    requires
        acquired(lockfile, existing, force, now, r),
    ensures
        existing is Some && !force ==> r is Err && marker_after(existing, r) == existing,
        force ==> r is Ok && marker_after(existing, r) == Some(now),
        existing is None ==> r is Ok && marker_after(existing, r) == Some(now),
{
}

} // verus!
