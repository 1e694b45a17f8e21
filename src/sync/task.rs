//! Planned tasks and their resolution into concrete actions.
use vstd::prelude::*;
use crate::digest::{checksum_agrees, checksum_matches, sha256, sha256_of, sniff_mime, sniffed_mime};

verus! {

/// One planned change to the remote tree.
#[derive(Debug, PartialEq, Eq, Clone)]
pub enum Task {
    Put { local: String, remote: String },
    Replace { local: String, remote: String, remote_checksum: Option<[u8; 32]> },
    Delete { remote: String },
}

/// What a task comes to once the local content is known.
#[derive(Debug, PartialEq, Eq)]
pub enum Action {
    Put { content: Vec<u8>, mime_type: Option<String> },
    Ignore,
    Delete,
}

/// A resolved task: the remote name and the action on it.
pub struct Execution {
    pub remote: String,
    pub action: Action,
}

/// The view of an optional string.
pub open spec fn opt_chars(s: Option<String>) -> Option<Seq<char>> {
    match s {
        Some(t) => Some(t@),
        None => None,
    }
}

/// `a` uploads exactly `content`, labelled with `mime`.
pub open spec fn uploads(a: Action, content: Seq<u8>, mime: Option<Seq<char>>) -> bool {
    match a {
        Action::Put { content: c, mime_type: m } => c@ == content && opt_chars(m) == mime,
        _ => false,
    }
}

/// The action that `task` resolves to, given the local content, the type sniffed from it
/// and its digest.
pub open spec fn resolves_to(task: Task, a: Action, content: Seq<u8>, mime: Option<Seq<char>>, digest: Seq<u8>) -> bool {
    match task {
        Task::Put { .. } => uploads(a, content, mime),
        Task::Replace { remote_checksum, .. } => if checksum_agrees(remote_checksum, digest) {
            a is Ignore
        } else {
            uploads(a, content, mime)
        },
        Task::Delete { .. } => a is Delete,
    }
}

impl Task {
    /// The remote name that the task is about.
    pub open spec fn remote_name(&self) -> Seq<char> {
        match self {
            Task::Put { remote, .. } => remote@,
            Task::Replace { remote, .. } => remote@,
            Task::Delete { remote } => remote@,
        }
    }

    /// The local file whose content the task needs, if any.
    pub open spec fn local_name(&self) -> Option<Seq<char>> {
        match self {
            Task::Put { local, .. } => Some(local@),
            Task::Replace { local, .. } => Some(local@),
            Task::Delete { .. } => None,
        }
    }

    /// The remote name that the task is about.
    pub fn remote(&self) -> (r: &String)
        ensures
            r@ == self.remote_name(),
    {
        match self {
            Task::Put { remote, .. } => remote,
            Task::Replace { remote, .. } => remote,
            Task::Delete { remote } => remote,
        }
    }

    /// The local file to read before the task can be resolved; none for a deletion.
    pub fn local(&self) -> (r: Option<&String>)
        ensures
            match r {
                Some(l) => self.local_name() == Some(l@),
                None => self.local_name() is None,
            },
    {
        match self {
            Task::Put { local, .. } => Some(local),
            Task::Replace { local, .. } => Some(local),
            Task::Delete { .. } => None,
        }
    }

    /// Resolves the task from the local content, the MIME type sniffed from it and its
    /// digest: a replacement is skipped exactly when the digest equals the recorded checksum.
    pub fn resolve(&self, content: Vec<u8>, mime_type: Option<String>, digest: &[u8; 32]) -> (r: Execution)
        ensures
            r.remote@ == self.remote_name(),
            resolves_to(*self, r.action, content@, opt_chars(mime_type), digest@),
    {
        let remote = self.remote().clone();
        match self {
            Task::Put { .. } => Execution { remote, action: Action::Put { content, mime_type } },
            Task::Replace { remote_checksum, .. } => {
                if checksum_matches(digest, remote_checksum) {
                    Execution { remote, action: Action::Ignore }
                } else {
                    Execution { remote, action: Action::Put { content, mime_type } }
                }
            },
            Task::Delete { .. } => Execution { remote, action: Action::Delete },
        }
    }

    /// Resolves the task against the local file's content (ignored for a deletion).
    pub fn plan(&self, content: Vec<u8>) -> (r: Execution)
        ensures
            r.remote@ == self.remote_name(),
            resolves_to(*self, r.action, content@, sniffed_mime(content@), sha256_of(content@)),
    {
        let mime_type = sniff_mime(&content);
        let digest = sha256(&content);
        self.resolve(content, mime_type, &digest)
    }
}

/// What a worker reports for a task.
#[derive(Debug, Clone, Copy, PartialEq, Eq, Structural)]
pub enum Event {
    Put,
    Unchanged,
    Delete,
}

/// A call to make on the store.
#[derive(Debug, PartialEq, Eq)]
pub enum Request {
    Upload { remote: String, content: Vec<u8>, content_type: String },
    Remove { remote: String },
}

/// What running a task comes to: the name, the event to report, and the call to make, if any.
pub struct Outcome {
    pub remote: String,
    pub event: Event,
    pub request: Option<Request>,
}

/// The event that an action reports.
pub open spec fn event_of(a: Action) -> Event {
    match a {
        Action::Put { .. } => Event::Put,
        Action::Ignore => Event::Unchanged,
        Action::Delete => Event::Delete,
    }
}

/// The content type sent with an upload: the sniffed type, else `application/octet-stream`.
pub open spec fn content_type_of(mime: Option<Seq<char>>) -> Seq<char> {
    match mime {
        Some(m) => m,
        None => "application/octet-stream"@,
    }
}

/// `req` is the call that action `a` on `remote` needs: none in a dry run, none to skip,
/// and none to delete the lock marker itself.
pub open spec fn request_for(remote: Seq<char>, a: Action, dry_run: bool, lockfile: Seq<char>, req: Option<Request>) -> bool {
    if dry_run {
        req is None
    } else {
        match a {
            Action::Put { content, mime_type } => match req {
                Some(Request::Upload { remote: r, content: c, content_type: t }) => r@ == remote && c@ == content@
                    && t@ == content_type_of(opt_chars(mime_type)),
                _ => false,
            },
            Action::Ignore => req is None,
            Action::Delete => if remote == lockfile {
                req is None
            } else {
                match req {
                    Some(Request::Remove { remote: r }) => r@ == remote,
                    _ => false,
                }
            },
        }
    }
}

impl Event {
    /// The word reported for the event.
    pub fn as_str(&self) -> (r: &'static str)
        ensures
            r@ == match self {
                Event::Put => "put"@,
                Event::Unchanged => "unchanged"@,
                Event::Delete => "delete"@,
            },
    {
        match self {
            Event::Put => "put",
            Event::Unchanged => "unchanged",
            Event::Delete => "delete",
        }
    }
}

impl Execution {
    /// The event and the call that this resolved task comes to.
    pub fn apply(self, dry_run: bool, lockfile: &String) -> (r: Outcome)
        ensures
            r.remote@ == self.remote@,
            r.event == event_of(self.action),
            request_for(self.remote@, self.action, dry_run, lockfile@, r.request),
    {
        let Execution { remote, action } = self;
        let event = match &action {
            Action::Put { .. } => Event::Put,
            Action::Ignore => Event::Unchanged,
            Action::Delete => Event::Delete,
        };
        let request = if dry_run {
            None
        } else {
            match action {
                Action::Put { content, mime_type } => {
                    let content_type = match mime_type {
                        Some(m) => m,
                        None => "application/octet-stream".to_owned(),
                    };
                    Some(Request::Upload { remote: remote.clone(), content, content_type })
                },
                Action::Ignore => None,
                Action::Delete => if remote == *lockfile {
                    None
                } else {
                    Some(Request::Remove { remote: remote.clone() })
                },
            }
        };
        Outcome { remote, event, request }
    }
}

impl Task {
    /// Resolves the task against the local content and says what to report and which call
    /// to make.
    pub fn execute(&self, content: Vec<u8>, dry_run: bool, lockfile: &String) -> (r: Outcome)
        ensures
            r.remote@ == self.remote_name(),
            exists|a: Action|
                resolves_to(*self, a, content@, sniffed_mime(content@), sha256_of(content@))
                && r.event == event_of(a) && #[trigger] request_for(self.remote_name(), a, dry_run, lockfile@, r.request),
    {
        let execution = self.plan(content);
        let ghost a = execution.action;
        let r = execution.apply(dry_run, lockfile);
        assert(request_for(self.remote_name(), a, dry_run, lockfile@, r.request));
        r
    }
}

/// A replacement whose remote checksum is missing always uploads; one with a checksum is
/// ignored exactly when the digest of the local content equals it, and uploads otherwise.
pub proof fn lemma_checksum_gate(
    local: String,
    remote: String,
    remote_checksum: Option<[u8; 32]>,
    a: Action,
    content: Seq<u8>,
    mime: Option<Seq<char>>,
    digest: Seq<u8>,
)
    requires
        resolves_to(Task::Replace { local, remote, remote_checksum }, a, content, mime, digest),
    ensures
        remote_checksum is None ==> uploads(a, content, mime),
        remote_checksum is Some ==> (a is Ignore <==> remote_checksum->0@ == digest),
        remote_checksum is Some && remote_checksum->0@ != digest ==> uploads(a, content, mime),
{
}

} // verus!
