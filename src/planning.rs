//! The planner's entry points under the names `SyncPlan` for a task and `SyncAction` for
//! a resolved action.
use vstd::prelude::*;
use crate::digest::{sha256_of, sniffed_mime};
use crate::sync::plan::{is_plan, names_of, removable, LocalFiles, RemoteFiles};
use crate::sync::task::{resolves_to, Action, Task};

pub use crate::sync::task::Execution;

verus! {

/// A planned change to the remote tree.
pub type SyncPlan = Task;

/// What a planned change comes to once the local content is known.
pub type SyncAction = Action;

/// The remote names to delete: absent locally and not protected.
pub fn must_remove(local: &LocalFiles, remote: &RemoteFiles, ignored_prefix: &[String]) -> (r: Vec<String>)
    requires
        local.wf(),
        remote.wf(),
    ensures
        names_of(r@).no_duplicates(),
        forall|k: Seq<char>| #[trigger] names_of(r@).contains(k) <==> removable(local@, remote@, ignored_prefix@, k),
{
    crate::sync::plan::must_remove(local, remote, ignored_prefix)
}

/// Plans a run; see `sync::plan::plan_sync`.
pub fn plan_sync(local: &LocalFiles, remote_content: &RemoteFiles, ignore: &[String]) -> (r: Vec<SyncPlan>)
    requires
        local.wf(),
        remote_content.wf(),
    ensures
        is_plan(local@, remote_content@, ignore@, r@),
{
    crate::sync::plan::plan_sync(local, remote_content, ignore)
}

/// Resolves a planned change against the local file's content.
pub fn plan_execution(plan: &SyncPlan, content: Vec<u8>) -> (r: Execution)
    ensures
        r.remote@ == plan.remote_name(),
        resolves_to(*plan, r.action, content@, sniffed_mime(content@), sha256_of(content@)),
{
    plan.plan(content)
}

} // verus!
