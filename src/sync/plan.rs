//! The diff planner: which names to upload, compare or delete, and in which order.
use vstd::prelude::*;
use crate::api::FileMeta;
use crate::files::FileMap;
use crate::order::{is_html, lex_lt, planning_sorted, sort_for_planning};
use crate::digest::{checksum_agrees, sha256_of, sniffed_mime};
use crate::sync::task::resolves_to;
use crate::sync::task::Task;
use crate::text::{chars_of, has_prefix, is_prefix};

pub use crate::sync::task::{Action, Execution};

verus! {

/// Local files: remote-relative name to local path.
pub type LocalFiles = FileMap<String>;

/// Remote files: remote-relative name to metadata.
pub type RemoteFiles = FileMap<FileMeta>;

/// `name` starts with one of the protected prefixes.
pub open spec fn is_protected(name: Seq<char>, prefixes: Seq<String>) -> bool {
    exists|i: int| 0 <= i < prefixes.len() && is_prefix(#[trigger] prefixes[i]@, name)
}

/// `name` exists only remotely and is not protected: it is to be deleted.
pub open spec fn removable(
    local: Map<Seq<char>, String>,
    remote: Map<Seq<char>, FileMeta>,
    prefixes: Seq<String>,
    name: Seq<char>,
) -> bool {
    remote.contains_key(name) && !local.contains_key(name) && !is_protected(name, prefixes)
}

/// The names of a sequence of strings.
pub open spec fn names_of(s: Seq<String>) -> Seq<Seq<char>> {
    s.map_values(|x: String| x@)
}

/// The remote names of a sequence of tasks.
pub open spec fn task_names(tasks: Seq<Task>) -> Seq<Seq<char>> {
    tasks.map_values(|t: Task| t.remote_name())
}

/// Task `t` uploads or compares the local file `name`, by whether the remote has it.
pub open spec fn transfers(
    local: Map<Seq<char>, String>,
    remote: Map<Seq<char>, FileMeta>,
    t: Task,
) -> bool {
    match t {
        Task::Put { local: path, remote: name } => local.contains_key(name@) && !remote.contains_key(name@)
            && path@ == local[name@]@,
        Task::Replace { local: path, remote: name, remote_checksum } => local.contains_key(name@)
            && remote.contains_key(name@) && path@ == local[name@]@ && remote_checksum
            == remote[name@].checksum,
        Task::Delete { .. } => false,
    }
}

/// What a plan is: one transfer per local name in planning order, then one deletion
/// per removable name, each name once.
pub open spec fn is_plan(
    local: Map<Seq<char>, String>,
    remote: Map<Seq<char>, FileMeta>,
    prefixes: Seq<String>,
    tasks: Seq<Task>,
) -> bool {
    let n = local.dom().len() as int;
    &&& n <= tasks.len()
    &&& forall|i: int| 0 <= i < n ==> transfers(local, remote, #[trigger] tasks[i])
    &&& forall|i: int| n <= i < tasks.len() ==> (#[trigger] tasks[i]) is Delete
        && removable(local, remote, prefixes, tasks[i].remote_name())
    &&& task_names(tasks).no_duplicates()
    &&& forall|k: Seq<char>| #![trigger local.contains_key(k)] #![trigger remote.contains_key(k)]
        (local.contains_key(k) || removable(local, remote, prefixes, k))
        ==> task_names(tasks).contains(k)
    &&& planning_sorted(task_names(tasks).take(n))
}

/// Whether `name` starts with one of `prefixes`.
pub(crate) fn is_protected_name(name: &String, prefixes: &[String]) -> (r: bool)
    ensures
        r == is_protected(name@, prefixes@),
{
    let cs = chars_of(name.as_str());
    let mut i: usize = 0;
    while i < prefixes.len()
        invariant
            i <= prefixes@.len(),
            cs@ == name@,
            forall|j: int| 0 <= j < i ==> !is_prefix(#[trigger] prefixes@[j]@, name@),
        decreases prefixes@.len() - i,
    {
        let p = chars_of(prefixes[i].as_str());
        if has_prefix(&p, &cs) {
            assert(is_prefix(prefixes@[i as int]@, name@));
            return true;
        }
        i += 1;
    }
    false
}

/// The remote names that are absent locally and not protected: the deletions of a plan.
pub fn must_remove(local: &LocalFiles, remote: &RemoteFiles, ignored_prefix: &[String]) -> (r: Vec<String>)
    requires
        local.wf(),
        remote.wf(),
    ensures
        names_of(r@).no_duplicates(),
        forall|k: Seq<char>| #[trigger] names_of(r@).contains(k) <==> removable(local@, remote@, ignored_prefix@, k),
{
    proof {
        remote.lemma_names();
    }
    let ghost rn = remote.names();
    let mut out: Vec<String> = Vec::new();
    let mut i: usize = 0;
    let n = remote.len();
    while i < n
        invariant
            local.wf(),
            remote.wf(),
            n == rn.len(),
            rn == remote.names(),
            rn.no_duplicates(),
            forall|k: Seq<char>| #[trigger] remote@.contains_key(k) <==> rn.contains(k),
            i <= n,
            names_of(out@).no_duplicates(),
            forall|k: Seq<char>| #[trigger] names_of(out@).contains(k) <==> (rn.take(i as int).contains(k)
                && removable(local@, remote@, ignored_prefix@, k)),
        decreases n - i,
    {
        let name = remote.name_at(i);
        let ghost before = names_of(out@);
        let ghost mut pushed = false;
        if !local.contains_key(name) && !is_protected_name(name, ignored_prefix) {
            out.push(name.clone());
            proof {
                pushed = true;
            }
            proof {
                assert(names_of(out@) =~= before.push(name@));
                assert forall|a: int, b: int| 0 <= a < b < names_of(out@).len() implies names_of(out@)[a] != names_of(out@)[b] by {
                    if b == before.len() {
                        assert(before.contains(names_of(out@)[a]));
                        let t0 = rn.take(i as int);
                        let j = choose|j: int| 0 <= j < t0.len() && #[trigger] t0[j] == names_of(out@)[a];
                        if names_of(out@)[a] == names_of(out@)[b] {
                            assert(rn[j] == rn[i as int]);
                        }
                    }
                }
            }
        }
        proof {
            let t0 = rn.take(i as int);
            let t1 = rn.take(i + 1);
            assert(t1 =~= t0.push(rn[i as int]));
            assert(remote@.contains_key(rn[i as int]));
            assert(pushed == removable(local@, remote@, ignored_prefix@, name@));
            if pushed {
                assert(names_of(out@) =~= before.push(name@));
            } else {
                assert(names_of(out@) =~= before);
            }
            assert forall|k: Seq<char>| #[trigger] names_of(out@).contains(k) <==> (t1.contains(k)
                && removable(local@, remote@, ignored_prefix@, k)) by {
                if t1.contains(k) && k != rn[i as int] {
                    let j = choose|j: int| 0 <= j < t1.len() && #[trigger] t1[j] == k;
                    assert(t0[j] == k);
                }
                if t0.contains(k) {
                    let j = choose|j: int| 0 <= j < t0.len() && #[trigger] t0[j] == k;
                    assert(t1[j] == k);
                    assert(rn[j] == k);
                    if k == rn[i as int] {
                        assert(rn[j] == rn[i as int]);
                    }
                }
                if k == rn[i as int] {
                    assert(t1[i as int] == k);
                }
                if pushed && names_of(out@).contains(k) && !before.contains(k) {
                    let j = choose|j: int| 0 <= j < names_of(out@).len() && #[trigger] names_of(out@)[j] == k;
                    if j < before.len() {
                        assert(before[j] == k);
                    }
                }
                if pushed && k == name@ {
                    assert(names_of(out@)[before.len() as int] == k);
                }
                if before.contains(k) {
                    let j = choose|j: int| 0 <= j < before.len() && #[trigger] before[j] == k;
                    assert(names_of(out@)[j] == k);
                }
            }
        }
        i += 1;
    }
    proof {
        assert(rn.take(n as int) =~= rn);
    }
    out
}

/// Plans a run: every local name, in planning order, as an upload (`Put`) when the remote
/// lacks it or a comparison (`Replace`) when it has it; then a `Delete` for every remote
/// name that is absent locally and not protected.
///
/// Pages come last so that assets are submitted before the pages that refer to them. This
/// fixes only the order of submission: with more than one worker, a page may still finish
/// uploading before an unrelated asset whose transfer is slower, since nothing waits for
/// the assets to complete before the pages start. The order of the deletions among
/// themselves is the order in which the remote map holds its names.
pub fn plan_sync(local: &LocalFiles, remote_content: &RemoteFiles, ignore: &[String]) -> (r: Vec<Task>)
    requires
        local.wf(),
        remote_content.wf(),
    ensures
        is_plan(local@, remote_content@, ignore@, r@),
{
    proof {
        local.lemma_names();
    }
    let ghost ln = local.names();
    let n = local.len();
    let mut keys: Vec<String> = Vec::new();
    let mut i: usize = 0;
    while i < n
        invariant
            n == ln.len(),
            ln == local.names(),
            i <= n,
            keys@.len() == i,
            names_of(keys@) == ln.take(i as int),
        decreases n - i,
    {
        let nm = local.name_at(i);
        let c = nm.clone();
        let ghost prev = keys@;
        keys.push(c);
        assert(keys@ == prev.push(c));
        assert(prev.len() == i);
        assert(keys@[i as int] == c);
        assert(c@ == nm@);
        assert(nm@ == ln[i as int]);
        assert(names_of(keys@)[i as int] == ln[i as int]);
        assert(names_of(keys@) =~= ln.take(i + 1));
        i += 1;
    }
    assert(ln.take(n as int) =~= ln);
    let ordered = sort_for_planning(keys);
    let ghost on = names_of(ordered@);
    let mut job: Vec<Task> = Vec::new();
    let mut j: usize = 0;
    while j < ordered.len()
        invariant
            local.wf(),
            remote_content.wf(),
            on == names_of(ordered@),
            on.to_set() == local@.dom(),
            j <= ordered@.len(),
            job@.len() == j,
            forall|q: int| 0 <= q < j ==> transfers(local@, remote_content@, #[trigger] job@[q])
                && job@[q].remote_name() == on[q],
        decreases ordered@.len() - j,
    {
        let name = &ordered[j];
        assert(on[j as int] == name@);
        assert(on.to_set().contains(name@));
        let physical = local.get(name).unwrap();
        match remote_content.get(name) {
            Some(meta) => job.push(
                Task::Replace { local: physical.clone(), remote: name.clone(), remote_checksum: meta.checksum },
            ),
            None => job.push(Task::Put { local: physical.clone(), remote: name.clone() }),
        }
        j += 1;
    }
    let removals = must_remove(local, remote_content, ignore);
    let ghost rm = names_of(removals@);
    let ghost head = job@;
    let mut k: usize = 0;
    while k < removals.len()
        invariant
            k <= removals@.len(),
            job@.len() == n + k,
            head.len() == n,
            n == on.len(),
            rm == names_of(removals@),
            forall|q: int| 0 <= q < n ==> transfers(local@, remote_content@, #[trigger] head[q])
                && head[q].remote_name() == on[q],
            forall|q: int| 0 <= q < n ==> job@[q] == head[q],
            forall|q: int| 0 <= q < k ==> (#[trigger] job@[n + q]) is Delete && job@[n + q].remote_name() == rm[q],
        decreases removals@.len() - k,
    {
        job.push(Task::Delete { remote: removals[k].clone() });
        k += 1;
    }
    proof {
        let tn = task_names(job@);
        assert(tn.len() == job@.len());
        assert(ordered@.len() == n);
        assert(on.len() == n);
        assert(rm.len() == removals@.len());
        assert(tn =~= on + rm) by {
            assert forall|q: int| 0 <= q < tn.len() implies tn[q] == (on + rm)[q] by {
                if q >= n {
                    let q2 = q - n;
                    assert(job@[n + q2] is Delete && job@[n + q2].remote_name() == rm[q2]);
                    assert(n + q2 == q);
                    assert((on + rm)[q] == rm[q2]);
                } else {
                    assert(job@[q] == head[q]);
                    assert(transfers(local@, remote_content@, head[q]) && head[q].remote_name() == on[q]);
                }
            }
        }
        assert forall|q: int| n <= q < job@.len() implies (#[trigger] job@[q]) is Delete
            && removable(local@, remote_content@, ignore@, job@[q].remote_name()) by {
            assert(job@[n + (q - n)] == job@[q]);
            assert(rm.contains(rm[q - n]));
        }
        assert forall|a: int, b: int| 0 <= a < tn.len() && 0 <= b < tn.len() && a != b implies tn[a] != tn[b] by {
            if a < n && b >= n {
                assert(rm.contains(tn[b]));
                assert(on.to_set().contains(tn[a]));
            } else if b < n && a >= n {
                assert(rm.contains(tn[a]));
                assert(on.to_set().contains(tn[b]));
            }
        }
        assert forall|key: Seq<char>| #![trigger local@.contains_key(key)] #![trigger remote_content@.contains_key(key)]
            (local@.contains_key(key) || removable(local@, remote_content@, ignore@, key)) implies tn.contains(key) by {
            if local@.contains_key(key) {
                assert(on.to_set().contains(key));
                let q = choose|q: int| 0 <= q < on.len() && #[trigger] on[q] == key;
                assert(tn[q] == key);
            } else {
                assert(rm.contains(key));
                let q = choose|q: int| 0 <= q < rm.len() && #[trigger] rm[q] == key;
                assert(tn[n + q] == key);
            }
        }
        assert(tn.take(n as int) =~= on);
        assert(local@.dom().len() == n);
        assert forall|q: int| 0 <= q < n implies transfers(local@, remote_content@, #[trigger] job@[q]) by {
            assert(job@[q] == head[q]);
        }
        assert(planning_sorted(tn.take(n as int)));
        assert(tn.no_duplicates());
    }
    job
}

/// A plan holds one task for each name that is local, or remote only and unprotected,
/// and no other; its kind is `Put` exactly when the remote lacks the name, `Replace`
/// exactly when both sides have it, and `Delete` exactly when only the remote has it and
/// no protected prefix covers it.
pub proof fn lemma_plan_one_task_per_name(
    local: Map<Seq<char>, String>,
    remote: Map<Seq<char>, FileMeta>,
    prefixes: Seq<String>,
    tasks: Seq<Task>,
)
    requires
        is_plan(local, remote, prefixes, tasks),
    ensures
        task_names(tasks).no_duplicates(),
        forall|k: Seq<char>| #[trigger] task_names(tasks).contains(k) <==> (local.contains_key(k)
            || removable(local, remote, prefixes, k)),
        forall|i: int| #![trigger tasks[i]] 0 <= i < tasks.len() ==> {
            let k = tasks[i].remote_name();
            &&& (tasks[i] is Put <==> !remote.contains_key(k))
            &&& (tasks[i] is Replace <==> local.contains_key(k) && remote.contains_key(k))
            &&& (tasks[i] is Delete <==> remote.contains_key(k) && !local.contains_key(k) && !is_protected(k, prefixes))
        },
{
    let n = local.dom().len() as int;
    let tn = task_names(tasks);
    assert forall|k: Seq<char>| #[trigger] tn.contains(k) implies (local.contains_key(k)
        || removable(local, remote, prefixes, k)) by {
        let i = choose|i: int| 0 <= i < tn.len() && tn[i] == k;
        if i < n {
            assert(transfers(local, remote, tasks[i]));
        } else {
            assert(tasks[i] is Delete);
        }
    }
    assert forall|k: Seq<char>| (local.contains_key(k) || removable(local, remote, prefixes, k)) implies #[trigger] tn.contains(k) by {
        if local.contains_key(k) {
        } else {
            assert(remote.contains_key(k));
        }
    }
    assert forall|i: int| #![trigger tasks[i]] 0 <= i < tasks.len() implies {
        let k = tasks[i].remote_name();
        &&& (tasks[i] is Put <==> !remote.contains_key(k))
        &&& (tasks[i] is Replace <==> local.contains_key(k) && remote.contains_key(k))
        &&& (tasks[i] is Delete <==> remote.contains_key(k) && !local.contains_key(k) && !is_protected(k, prefixes))
    } by {
        if i < n {
            assert(transfers(local, remote, tasks[i]));
        } else {
            assert(tasks[i] is Delete);
        }
    }
}

/// In the upload segment of a plan, every name not ending in `.html` or `.htm` comes before
/// every name that does, and names are ascending within each group.
pub proof fn lemma_plan_pages_last(
    local: Map<Seq<char>, String>,
    remote: Map<Seq<char>, FileMeta>,
    prefixes: Seq<String>,
    tasks: Seq<Task>,
)
    requires
        is_plan(local, remote, prefixes, tasks),
    ensures
        forall|i: int| 0 <= i < local.dom().len() ==> !(#[trigger] tasks[i] is Delete),
        forall|i: int, j: int| 0 <= i < j < local.dom().len() ==> {
            let a = (#[trigger] tasks[i]).remote_name();
            let b = (#[trigger] tasks[j]).remote_name();
            &&& !(is_html(a) && !is_html(b))
            &&& (is_html(a) == is_html(b) ==> lex_lt(a, b))
        },
{
    let n = local.dom().len() as int;
    let tn = task_names(tasks);
    assert forall|i: int| 0 <= i < n implies !(#[trigger] tasks[i] is Delete) by {
        assert(transfers(local, remote, tasks[i]));
    }
    assert forall|i: int, j: int| 0 <= i < j < n implies {
        let a = (#[trigger] tasks[i]).remote_name();
        let b = (#[trigger] tasks[j]).remote_name();
        &&& !(is_html(a) && !is_html(b))
        &&& (is_html(a) == is_html(b) ==> lex_lt(a, b))
    } by {
        assert(tn.take(n)[i] == tasks[i].remote_name());
        assert(tn.take(n)[j] == tasks[j].remote_name());
    }
}

/// A plan never deletes a name that starts with a protected prefix.
pub proof fn lemma_plan_keeps_protected(
    local: Map<Seq<char>, String>,
    remote: Map<Seq<char>, FileMeta>,
    prefixes: Seq<String>,
    tasks: Seq<Task>,
)
    requires
        is_plan(local, remote, prefixes, tasks),
    ensures
        forall|i: int| 0 <= i < tasks.len() && (#[trigger] tasks[i]) is Delete ==> !is_protected(
            tasks[i].remote_name(),
            prefixes,
        ),
{
    assert forall|i: int| 0 <= i < tasks.len() && (#[trigger] tasks[i]) is Delete implies !is_protected(
        tasks[i].remote_name(),
        prefixes,
    ) by {
        if i < local.dom().len() {
            assert(transfers(local, remote, tasks[i]));
        }
    }
}

/// The remote already mirrors the local tree: every local name is there with the digest of
/// the content of its local file, and every other remote name is protected.
pub open spec fn in_sync(
    local: Map<Seq<char>, String>,
    remote: Map<Seq<char>, FileMeta>,
    prefixes: Seq<String>,
    contents: Map<Seq<char>, Seq<u8>>,
) -> bool {
    &&& forall|k: Seq<char>| #[trigger] local.contains_key(k) ==> remote.contains_key(k)
        && contents.contains_key(local[k]@) && checksum_agrees(remote[k].checksum, sha256_of(contents[local[k]@]))
    &&& forall|k: Seq<char>| #[trigger] remote.contains_key(k) && !local.contains_key(k) ==> is_protected(k, prefixes)
}

/// Planning against a remote that is already in sync gives only comparisons, and each of
/// them resolves to `Ignore` on the current local content.
pub proof fn lemma_synced_plan_ignores_all(
    local: Map<Seq<char>, String>,
    remote: Map<Seq<char>, FileMeta>,
    prefixes: Seq<String>,
    contents: Map<Seq<char>, Seq<u8>>,
    tasks: Seq<Task>,
)
    requires
        is_plan(local, remote, prefixes, tasks),
        in_sync(local, remote, prefixes, contents),
    ensures
        forall|i: int| 0 <= i < tasks.len() ==> (#[trigger] tasks[i]) is Replace,
        forall|i: int, a: Action| #![trigger resolves_to(tasks[i], a, contents[tasks[i].local_name()->0], sniffed_mime(contents[tasks[i].local_name()->0]), sha256_of(contents[tasks[i].local_name()->0]))]
            0 <= i < tasks.len() && resolves_to(
            tasks[i],
            a,
            contents[tasks[i].local_name()->0],
            sniffed_mime(contents[tasks[i].local_name()->0]),
            sha256_of(contents[tasks[i].local_name()->0]),
        ) ==> a is Ignore,
{
    let n = local.dom().len() as int;
    assert forall|i: int| 0 <= i < tasks.len() implies (#[trigger] tasks[i]) is Replace by {
        if i < n {
            assert(transfers(local, remote, tasks[i]));
            assert(local.contains_key(tasks[i].remote_name()));
        } else {
            assert(tasks[i] is Delete);
            assert(remote.contains_key(tasks[i].remote_name()));
        }
    }
    assert forall|i: int, a: Action| 0 <= i < tasks.len() && resolves_to(
        tasks[i],
        a,
        contents[tasks[i].local_name()->0],
        sniffed_mime(contents[tasks[i].local_name()->0]),
        sha256_of(contents[tasks[i].local_name()->0]),
    ) implies a is Ignore by {
        assert(tasks[i] is Replace);
        if i >= n {
            assert(tasks[i] is Delete);
        }
        assert(transfers(local, remote, tasks[i]));
        assert(local.contains_key(tasks[i].remote_name()));
    }
}

} // verus!
