//! Names of local files in the remote namespace.
use vstd::prelude::*;
use crate::files::FileMap;
use crate::text::{chars_of, string_of, trim_end_char, trim_end_matches_char, trim_start_char, trim_start_matches_char};

verus! {

/// `path` with a trailing `/`, added unless it is already there.
pub open spec fn normalized(path: Seq<char>) -> Seq<char> {
    if path.len() > 0 && path.last() == '/' {
        path
    } else {
        path.push('/')
    }
}

/// The remote root with its leading and trailing slashes removed.
pub open spec fn bare_root(remote_root: Seq<char>) -> Seq<char> {
    trim_end_char(trim_start_char(remote_root, '/'), '/')
}

/// The remote name of a file at `relative` under the local root.
pub open spec fn remote_name_of(remote_root: Seq<char>, relative: Seq<char>) -> Seq<char> {
    if bare_root(remote_root).len() == 0 {
        relative
    } else {
        bare_root(remote_root).push('/') + relative
    }
}

/// The map that naming `files` (relative name, local path) in order gives, later
/// entries replacing earlier ones of the same name.
pub open spec fn named_files(remote_root: Seq<char>, files: Seq<(String, String)>) -> Map<Seq<char>, String>
    decreases files.len(),
{
    if files.len() == 0 {
        Map::empty()
    } else {
        named_files(remote_root, files.drop_last()).insert(
            remote_name_of(remote_root, files.last().0@),
            files.last().1,
        )
    }
}

/// Ends a directory path with `/`.
pub fn normalize_path(path: &str) -> (r: String)
    ensures
        r@ == normalized(path@),
{
    let mut cs = chars_of(path);
    if cs.len() > 0 && cs[cs.len() - 1] == '/' {
        string_of(&cs)
    } else {
        cs.push('/');
        string_of(&cs)
    }
}

/// The remote name of a file at `relative` under the local root.
pub fn remote_name_for(remote_root: &str, relative: &str) -> (r: String)
    ensures
        r@ == remote_name_of(remote_root@, relative@),
{
    let root = chars_of(remote_root);
    let start = trim_start_matches_char(&root, '/');
    let mut bare = trim_end_matches_char(&start, '/');
    if bare.len() == 0 {
        relative.to_owned()
    } else {
        bare.push('/');
        let mut s = string_of(&bare);
        s.append(relative);
        s
    }
}

/// Names each local file (its path relative to the local root, its local path) in the
/// remote namespace under `remote_root`.
pub fn files_by_remote_name(remote_root: &str, files: Vec<(String, String)>) -> (r: FileMap<String>)
    ensures
        r.wf(),
        r@ == named_files(remote_root@, files@),
{
    let mut by_name: FileMap<String> = FileMap::new();
    let mut i: usize = 0;
    while i < files.len()
        invariant
            i <= files@.len(),
            by_name.wf(),
            by_name@ == named_files(remote_root@, files@.take(i as int)),
        decreases files@.len() - i,
    {
        let name = remote_name_for(remote_root, files[i].0.as_str());
        let path = files[i].1.clone();
        by_name.insert(name, path);
        assert(files@.take(i + 1).drop_last() =~= files@.take(i as int));
        i += 1;
    }
    assert(files@.take(files@.len() as int) =~= files@);
    by_name
}

} // verus!
