//! The remote object store: listing records, per-file metadata, the client configuration,
//! the decisions of the concurrent tree walk, and the normalisation of its results.
use vstd::prelude::*;
use vstd::utf8::encode_utf8;
use crate::digest::{decode_hex_digest, hex_byte, is_hex_digest};
use crate::files::FileMap;
use crate::sync::plan::{is_protected, is_protected_name, names_of};
use crate::text::{chars_of, string_of, trim_end_char, trim_end_matches_char, trim_start_matches_pattern, trim_start_pattern};

verus! {

/// One entry of a directory listing.
#[derive(Debug, Clone)]
pub struct FileInfo {
    pub path: String,
    pub object_name: String,
    pub checksum: Option<String>,
    pub is_directory: bool,
}

/// What the planner knows of a remote file: its recorded content digest, if any.
#[derive(Debug, Clone, Copy, PartialEq, Eq)]
pub struct FileMeta {
    pub checksum: Option<[u8; 32]>,
}

/// A listed file whose checksum is not the hexadecimal form of a 32-byte digest.
#[derive(Debug, Clone, PartialEq, Eq)]
pub struct InvalidChecksum {
    pub path: String,
    pub object_name: String,
}

/// Where and as whom to reach a storage zone. Built once, never changed.
#[derive(Debug, Clone)]
pub struct StorageZoneClient {
    access_key: String,
    endpoint: String,
    storage_zone: String,
}

/// The prefix that the store puts before every path of the zone: `/{zone}/`.
pub open spec fn zone_prefix(storage_zone: Seq<char>) -> Seq<char> {
    seq!['/'] + storage_zone + seq!['/']
}

/// The URL of `path` in the zone.
pub open spec fn url_of(endpoint: Seq<char>, storage_zone: Seq<char>, path: Seq<char>) -> Seq<char> {
    "https://"@ + endpoint + seq!['/'] + storage_zone + seq!['/'] + path
}

/// The parent path of a listed entry relative to the zone root, without trailing slashes;
/// empty at the root.
pub open spec fn parent_in_zone(prefix: Seq<char>, child: FileInfo) -> Seq<char> {
    trim_end_char(trim_start_pattern(child.path@, prefix), '/')
}

/// The path to list for a child directory, relative to the zone root and in the namespace
/// of file names: its parent path and `/` (nothing at the root), then its name and `/`.
/// A directory `assets` at the root gives `assets/`; one under `site` gives `site/assets/`.
pub open spec fn subtree_of(prefix: Seq<char>, child: FileInfo) -> Seq<char> {
    let parent = parent_in_zone(prefix, child);
    if parent.len() == 0 {
        child.object_name@ + seq!['/']
    } else {
        parent + seq!['/'] + child.object_name@ + seq!['/']
    }
}

/// The directories of a listing that are still to be listed, in order: the unprotected ones.
pub open spec fn directories_to_list(prefix: Seq<char>, skip: Seq<String>, children: Seq<FileInfo>) -> Seq<Seq<char>>
    decreases children.len(),
{
    if children.len() == 0 {
        Seq::empty()
    } else {
        let rest = directories_to_list(prefix, skip, children.drop_last());
        let c = children.last();
        if c.is_directory && !is_protected(subtree_of(prefix, c), skip) {
            rest.push(subtree_of(prefix, c))
        } else {
            rest
        }
    }
}

/// The files of a listing, in order.
pub open spec fn plain_files(children: Seq<FileInfo>) -> Seq<FileInfo>
    decreases children.len(),
{
    if children.len() == 0 {
        Seq::empty()
    } else if children.last().is_directory {
        plain_files(children.drop_last())
    } else {
        plain_files(children.drop_last()).push(children.last())
    }
}

/// The checksum text of a listed file, if present and not empty, spells a digest.
pub open spec fn checksum_valid(f: FileInfo) -> bool {
    match f.checksum {
        Some(c) => c@.len() == 0 || is_hex_digest(encode_utf8(c@)),
        None => true,
    }
}

/// The digest that the checksum text of a listed file spells; none when the text is
/// absent or empty.
pub open spec fn listed_checksum(f: FileInfo) -> Option<Seq<u8>> {
    match f.checksum {
        Some(c) => if c@.len() == 0 {
            None
        } else {
            Some(Seq::new(32, |i: int| hex_byte(encode_utf8(c@), i) as u8))
        },
        None => None,
    }
}

/// The name of a listed file relative to the zone root.
pub open spec fn name_in_zone(prefix: Seq<char>, f: FileInfo) -> Seq<char> {
    trim_start_pattern(f.path@, prefix) + f.object_name@
}

/// Listed files by name, later ones replacing earlier ones of the same name.
pub open spec fn indexed_files(prefix: Seq<char>, files: Seq<FileInfo>) -> Map<Seq<char>, Option<Seq<u8>>>
    decreases files.len(),
{
    if files.len() == 0 {
        Map::empty()
    } else {
        indexed_files(prefix, files.drop_last()).insert(name_in_zone(prefix, files.last()), listed_checksum(files.last()))
    }
}

/// The digest held in a file's metadata.
pub open spec fn meta_checksum(m: FileMeta) -> Option<Seq<u8>> {
    match m.checksum {
        Some(d) => Some(d@),
        None => None,
    }
}

/// The remote map `m` holds exactly the names and digests of `index`.
pub open spec fn holds_index(m: Map<Seq<char>, FileMeta>, index: Map<Seq<char>, Option<Seq<u8>>>) -> bool {
    &&& m.dom() == index.dom()
    &&& forall|k: Seq<char>| #[trigger] m.contains_key(k) ==> meta_checksum(m[k]) == index[k]
}

impl StorageZoneClient {
    pub closed spec fn access_key_spec(&self) -> Seq<char> {
        self.access_key@
    }

    pub closed spec fn endpoint_spec(&self) -> Seq<char> {
        self.endpoint@
    }

    pub closed spec fn storage_zone_spec(&self) -> Seq<char> {
        self.storage_zone@
    }

    pub fn new(access_key: String, endpoint: String, storage_zone: String) -> (r: Self)
        ensures
            r.access_key_spec() == access_key@,
            r.endpoint_spec() == endpoint@,
            r.storage_zone_spec() == storage_zone@,
    {
        StorageZoneClient { access_key, endpoint, storage_zone }
    }

    /// The credential sent with every request.
    pub fn access_key(&self) -> (r: &String)
        ensures
            r@ == self.access_key_spec(),
    {
        &self.access_key
    }

    /// The URL of `path` in the zone.
    pub fn url_for(&self, path: &str) -> (r: String)
        ensures
            r@ == url_of(self.endpoint_spec(), self.storage_zone_spec(), path@),
    {
        let mut s = "https://".to_owned();
        s.append(self.endpoint.as_str());
        s.append("/");
        s.append(self.storage_zone.as_str());
        s.append("/");
        s.append(path);
        proof {
            reveal_strlit("/");
            assert(s@ =~= url_of(self.endpoint_spec(), self.storage_zone_spec(), path@));
        }
        s
    }

    /// The prefix `/{zone}/` that listings put before every path.
    pub fn zone_prefix(&self) -> (r: String)
        ensures
            r@ == zone_prefix(self.storage_zone_spec()),
    {
        let mut s = "/".to_owned();
        s.append(self.storage_zone.as_str());
        s.append("/");
        proof {
            reveal_strlit("/");
            assert(s@ =~= zone_prefix(self.storage_zone_spec()));
        }
        s
    }

    /// Starts a walk of the zone's tree that does not descend into protected directories.
    pub fn discovery(&self, skip: Vec<String>) -> (r: Discovery)
        ensures
            r.prefix() == zone_prefix(self.storage_zone_spec()),
            r.skip() == skip@,
            r.pending() == 1,
            r.found() == Seq::<FileInfo>::empty(),
    {
        Discovery::new(self.zone_prefix(), skip)
    }

    /// Indexes listed files by their name relative to the zone root, with each checksum
    /// decoded; fails on the first checksum that is not the hexadecimal form of a digest.
    pub fn files_by_name(&self, files: Vec<FileInfo>) -> (r: Result<FileMap<FileMeta>, InvalidChecksum>)
        ensures
            match r {
                Ok(m) => m.wf() && (forall|i: int| 0 <= i < files@.len() ==> checksum_valid(#[trigger] files@[i]))
                    && holds_index(m@, indexed_files(zone_prefix(self.storage_zone_spec()), files@)),
                Err(e) => exists|i: int|
                    0 <= i < files@.len() && !checksum_valid(#[trigger] files@[i]) && (forall|j: int|
                        0 <= j < i ==> checksum_valid(#[trigger] files@[j])) && e.path@ == files@[i].path@
                        && e.object_name@ == files@[i].object_name@,
            },
    {
        let prefix = self.zone_prefix();
        let pc = chars_of(prefix.as_str());
        let ghost p = prefix@;
        let mut by_name: FileMap<FileMeta> = FileMap::new();
        let mut i: usize = 0;
        while i < files.len()
            invariant
                i <= files@.len(),
                pc@ == p,
                p == zone_prefix(self.storage_zone_spec()),
                by_name.wf(),
                forall|j: int| 0 <= j < i ==> checksum_valid(#[trigger] files@[j]),
                holds_index(by_name@, indexed_files(p, files@.take(i as int))),
            decreases files@.len() - i,
        {
            let f = &files[i];
            let checksum: Option<[u8; 32]> = match &f.checksum {
                Some(text) => if text.as_str().is_empty() {
                    None
                } else {
                    match decode_hex_digest(text.as_str().as_bytes()) {
                    Ok(d) => {
                        proof {
                            let t = encode_utf8(text@);
                            assert(d@ =~= Seq::new(32, |j: int| hex_byte(t, j) as u8));
                        }
                        Some(d)
                    },
                    Err(_) => {
                        return Err(InvalidChecksum { path: f.path.clone(), object_name: f.object_name.clone() });
                    },
                    }
                },
                None => None,
            };
            let pc_path = chars_of(f.path.as_str());
            let trimmed = trim_start_matches_pattern(&pc_path, &pc);
            let mut name = string_of(&trimmed);
            name.append(f.object_name.as_str());
            by_name.insert(name, FileMeta { checksum });
            proof {
                let t1 = files@.take(i + 1);
                assert(t1.drop_last() =~= files@.take(i as int));
                assert(t1.last() == files@[i as int]);
                let idx = indexed_files(p, t1);
                assert(by_name@.dom() =~= idx.dom());
            }
            i += 1;
        }
        assert(files@.take(files@.len() as int) =~= files@);
        Ok(by_name)
    }
}

/// The coordinator's state in a walk of the remote tree: how many listings are still
/// owed, and the files found so far.
pub struct Discovery {
    prefix: String,
    skip: Vec<String>,
    responses_needed: usize,
    files: Vec<FileInfo>,
}

impl Discovery {
    pub closed spec fn prefix(&self) -> Seq<char> {
        self.prefix@
    }

    pub closed spec fn skip(&self) -> Seq<String> {
        self.skip@
    }

    /// Listings requested and not yet handled.
    pub closed spec fn pending(&self) -> nat {
        self.responses_needed as nat
    }

    /// Files found so far, in the order the listings gave them.
    pub closed spec fn found(&self) -> Seq<FileInfo> {
        self.files@
    }

    /// A walk whose first listing, the root, is owed.
    pub fn new(prefix: String, skip: Vec<String>) -> (r: Self)
        ensures
            r.prefix() == prefix@,
            r.skip() == skip@,
            r.pending() == 1,
            r.found() == Seq::<FileInfo>::empty(),
    {
        Discovery { prefix, skip, responses_needed: 1, files: Vec::new() }
    }

    /// Listings still owed.
    pub fn pending_listings(&self) -> (r: usize)
        ensures
            r == self.pending(),
    {
        self.responses_needed
    }

    /// The walk is over: no listing is owed.
    pub fn is_done(&self) -> (r: bool)
        ensures
            r == (self.pending() == 0),
    {
        self.responses_needed == 0
    }

    /// Takes one listing: its files are kept, and its unprotected directories are returned,
    /// to be listed in turn and owed from now on.
    pub fn on_listing(&mut self, listing: Vec<FileInfo>) -> (r: Vec<String>)
        requires
            old(self).pending() > 0,
            old(self).pending() + listing@.len() <= usize::MAX + 1,
        ensures
            names_of(r@) == directories_to_list(old(self).prefix(), old(self).skip(), listing@),
            final(self).pending() == old(self).pending() - 1 + r@.len(),
            final(self).found() == old(self).found() + plain_files(listing@),
            final(self).prefix() == old(self).prefix(),
            final(self).skip() == old(self).skip(),
    {
        self.responses_needed -= 1;
        let ghost orig = listing@;
        let ghost start = self.files@;
        let ghost p = self.prefix@;
        let pc = chars_of(self.prefix.as_str());
        let mut listing = listing;
        let mut out: Vec<String> = Vec::new();
        let mut k: usize = 0;
        while listing.len() > 0
            invariant
                k <= orig.len(),
                listing@ == orig.skip(k as int),
                pc@ == p,
                p == self.prefix@,
                self.prefix@ == old(self).prefix@,
                self.skip@ == old(self).skip@,
                names_of(out@) == directories_to_list(p, self.skip@, orig.take(k as int)),
                out@.len() <= k,
                self.responses_needed == old(self).responses_needed - 1 + out@.len(),
                old(self).pending() + orig.len() <= usize::MAX + 1,
                old(self).pending() > 0,
                self.files@ == start + plain_files(orig.take(k as int)),
                start == old(self).files@,
            decreases listing@.len(),
        {
            assert(k < orig.len());
            let child = listing.remove(0);
            let ghost t1 = orig.take(k + 1);
            proof {
                assert(child == orig[k as int]);
                assert(t1.drop_last() =~= orig.take(k as int));
                assert(t1.last() == child);
            }
            if child.is_directory {
                let path = chars_of(child.path.as_str());
                let stripped = trim_start_matches_pattern(&path, &pc);
                let mut sub = trim_end_matches_char(&stripped, '/');
                let ghost head = if sub@.len() == 0 {
                    Seq::<char>::empty()
                } else {
                    sub@.push('/')
                };
                if sub.len() > 0 {
                    sub.push('/');
                }
                let name = chars_of(child.object_name.as_str());
                let mut j: usize = 0;
                while j < name.len()
                    invariant
                        j <= name@.len(),
                        sub@ == head + name@.take(j as int),
                    decreases name@.len() - j,
                {
                    sub.push(name[j]);
                    j += 1;
                    assert(sub@ =~= head + name@.take(j as int));
                }
                sub.push('/');
                assert(name@.take(name@.len() as int) =~= name@);
                let subtree = string_of(&sub);
                assert(subtree@ =~= subtree_of(p, child));
                if !is_protected_name(&subtree, &self.skip) {
                    self.responses_needed += 1;
                    let ghost before = names_of(out@);
                    out.push(subtree);
                    assert(names_of(out@) =~= before.push(subtree_of(p, child)));
                }
                assert(self.files@ =~= start + plain_files(t1));
            } else {
                self.files.push(child);
                assert(self.files@ =~= start + plain_files(t1));
            }
            proof {
                assert(listing@ =~= orig.skip(k + 1));
            }
            k += 1;
        }
        assert(orig.take(k as int) =~= orig);
        out
    }

    /// The files found by the walk.
    pub fn into_files(self) -> (r: Vec<FileInfo>)
        ensures
            r@ == self.found(),
    {
        self.files
    }
}

} // verus!
