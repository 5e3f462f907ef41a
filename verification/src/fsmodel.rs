//! The filesystem model the engine is verified against: a finite map from
//! absolute paths to entries (regular files with Unix attributes, or
//! symlinks), together with the mount table and the package-ownership
//! oracle's answers, as observed by the caller.

use vstd::prelude::*;

use crate::strutil::{path_under, str_eq};

verus! {

/// What a path resolves to in the modeled filesystem.
pub enum FsEntry {
    /// A regular file with its content and Unix attributes.
    Regular { content: Vec<u8>, mode: u32, uid: u32, gid: u32, immutable: bool },
    /// A symbolic link holding its immediate destination, not followed.
    Symlink { dest: String },
    /// A directory, carried for its immutable attribute.
    Directory { immutable: bool },
}

/// The mathematical value of an [`FsEntry`].
#[verifier::ext_equal]
pub enum EntryV {
    Regular { content: Seq<u8>, mode: u32, uid: u32, gid: u32, immutable: bool },
    Symlink { dest: Seq<char> },
    Directory { immutable: bool },
}

impl View for FsEntry {
    type V = EntryV;

    open spec fn view(&self) -> EntryV {
        match self {
            FsEntry::Regular { content, mode, uid, gid, immutable } => EntryV::Regular {
                content: content@,
                mode: *mode,
                uid: *uid,
                gid: *gid,
                immutable: *immutable,
            },
            FsEntry::Symlink { dest } => EntryV::Symlink { dest: dest@ },
            FsEntry::Directory { immutable } => EntryV::Directory { immutable: *immutable },
        }
    }
}

impl FsEntry {
    /// An exact copy of the entry.
    pub fn duplicate(&self) -> (r: FsEntry)
        ensures
            r@ == self@,
    {
        match self {
            FsEntry::Regular { content, mode, uid, gid, immutable } => {
                let c = content.clone();
                proof {
                    assert(c@ =~= content@);
                }
                FsEntry::Regular {
                    content: c,
                    mode: *mode,
                    uid: *uid,
                    gid: *gid,
                    immutable: *immutable,
                }
            },
            FsEntry::Symlink { dest } => FsEntry::Symlink { dest: dest.clone() },
            FsEntry::Directory { immutable } => FsEntry::Directory { immutable: *immutable },
        }
    }
}

/// A regular entry whose mode has at least one executable bit set.
pub open spec fn entry_is_executable(e: EntryV) -> bool {
    e matches EntryV::Regular { mode, .. } && mode & 0o111 != 0
}

/// An entry carrying the immutable filesystem attribute.
pub open spec fn entry_is_immutable(e: EntryV) -> bool {
    match e {
        EntryV::Regular { immutable, .. } => immutable,
        EntryV::Directory { immutable } => immutable,
        EntryV::Symlink { .. } => false,
    }
}

/// The immutable attribute blocks rename or unlink at `t` when the entry at
/// `t` itself, or the one at its lexical parent directory, carries it.
pub open spec fn spec_immutable_blocked(m: Map<Seq<char>, EntryV>, t: Seq<char>) -> bool {
    ||| (m.contains_key(t) && entry_is_immutable(m[t]))
    ||| (match crate::paths::spec_parent_dir(t) {
        Some(d) => m.contains_key(d) && entry_is_immutable(m[d]),
        Option::None => false,
    })
}

/// One mount in the model, identified by the path prefix it governs.
pub struct Mount {
    pub prefix: String,
    pub read_only: bool,
    pub no_exec: bool,
}

/// The mathematical value of a [`Mount`].
#[verifier::ext_equal]
pub struct MountV {
    pub prefix: Seq<char>,
    pub read_only: bool,
    pub no_exec: bool,
}

impl View for Mount {
    type V = MountV;

    open spec fn view(&self) -> MountV {
        MountV { prefix: self.prefix@, read_only: self.read_only, no_exec: self.no_exec }
    }
}

/// One path bound to its entry.
pub struct FsNode {
    pub path: String,
    pub entry: FsEntry,
}

/// The modeled filesystem: entries keyed by absolute path, the mount table,
/// and the set of paths that the package-ownership oracle reports as owned.
pub struct FsState {
    entries: Vec<FsNode>,
    mounts: Vec<Mount>,
    owned_paths: Vec<String>,
}

/// Fold an association sequence into a map; later bindings win, which is
/// immaterial here because well-formed states have distinct keys.
pub open spec fn map_of(s: Seq<(Seq<char>, EntryV)>) -> Map<Seq<char>, EntryV>
    decreases s.len(),
{
    if s.len() == 0 {
        Map::empty()
    } else {
        map_of(s.drop_last()).insert(s.last().0, s.last().1)
    }
}

/// Pairwise-distinct keys.
pub open spec fn distinct_keys(s: Seq<(Seq<char>, EntryV)>) -> bool {
    forall|i: int, j: int| 0 <= i < j < s.len() ==> (#[trigger] s[i]).0 != (#[trigger] s[j]).0
}

pub proof fn lemma_map_of_absent(s: Seq<(Seq<char>, EntryV)>, k: Seq<char>)
    requires
        forall|i: int| 0 <= i < s.len() ==> (#[trigger] s[i]).0 != k,
    ensures
        !map_of(s).contains_key(k),
    decreases s.len(),
{
    if s.len() > 0 {
        lemma_map_of_absent(s.drop_last(), k);
    }
}

pub proof fn lemma_map_of_index(s: Seq<(Seq<char>, EntryV)>, i: int)
    requires
        distinct_keys(s),
        0 <= i < s.len(),
    ensures
        map_of(s).contains_key(s[i].0),
        map_of(s)[s[i].0] == s[i].1,
    decreases s.len(),
{
    if i == s.len() - 1 {
    } else {
        assert(distinct_keys(s.drop_last())) by {
            assert(forall|x: int| 0 <= x < s.len() - 1 ==> s.drop_last()[x] == s[x]);
        }
        lemma_map_of_index(s.drop_last(), i);
        assert(s.last().0 != s[i].0);
    }
}

pub proof fn lemma_map_of_update(s: Seq<(Seq<char>, EntryV)>, i: int, v: EntryV)
    requires
        distinct_keys(s),
        0 <= i < s.len(),
    ensures
        map_of(s.update(i, (s[i].0, v))) =~= map_of(s).insert(s[i].0, v),
    decreases s.len(),
{
    let k = s[i].0;
    let t = s.update(i, (k, v));
    if i == s.len() - 1 {
        assert(t.drop_last() =~= s.drop_last());
        assert(t.last() == (k, v));
    } else {
        assert(distinct_keys(s.drop_last())) by {
            assert(forall|x: int| 0 <= x < s.len() - 1 ==> s.drop_last()[x] == s[x]);
        }
        lemma_map_of_update(s.drop_last(), i, v);
        assert(t.drop_last() =~= s.drop_last().update(i, (k, v)));
        assert(t.last() == s.last());
        assert(s.last().0 != k);
    }
}

pub proof fn lemma_map_of_remove(s: Seq<(Seq<char>, EntryV)>, i: int)
    requires
        distinct_keys(s),
        0 <= i < s.len(),
    ensures
        map_of(s.remove(i)) =~= map_of(s).remove(s[i].0),
    decreases s.len(),
{
    let k = s[i].0;
    if i == s.len() - 1 {
        assert(s.remove(i) =~= s.drop_last());
        assert(forall|x: int| 0 <= x < s.len() - 1 ==> (#[trigger] s.drop_last()[x]).0 != k);
        lemma_map_of_absent(s.drop_last(), k);
        assert(map_of(s.drop_last()).insert(k, s[i].1).remove(k) =~= map_of(s.drop_last()));
    } else {
        assert(distinct_keys(s.drop_last())) by {
            assert(forall|x: int| 0 <= x < s.len() - 1 ==> s.drop_last()[x] == s[x]);
        }
        lemma_map_of_remove(s.drop_last(), i);
        assert(s.remove(i).drop_last() =~= s.drop_last().remove(i));
        assert(s.remove(i).last() == s.last());
        assert(s.last().0 != k);
    }
}

impl FsState {
    /// The association sequence of paths to entry values.
    pub closed spec fn nodes_view(&self) -> Seq<(Seq<char>, EntryV)> {
        Seq::new(self.entries@.len(), |i: int| (self.entries@[i].path@, self.entries@[i].entry@))
    }

    /// The filesystem as a map from absolute path to entry.
    pub closed spec fn as_map(&self) -> Map<Seq<char>, EntryV> {
        map_of(self.nodes_view())
    }

    /// The mount table.
    pub closed spec fn mounts_view(&self) -> Seq<MountV> {
        Seq::new(self.mounts@.len(), |i: int| self.mounts@[i]@)
    }

    /// The paths the ownership oracle reported as owned by some package.
    pub closed spec fn owned_view(&self) -> Seq<Seq<char>> {
        Seq::new(self.owned_paths@.len(), |i: int| self.owned_paths@[i]@)
    }

    /// Well-formedness: every path is bound at most once.
    pub closed spec fn wf(&self) -> bool {
        distinct_keys(self.nodes_view())
    }

    /// An empty filesystem model with no mounts and no ownership facts.
    pub fn new() -> (r: FsState)
        ensures
            r.wf(),
            r.as_map() == Map::<Seq<char>, EntryV>::empty(),
            r.mounts_view() == Seq::<MountV>::empty(),
            r.owned_view() == Seq::<Seq<char>>::empty(),
    {
        let r = FsState { entries: Vec::new(), mounts: Vec::new(), owned_paths: Vec::new() };
        proof {
            assert(r.nodes_view() =~= Seq::<(Seq<char>, EntryV)>::empty());
            assert(r.mounts_view() =~= Seq::<MountV>::empty());
            assert(r.owned_view() =~= Seq::<Seq<char>>::empty());
        }
        r
    }

    /// Declare a mount in the model.
    pub fn add_mount(&mut self, prefix: String, read_only: bool, no_exec: bool)
        ensures
            final(self).mounts_view() == old(self).mounts_view().push(
                MountV { prefix: prefix@, read_only, no_exec },
            ),
            final(self).as_map() == old(self).as_map(),
            final(self).owned_view() == old(self).owned_view(),
            final(self).wf() == old(self).wf(),
    {
        let ghost gprefix = prefix@;
        self.mounts.push(Mount { prefix, read_only, no_exec });
        proof {
            assert(self.mounts_view() =~= old(self).mounts_view().push(
                MountV { prefix: gprefix, read_only, no_exec },
            ));
            assert(self.nodes_view() =~= old(self).nodes_view());
            assert(self.owned_view() =~= old(self).owned_view());
        }
    }

    /// Record that the ownership oracle found an owning package for a path.
    pub fn add_owned(&mut self, path: String)
        ensures
            final(self).owned_view() == old(self).owned_view().push(path@),
            final(self).as_map() == old(self).as_map(),
            final(self).mounts_view() == old(self).mounts_view(),
            final(self).wf() == old(self).wf(),
    {
        let ghost gpath = path@;
        self.owned_paths.push(path);
        proof {
            assert(self.owned_view() =~= old(self).owned_view().push(gpath));
            assert(self.nodes_view() =~= old(self).nodes_view());
            assert(self.mounts_view() =~= old(self).mounts_view());
        }
    }

    /// Find the index of a path among the entries.
    fn find_index(&self, path: &str) -> (r: Option<usize>)
        ensures
            match r {
                Some(i) => i < self.nodes_view().len() && self.nodes_view()[i as int].0 == path@,
                None => forall|i: int|
                    0 <= i < self.nodes_view().len() ==> (#[trigger] self.nodes_view()[i]).0
                        != path@,
            },
    {
        let mut i: usize = 0;
        while i < self.entries.len()
            invariant
                i <= self.entries.len(),
                forall|j: int| 0 <= j < i ==> (#[trigger] self.nodes_view()[j]).0 != path@,
            decreases self.entries.len() - i,
        {
            if str_eq(self.entries[i].path.as_str(), path) {
                return Some(i);
            }
            i += 1;
        }
        None
    }

    /// Look up the entry at a path.
    pub fn lookup(&self, path: &str) -> (r: Option<&FsEntry>)
        requires
            self.wf(),
        ensures
            match r {
                Some(e) => self.as_map().contains_key(path@) && e@ == self.as_map()[path@],
                None => !self.as_map().contains_key(path@),
            },
    {
        match self.find_index(path) {
            Some(i) => {
                proof {
                    lemma_map_of_index(self.nodes_view(), i as int);
                }
                Some(&self.entries[i].entry)
            },
            None => {
                proof {
                    lemma_map_of_absent(self.nodes_view(), path@);
                }
                None
            },
        }
    }

    /// Bind a path to an entry, replacing any previous binding.
    pub fn store(&mut self, path: &str, entry: FsEntry)
        requires
            old(self).wf(),
        ensures
            final(self).wf(),
            final(self).as_map() == old(self).as_map().insert(path@, entry@),
            final(self).mounts_view() == old(self).mounts_view(),
            final(self).owned_view() == old(self).owned_view(),
    {
        let ghost geview = entry@;
        match self.find_index(path) {
            Some(i) => {
                proof {
                    lemma_map_of_update(self.nodes_view(), i as int, geview);
                }
                let owned_path = path.to_owned();
                self.entries[i] = FsNode { path: owned_path, entry };
                proof {
                    assert(self.nodes_view() =~= old(self).nodes_view().update(
                        i as int,
                        (path@, geview),
                    ));
                    assert(distinct_keys(self.nodes_view())) by {
                        assert(forall|x: int|
                            0 <= x < self.nodes_view().len() ==> (#[trigger] self.nodes_view()[x]).0
                                == old(self).nodes_view()[x].0);
                    }
                    assert(self.mounts_view() =~= old(self).mounts_view());
                    assert(self.owned_view() =~= old(self).owned_view());
                }
            },
            None => {
                let owned_path = path.to_owned();
                self.entries.push(FsNode { path: owned_path, entry });
                proof {
                    assert(self.nodes_view() =~= old(self).nodes_view().push((path@, geview)));
                    assert(self.nodes_view().drop_last() =~= old(self).nodes_view());
                    assert(distinct_keys(self.nodes_view())) by {
                        assert(forall|x: int|
                            0 <= x < old(self).nodes_view().len() ==> self.nodes_view()[x] == old(
                                self,
                            ).nodes_view()[x]);
                    }
                    assert(self.mounts_view() =~= old(self).mounts_view());
                    assert(self.owned_view() =~= old(self).owned_view());
                }
            },
        }
    }

    /// Remove the binding at a path and hand its entry back, if any.
    pub fn take_entry(&mut self, path: &str) -> (r: Option<FsEntry>)
        requires
            old(self).wf(),
        ensures
            final(self).wf(),
            final(self).mounts_view() == old(self).mounts_view(),
            final(self).owned_view() == old(self).owned_view(),
            match r {
                Some(e) => {
                    &&& old(self).as_map().contains_key(path@)
                    &&& e@ == old(self).as_map()[path@]
                    &&& final(self).as_map() == old(self).as_map().remove(path@)
                },
                None => {
                    &&& !old(self).as_map().contains_key(path@)
                    &&& final(self).as_map() == old(self).as_map()
                },
            },
    {
        match self.find_index(path) {
            Some(i) => {
                proof {
                    lemma_map_of_index(self.nodes_view(), i as int);
                    lemma_map_of_remove(self.nodes_view(), i as int);
                }
                let node = self.entries.remove(i);
                proof {
                    assert(self.nodes_view() =~= old(self).nodes_view().remove(i as int));
                    assert(distinct_keys(self.nodes_view())) by {
                        assert(forall|x: int|
                            0 <= x < self.nodes_view().len() ==> (#[trigger] self.nodes_view()[x])
                                == if x < i as int {
                                old(self).nodes_view()[x]
                            } else {
                                old(self).nodes_view()[x + 1]
                            });
                    }
                    assert(self.mounts_view() =~= old(self).mounts_view());
                    assert(self.owned_view() =~= old(self).owned_view());
                }
                Some(node.entry)
            },
            None => {
                proof {
                    lemma_map_of_absent(self.nodes_view(), path@);
                }
                None
            },
        }
    }

    /// Decide [`spec_immutable_blocked`]: the immutable attribute on the
    /// entry itself or on its parent directory.
    pub fn immutable_blocked(&self, target: &str) -> (r: bool)
        requires
            self.wf(),
        ensures
            r == spec_immutable_blocked(self.as_map(), target@),
    {
        let own = match self.lookup(target) {
            Some(FsEntry::Regular { immutable, .. }) => *immutable,
            Some(FsEntry::Directory { immutable }) => *immutable,
            _ => false,
        };
        if own {
            return true;
        }
        match crate::paths::parent_dir(target) {
            Some(d) => match self.lookup(d.as_str()) {
                Some(FsEntry::Regular { immutable, .. }) => *immutable,
                Some(FsEntry::Directory { immutable }) => *immutable,
                _ => false,
            },
            None => false,
        }
    }

    /// Whether the ownership oracle found an owner for this path.
    pub fn is_owned(&self, path: &str) -> (r: bool)
        ensures
            r == self.owned_view().contains(path@),
    {
        let mut i: usize = 0;
        while i < self.owned_paths.len()
            invariant
                i <= self.owned_paths.len(),
                forall|j: int| 0 <= j < i ==> self.owned_view()[j] != path@,
            decreases self.owned_paths.len() - i,
        {
            if str_eq(self.owned_paths[i].as_str(), path) {
                proof {
                    assert(self.owned_view()[i as int] == path@);
                }
                return true;
            }
            i += 1;
        }
        proof {
            if self.owned_view().contains(path@) {
                let w = choose|j: int|
                    0 <= j < self.owned_view().len() && self.owned_view()[j] == path@;
                assert(self.owned_view()[w] != path@);
            }
        }
        false
    }
}

/// The governing mount for a path: the first one, in table order, with the
/// longest prefix covering the path; a longer prefix later in the table wins.
pub open spec fn spec_best_mount(mounts: Seq<MountV>, p: Seq<char>) -> Option<MountV>
    decreases mounts.len(),
{
    if mounts.len() == 0 {
        Option::None
    } else {
        let prev = spec_best_mount(mounts.drop_last(), p);
        let m = mounts.last();
        if path_under(m.prefix, p) {
            match prev {
                Option::None => Some(m),
                Option::Some(b) => if m.prefix.len() > b.prefix.len() {
                    Some(m)
                } else {
                    Some(b)
                },
            }
        } else {
            prev
        }
    }
}

/// A path's governing mount, if any, is neither read-only nor `noexec`.
pub open spec fn spec_mount_suitable(mounts: Seq<MountV>, p: Seq<char>) -> bool {
    match spec_best_mount(mounts, p) {
        Option::None => true,
        Option::Some(m) => !m.read_only && !m.no_exec,
    }
}

impl FsState {
    /// Decide [`spec_mount_suitable`] for a path against the mount table.
    pub fn mount_suitable(&self, path: &str) -> (r: bool)
        ensures
            r == spec_mount_suitable(self.mounts_view(), path@),
    {
        let ghost gmounts = self.mounts_view();
        let mut best: Option<Mount> = None;
        let mut i: usize = 0;
        proof {
            assert(gmounts.take(0) =~= Seq::<MountV>::empty());
        }
        while i < self.mounts.len()
            invariant
                i <= self.mounts.len(),
                gmounts == self.mounts_view(),
                gmounts.len() == self.mounts@.len(),
                match best {
                    Some(b) => spec_best_mount(gmounts.take(i as int), path@) == Some(b@),
                    None => spec_best_mount(gmounts.take(i as int), path@) is None,
                },
            decreases self.mounts.len() - i,
        {
            proof {
                assert(gmounts.take(i + 1).drop_last() =~= gmounts.take(i as int));
                assert(gmounts.take(i + 1).last() == gmounts[i as int]);
            }
            let m = &self.mounts[i];
            if crate::strutil::is_under(m.prefix.as_str(), path) {
                let replace = match &best {
                    None => true,
                    Some(b) => m.prefix.as_str().unicode_len() > b.prefix.as_str().unicode_len(),
                };
                if replace {
                    best = Some(
                        Mount {
                            prefix: m.prefix.clone(),
                            read_only: m.read_only,
                            no_exec: m.no_exec,
                        },
                    );
                }
            }
            i += 1;
        }
        proof {
            assert(gmounts.take(self.mounts@.len() as int) =~= gmounts);
        }
        match best {
            None => true,
            Some(b) => !b.read_only && !b.no_exec,
        }
    }
}

} // verus!
