//! Lexical path handling: splitting into components, normalization that
//! resolves `.` and `..` without touching the filesystem, deterministic
//! backup naming, and [`SafePath`], a path proven to stay under its root.

use vstd::prelude::*;

use crate::errors::Error;
use crate::strutil::{path_under, str_eq};

verus! {

/// Split a character sequence on `/`, keeping empty components, so that
/// `"/usr//bin"` yields `["", "usr", "", "bin"]`.
pub open spec fn split_slash(s: Seq<char>) -> Seq<Seq<char>>
    decreases s.len(),
{
    if s.len() == 0 {
        seq![Seq::<char>::empty()]
    } else {
        let rest = split_slash(s.drop_last());
        if s.last() == '/' {
            rest.push(Seq::<char>::empty())
        } else {
            rest.update(rest.len() - 1, rest.last().push(s.last()))
        }
    }
}

pub proof fn lemma_split_slash_len(s: Seq<char>)
    ensures
        split_slash(s).len() >= 1,
    decreases s.len(),
{
    if s.len() > 0 {
        lemma_split_slash_len(s.drop_last());
    }
}

/// No component produced by [`split_slash`] contains a `/`.
pub proof fn lemma_split_slash_no_slash(s: Seq<char>)
    ensures
        forall|i: int, j: int|
            0 <= i < split_slash(s).len() && 0 <= j < split_slash(s)[i].len() ==> split_slash(
                s,
            )[i][j] != '/',
    decreases s.len(),
{
    if s.len() > 0 {
        lemma_split_slash_no_slash(s.drop_last());
        lemma_split_slash_len(s.drop_last());
    }
}

/// Split a path string into its raw slash-separated components.
pub fn split_path(s: &str) -> (r: Vec<String>)
    ensures
        r.deep_view() == split_slash(s@),
{
    let len = s.unicode_len();
    let mut comps: Vec<String> = Vec::new();
    let mut start: usize = 0;
    let mut i: usize = 0;
    proof {
        assert(s@.take(0) =~= Seq::<char>::empty());
        assert(s@.subrange(0, 0) =~= Seq::<char>::empty());
        assert(comps.deep_view() =~= Seq::<Seq<char>>::empty());
        assert(split_slash(s@.take(0)) =~= comps.deep_view().push(s@.subrange(0, 0)));
    }
    while i < len
        invariant
            start <= i <= len,
            len == s@.len(),
            split_slash(s@.take(i as int)) == comps.deep_view().push(
                s@.subrange(start as int, i as int),
            ),
        decreases len - i,
    {
        let ghost prev = s@.take(i as int);
        let c = s.get_char(i);
        proof {
            assert(s@.take(i + 1).drop_last() =~= prev);
            assert(s@.take(i + 1).last() == s@[i as int]);
        }
        if c == '/' {
            let piece = s.substring_char(start, i);
            let piece_string = piece.to_owned();
            comps.push(piece_string);
            start = i + 1;
            proof {
                assert(split_slash(s@.take(i + 1)) == split_slash(prev).push(
                    Seq::<char>::empty(),
                ));
                assert(s@.subrange(start as int, i + 1) =~= Seq::<char>::empty());
                assert(comps.deep_view() == split_slash(prev));
            }
        } else {
            proof {
                let old_split = split_slash(prev);
                assert(old_split == comps.deep_view().push(s@.subrange(start as int, i as int)));
                assert(old_split.len() == comps.deep_view().len() + 1);
                assert(split_slash(s@.take(i + 1)) == old_split.update(
                    old_split.len() - 1,
                    old_split.last().push(s@[i as int]),
                ));
                assert(old_split.last() == s@.subrange(start as int, i as int));
                assert(s@.subrange(start as int, i as int).push(s@[i as int]) =~= s@.subrange(
                    start as int,
                    i + 1,
                ));
                assert(old_split.update(old_split.len() - 1, s@.subrange(start as int, i + 1))
                    =~= comps.deep_view().push(s@.subrange(start as int, i + 1)));
            }
        }
        i += 1;
    }
    let piece = s.substring_char(start, len);
    let piece_string = piece.to_owned();
    comps.push(piece_string);
    proof {
        assert(s@.take(len as int) =~= s@);
        assert(comps.deep_view() =~= split_slash(s@));
    }
    comps
}

/// A path is traversal-free when none of its components is `..`.
pub open spec fn spec_is_safe_path(s: Seq<char>) -> bool {
    forall|i: int|
        0 <= i < split_slash(s).len() ==> #[trigger] split_slash(s)[i] != seq!['.', '.']
}

/// Validate a path against directory traversal: it is safe exactly when no
/// slash-separated component is `..`.
pub fn is_safe_path(path: &str) -> (r: bool)
    ensures
        r == spec_is_safe_path(path@),
{
    let comps = split_path(path);
    let mut i: usize = 0;
    while i < comps.len()
        invariant
            i <= comps.len(),
            comps.deep_view() == split_slash(path@),
            forall|j: int| 0 <= j < i ==> comps.deep_view()[j] != seq!['.', '.'],
        decreases comps.len() - i,
    {
        if str_eq(comps[i].as_str(), "..") {
            proof {
                reveal_strlit("..");
                assert(comps.deep_view()[i as int] =~= seq!['.', '.']);
            }
            return false;
        }
        proof {
            reveal_strlit("..");
            assert(comps.deep_view()[i as int] != seq!['.', '.']) by {
                if comps.deep_view()[i as int] == seq!['.', '.'] {
                    assert(comps[i as int]@ =~= ".."@);
                }
            }
        }
        i += 1;
    }
    true
}

/// The index of the last `/` in `s`, or `-1` when there is none.
pub open spec fn last_slash(s: Seq<char>) -> int
    decreases s.len(),
{
    if s.len() == 0 {
        -1
    } else if s.last() == '/' {
        s.len() - 1
    } else {
        last_slash(s.drop_last())
    }
}

/// The backup file name derived from a target's base name.
pub open spec fn spec_backup_name(base: Seq<char>) -> Seq<char> {
    "."@ + base + ".oxidizr.bak"@
}

/// The deterministic backup path beside a target: the base name is prefixed
/// with `.` and suffixed with `.oxidizr.bak`, in the target's directory.
pub open spec fn spec_backup_path(t: Seq<char>) -> Seq<char> {
    if last_slash(t) >= 0 {
        t.take(last_slash(t) + 1) + spec_backup_name(t.skip(last_slash(t) + 1))
    } else {
        spec_backup_name(t)
    }
}

pub proof fn lemma_last_slash_bounds(s: Seq<char>)
    ensures
        -1 <= last_slash(s) < s.len(),
    decreases s.len(),
{
    if s.len() > 0 && s.last() != '/' {
        lemma_last_slash_bounds(s.drop_last());
    }
}

/// A backup path is always strictly longer than its target, so the two can
/// never collide.
pub proof fn lemma_backup_path_ne(t: Seq<char>)
    ensures
        spec_backup_path(t).len() == t.len() + 13,
        spec_backup_path(t) != t,
{
    reveal_strlit(".");
    reveal_strlit(".oxidizr.bak");
    lemma_last_slash_bounds(t);
    if spec_backup_path(t) == t {
        assert(spec_backup_path(t).len() == t.len());
    }
}

/// Find the index of the last `/` in a string slice.
fn find_last_slash(s: &str) -> (r: Option<usize>)
    ensures
        match r {
            Some(i) => i < s@.len() && last_slash(s@) == i as int,
            None => last_slash(s@) == -1,
        },
{
    let len = s.unicode_len();
    let mut i: usize = len;
    proof {
        assert(s@.take(len as int) =~= s@);
    }
    while i > 0
        invariant
            i <= len,
            len == s@.len(),
            last_slash(s@) == last_slash(s@.take(i as int)),
        decreases i,
    {
        i = i - 1;
        let ghost prev = s@.take(i as int);
        proof {
            assert(s@.take(i + 1).drop_last() =~= prev);
            assert(s@.take(i + 1).last() == s@[i as int]);
        }
        if s.get_char(i) == '/' {
            return Some(i);
        }
    }
    proof {
        assert(s@.take(0) =~= Seq::<char>::empty());
    }
    None
}

/// The lexical parent directory of a path: the text before its last `/`, or
/// `/` itself for a top-level entry; `None` for the root and for paths
/// without a `/`.
pub open spec fn spec_parent_dir(t: Seq<char>) -> Option<Seq<char>> {
    if last_slash(t) > 0 {
        Some(t.take(last_slash(t)))
    } else if last_slash(t) == 0 && t.len() > 1 {
        Some(seq!['/'])
    } else {
        Option::None
    }
}

/// Compute the lexical parent directory of a path.
pub fn parent_dir(t: &str) -> (r: Option<String>)
    ensures
        match r {
            Some(p) => spec_parent_dir(t@) == Some(p@),
            None => spec_parent_dir(t@) is None,
        },
{
    match find_last_slash(t) {
        Some(i) => {
            if i > 0 {
                let p = t.substring_char(0, i).to_owned();
                proof {
                    assert(t@.subrange(0, i as int) =~= t@.take(i as int));
                }
                Some(p)
            } else if t.unicode_len() > 1 {
                let p = "/".to_owned();
                proof {
                    reveal_strlit("/");
                    assert(p@ =~= seq!['/']);
                }
                Some(p)
            } else {
                None
            }
        },
        None => None,
    }
}

/// Generate the backup path for a target file: `<dir>/.<base>.oxidizr.bak`.
/// Deterministic, and collision-free per directory because the base name is
/// kept whole inside the backup name.
pub fn backup_path(target: &str) -> (r: String)
    ensures
        r@ == spec_backup_path(target@),
{
    let len = target.unicode_len();
    match find_last_slash(target) {
        Some(i) => {
            let mut out = target.substring_char(0, i + 1).to_owned();
            out.append(".");
            out.append(target.substring_char(i + 1, len));
            out.append(".oxidizr.bak");
            proof {
                assert(target@.subrange(0, i + 1) =~= target@.take(i + 1));
                assert(target@.subrange(i + 1, len as int) =~= target@.skip(i + 1));
                assert(out@ =~= spec_backup_path(target@));
            }
            out
        },
        None => {
            let mut out = ".".to_owned();
            out.append(target);
            out.append(".oxidizr.bak");
            proof {
                assert(out@ =~= spec_backup_path(target@));
            }
            out
        },
    }
}

/// A canonical component: nonempty, free of `/`, and neither `.` nor `..`.
pub open spec fn is_canon_comp(c: Seq<char>) -> bool {
    &&& c.len() > 0
    &&& (forall|j: int| 0 <= j < c.len() ==> c[j] != '/')
    &&& c != seq!['.']
    &&& c != seq!['.', '.']
}

pub open spec fn is_canon_comps(cs: Seq<Seq<char>>) -> bool {
    forall|i: int| 0 <= i < cs.len() ==> is_canon_comp(#[trigger] cs[i])
}

/// Lexical normalization of raw components on top of a base stack: empty
/// components and `.` are dropped, `..` pops one entry, and popping at or
/// below the base means the path escapes and yields `None`.
pub open spec fn norm_onto(base: Seq<Seq<char>>, comps: Seq<Seq<char>>) -> Option<Seq<Seq<char>>>
    decreases comps.len(),
{
    if comps.len() == 0 {
        Some(base)
    } else {
        match norm_onto(base, comps.drop_last()) {
            Option::None => Option::None,
            Option::Some(acc) => {
                let c = comps.last();
                if c.len() == 0 || c == seq!['.'] {
                    Some(acc)
                } else if c == seq!['.', '.'] {
                    if acc.len() <= base.len() {
                        Option::None
                    } else {
                        Some(acc.drop_last())
                    }
                } else {
                    Some(acc.push(c))
                }
            },
        }
    }
}

/// A successful normalization keeps the base as a prefix and produces only
/// canonical components, provided the raw components are slash-free.
pub proof fn lemma_norm_onto_props(base: Seq<Seq<char>>, comps: Seq<Seq<char>>)
    requires
        norm_onto(base, comps) is Some,
        is_canon_comps(base),
        forall|i: int, j: int|
            0 <= i < comps.len() && 0 <= j < comps[i].len() ==> #[trigger] comps[i][j] != '/',
    ensures
        norm_onto(base, comps).unwrap().len() >= base.len(),
        norm_onto(base, comps).unwrap().take(base.len() as int) == base,
        is_canon_comps(norm_onto(base, comps).unwrap()),
    decreases comps.len(),
{
    if comps.len() == 0 {
        assert(norm_onto(base, comps).unwrap().take(base.len() as int) =~= base);
    } else {
        let prefix = comps.drop_last();
        assert(forall|i: int, j: int|
            0 <= i < prefix.len() && 0 <= j < prefix[i].len() ==> #[trigger] prefix[i][j] != '/')
            by {
            assert(forall|i: int| 0 <= i < prefix.len() ==> prefix[i] == comps[i]);
        }
        lemma_norm_onto_props(base, prefix);
        let acc = norm_onto(base, prefix).unwrap();
        let res = norm_onto(base, comps).unwrap();
        let c = comps.last();
        if c.len() == 0 || c == seq!['.'] {
            assert(res == acc);
        } else if c == seq!['.', '.'] {
            assert(res == acc.drop_last());
            assert(res.take(base.len() as int) =~= acc.take(base.len() as int));
        } else {
            assert(res == acc.push(c));
            assert(res.take(base.len() as int) =~= acc.take(base.len() as int));
            assert(is_canon_comp(c)) by {
                assert(forall|j: int| 0 <= j < c.len() ==> c[j] != '/') by {
                    assert(c == comps[comps.len() - 1]);
                }
            }
            assert(forall|i: int| 0 <= i < res.len() ==> is_canon_comp(#[trigger] res[i])) by {
                assert(forall|i: int| 0 <= i < acc.len() ==> res[i] == acc[i]);
            }
        }
    }
}

/// Once normalization has failed on a prefix of the components, it fails on
/// the whole sequence.
pub proof fn lemma_norm_none_persists(base: Seq<Seq<char>>, comps: Seq<Seq<char>>, k: int)
    requires
        0 <= k <= comps.len(),
        norm_onto(base, comps.take(k)) is None,
    ensures
        norm_onto(base, comps) is None,
    decreases comps.len() - k,
{
    if k == comps.len() {
        assert(comps.take(k) =~= comps);
    } else {
        assert(comps.take(k + 1).drop_last() =~= comps.take(k));
        lemma_norm_none_persists(base, comps, k + 1);
    }
}

/// Normalize raw components onto a base stack; `None` reports an escape.
fn normalize_onto(base: Vec<String>, comps: &Vec<String>) -> (r: Option<Vec<String>>)
    ensures
        match r {
            Some(v) => norm_onto(base.deep_view(), comps.deep_view()) == Some(v.deep_view()),
            None => norm_onto(base.deep_view(), comps.deep_view()) is None,
        },
{
    let ghost gbase = base.deep_view();
    let ghost gcomps = comps.deep_view();
    let base_len = base.len();
    let mut stack = base;
    let mut i: usize = 0;
    proof {
        assert(gcomps.take(0) =~= Seq::<Seq<char>>::empty());
    }
    while i < comps.len()
        invariant
            i <= comps.len(),
            gcomps == comps.deep_view(),
            gbase == base.deep_view(),
            gbase.len() == base_len as int,
            base_len <= stack.len(),
            norm_onto(gbase, gcomps.take(i as int)) == Some(stack.deep_view()),
        decreases comps.len() - i,
    {
        proof {
            assert(gcomps.take(i + 1).drop_last() =~= gcomps.take(i as int));
            assert(gcomps.take(i + 1).last() == gcomps[i as int]);
        }
        let c = &comps[i];
        if c.as_str().unicode_len() == 0 {
            proof {
                assert(gcomps[i as int].len() == 0);
            }
        } else if str_eq(c.as_str(), ".") {
            proof {
                reveal_strlit(".");
                assert(gcomps[i as int] =~= seq!['.']);
            }
        } else if str_eq(c.as_str(), "..") {
            proof {
                reveal_strlit("..");
                assert(gcomps[i as int] =~= seq!['.', '.']);
            }
            if stack.len() <= base_len {
                proof {
                    assert(stack.deep_view().len() == stack.len() as int);
                    assert(gbase.len() == base_len as int);
                    assert(norm_onto(gbase, gcomps.take(i + 1)) is None);
                    lemma_norm_none_persists(gbase, gcomps, i + 1);
                }
                return None;
            }
            stack.pop();
            proof {
                assert(stack.deep_view().len() >= gbase.len());
            }
        } else {
            proof {
                reveal_strlit(".");
                reveal_strlit("..");
                assert(gcomps[i as int].len() != 0);
                assert(gcomps[i as int] != seq!['.']) by {
                    if gcomps[i as int] == seq!['.'] {
                        assert(c@ =~= "."@);
                    }
                }
                assert(gcomps[i as int] != seq!['.', '.']) by {
                    if gcomps[i as int] == seq!['.', '.'] {
                        assert(c@ =~= ".."@);
                    }
                }
            }
            let piece = c.clone();
            stack.push(piece);
        }
        i += 1;
    }
    proof {
        assert(gcomps.take(comps.len() as int) =~= gcomps);
    }
    Some(stack)
}

/// Render canonical components as an absolute path: `[]` is `/`, otherwise
/// `/` followed by the components joined with `/`.
pub open spec fn join_abs(cs: Seq<Seq<char>>) -> Seq<char>
    decreases cs.len(),
{
    if cs.len() == 0 {
        seq!['/']
    } else if cs.len() == 1 {
        seq!['/'] + cs[0]
    } else {
        join_abs(cs.drop_last()) + seq!['/'] + cs.last()
    }
}

/// Join components into an absolute path string.
fn join_path(comps: &Vec<String>) -> (r: String)
    ensures
        r@ == join_abs(comps.deep_view()),
{
    let ghost gcomps = comps.deep_view();
    let mut out = "/".to_owned();
    proof {
        reveal_strlit("/");
        assert(out@ =~= seq!['/']);
        assert(gcomps.take(0) =~= Seq::<Seq<char>>::empty());
    }
    let mut i: usize = 0;
    while i < comps.len()
        invariant
            i <= comps.len(),
            gcomps == comps.deep_view(),
            out@ == join_abs(gcomps.take(i as int)),
        decreases comps.len() - i,
    {
        if i > 0 {
            out.append("/");
            proof {
                reveal_strlit("/");
            }
        }
        out.append(comps[i].as_str());
        proof {
            assert(gcomps.take(i + 1).drop_last() =~= gcomps.take(i as int));
            assert(gcomps.take(i + 1).last() == gcomps[i as int]);
            if i == 0 {
                assert(join_abs(gcomps.take(1)) == seq!['/'] + gcomps[0]);
                assert(out@ =~= seq!['/'] + gcomps[0]);
            } else {
                assert(join_abs(gcomps.take(i + 1)) == join_abs(gcomps.take(i as int)) + seq!['/']
                    + gcomps[i as int]);
                assert(out@ =~= join_abs(gcomps.take(i as int)) + seq!['/'] + gcomps[i as int]);
            }
        }
        i += 1;
    }
    proof {
        assert(gcomps.take(comps.len() as int) =~= gcomps);
    }
    out
}

/// The canonical components of a declared root, when it normalizes.
pub open spec fn spec_root_comps(root: Seq<char>) -> Option<Seq<Seq<char>>> {
    norm_onto(Seq::<Seq<char>>::empty(), split_slash(root))
}

/// The canonical components of `p` resolved against `root`: `p` is split,
/// joined onto the root's components, and normalized; `None` reports that
/// the input escapes the root (or that the root itself is malformed).
pub open spec fn spec_resolved(root: Seq<char>, p: Seq<char>) -> Option<Seq<Seq<char>>> {
    match spec_root_comps(root) {
        Option::None => Option::None,
        Option::Some(rc) => norm_onto(rc, split_slash(p)),
    }
}

/// A path value guaranteed to be lexically confined under its declared root.
/// Obtained only through [`SafePath::from_rooted`]; immutable afterwards.
pub struct SafePath {
    root: String,
    path: String,
    comps: Ghost<Seq<Seq<char>>>,
    root_len: Ghost<int>,
}

impl View for SafePath {
    type V = Seq<char>;

    closed spec fn view(&self) -> Seq<char> {
        self.path@
    }
}

impl SafePath {
    /// The canonical components of the resolved path.
    pub closed spec fn comps_view(&self) -> Seq<Seq<char>> {
        self.comps@
    }

    /// The declared root, as an absolute path.
    pub closed spec fn root_view(&self) -> Seq<char> {
        self.root@
    }

    /// Well-formedness: the stored strings render the stored canonical
    /// components, and the root is a prefix of them.
    pub closed spec fn wf(&self) -> bool {
        &&& 0 <= self.root_len@ <= self.comps@.len()
        &&& is_canon_comps(self.comps@)
        &&& self.path@ == join_abs(self.comps@)
        &&& self.root@ == join_abs(self.comps@.take(self.root_len@))
    }

    /// An exact copy of the path value.
    pub fn duplicate(&self) -> (r: SafePath)
        ensures
            r@ == self@,
            r.root_view() == self.root_view(),
            r.comps_view() == self.comps_view(),
            r.wf() == self.wf(),
    {
        SafePath {
            root: self.root.clone(),
            path: self.path.clone(),
            comps: Ghost(self.comps@),
            root_len: Ghost(self.root_len@),
        }
    }

    /// The resolved absolute path.
    pub fn as_str(&self) -> (r: &str)
        ensures
            r@ == self@,
    {
        self.path.as_str()
    }

    /// The declared root.
    pub fn root_str(&self) -> (r: &str)
        ensures
            r@ == self.root_view(),
    {
        self.root.as_str()
    }

    /// Resolve `path` against `root` without touching the filesystem:
    /// `path` is joined under the root (a leading `/` only anchors it there),
    /// `.` and `..` are resolved lexically, and any input whose `..`
    /// components would climb out of the root is rejected with
    /// [`Error::PathEscapesRoot`]. This is the only constructor.
    pub fn from_rooted(root: &str, path: &str) -> (r: Result<SafePath, Error>)
        ensures
            match r {
                Ok(sp) => {
                    &&& spec_resolved(root@, path@) is Some
                    &&& sp@ == join_abs(spec_resolved(root@, path@).unwrap())
                    &&& sp.comps_view() == spec_resolved(root@, path@).unwrap()
                    &&& spec_root_comps(root@) is Some
                    &&& sp.root_view() == join_abs(spec_root_comps(root@).unwrap())
                    &&& sp.wf()
                },
                Err(e) => {
                    &&& spec_resolved(root@, path@) is None
                    &&& e matches Error::PathEscapesRoot(m) && m@ == path@
                },
            },
    {
        let rparts = split_path(root);
        let empty_base: Vec<String> = Vec::new();
        proof {
            assert(empty_base.deep_view() =~= Seq::<Seq<char>>::empty());
        }
        let rc = match normalize_onto(empty_base, &rparts) {
            Some(v) => v,
            None => {
                return Err(Error::PathEscapesRoot(path.to_owned()));
            },
        };
        let ghost rcv = rc.deep_view();
        proof {
            lemma_split_slash_no_slash(root@);
            lemma_norm_onto_props(Seq::<Seq<char>>::empty(), split_slash(root@));
        }
        let root_len = rc.len();
        let root_string = join_path(&rc);
        let pparts = split_path(path);
        let full = match normalize_onto(rc, &pparts) {
            Some(v) => v,
            None => {
                return Err(Error::PathEscapesRoot(path.to_owned()));
            },
        };
        proof {
            lemma_split_slash_no_slash(path@);
            lemma_norm_onto_props(rcv, split_slash(path@));
            assert(full.deep_view().take(root_len as int) == rcv);
        }
        let path_string = join_path(&full);
        Ok(SafePath {
            root: root_string,
            path: path_string,
            comps: Ghost(full.deep_view()),
            root_len: Ghost(root_len as int),
        })
    }
}

/// The root of a [`path_under`] relation built by joining a prefix of
/// canonical components is indeed a lexical ancestor of the whole join.
pub proof fn lemma_join_prefix(cs: Seq<Seq<char>>, k: int)
    requires
        0 <= k <= cs.len(),
        is_canon_comps(cs),
    ensures
        path_under(join_abs(cs.take(k)), join_abs(cs)),
    decreases cs.len(),
{
    if k == cs.len() {
        assert(cs.take(k) =~= cs);
    } else if cs.len() == 1 {
        let root = join_abs(cs.take(0));
        let p = join_abs(cs);
        assert(cs.take(0) =~= Seq::<Seq<char>>::empty());
        assert(root == seq!['/']);
        assert(p == seq!['/'] + cs[0]);
        assert(is_canon_comp(cs[0]));
        assert(p.take(1) =~= root);
    } else {
        let prefix = cs.drop_last();
        assert(is_canon_comps(prefix)) by {
            assert(forall|i: int| 0 <= i < prefix.len() ==> prefix[i] == cs[i]);
        }
        lemma_join_prefix(prefix, k);
        assert(prefix.take(k) =~= cs.take(k));
        let root = join_abs(cs.take(k));
        let q = join_abs(prefix);
        let p = join_abs(cs);
        assert(p == q + seq!['/'] + cs.last());
        if root == q {
            assert(p.take(root.len() as int) =~= root);
            assert(p[root.len() as int] == '/');
        } else {
            assert(root.len() < q.len() && q.take(root.len() as int) == root && (root == seq!['/']
                || q[root.len() as int] == '/'));
            assert(p.take(root.len() as int) =~= q.take(root.len() as int));
            if root != seq!['/'] {
                assert(p[root.len() as int] == q[root.len() as int]);
            }
        }
    }
}

/// Root confinement: every well-formed [`SafePath`] lies lexically at or
/// under its declared root; no input, `../` included, can produce one that
/// escapes.
pub proof fn lemma_safe_path_confined(sp: &SafePath)
    requires
        sp.wf(),
    ensures
        path_under(sp.root_view(), sp@),
{
    lemma_join_prefix(sp.comps_view(), sp.root_len@);
}

/// Resolve a path under a declared root by lexical joining: an absolute
/// input is re-anchored below the root, a relative one is appended.
pub open spec fn spec_under_root(root: Seq<char>, p: Seq<char>) -> Seq<char> {
    if p.len() > 0 && p[0] == '/' {
        root + p
    } else {
        root + seq!['/'] + p
    }
}

/// Join `p` under `root` textually, treating an absolute `p` as relative to
/// the root. Purely lexical; no normalization and no filesystem access.
pub fn ensure_under_root(root: &str, p: &str) -> (r: String)
    ensures
        r@ == spec_under_root(root@, p@),
{
    let mut out = root.to_owned();
    if p.unicode_len() == 0 || p.get_char(0) != '/' {
        out.append("/");
        proof {
            reveal_strlit("/");
            assert(out@ =~= root@ + seq!['/']);
        }
    }
    out.append(p);
    out
}

} // verus!
