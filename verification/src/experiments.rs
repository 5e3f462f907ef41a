//! The experiments: which applets each replacement suite manages, where its
//! binaries are discovered, and which targets it links or restores. All
//! discovery runs against the filesystem model; installing packages and
//! probing `PATH` belong to the caller.

use vstd::prelude::*;

use crate::compat::{is_supported_distro, spec_supported_distros, Distribution};
use crate::errors::Error;
use crate::fsmodel::{EntryV, FsState};
use crate::pkgs::spec_first_existing;
use crate::state::State;
use crate::strutil::{lower_chars, str_eq};
use crate::worker::Worker;

verus! {

/// The replacement package for the coreutils suite.
pub const UUTILS_COREUTILS: &'static str = "uutils-coreutils";

/// The replacement package for the findutils suite.
pub const UUTILS_FINDUTILS: &'static str = "uutils-findutils-bin";

/// The replacement package for sudo.
pub const SUDO_RS: &'static str = "sudo-rs";

/// The checksum applet names, managed by the dedicated checksums experiment.
pub open spec fn spec_checksum_bins() -> Seq<Seq<char>> {
    seq![
        "b2sum"@,
        "md5sum"@,
        "sha1sum"@,
        "sha224sum"@,
        "sha256sum"@,
        "sha384sum"@,
        "sha512sum"@,
    ]
}

/// The checksum applet names.
pub fn checksum_bins() -> (r: Vec<String>)
    ensures
        r.deep_view() == spec_checksum_bins(),
{
    let mut v: Vec<String> = Vec::new();
    v.push("b2sum".to_owned());
    v.push("md5sum".to_owned());
    v.push("sha1sum".to_owned());
    v.push("sha224sum".to_owned());
    v.push("sha256sum".to_owned());
    v.push("sha384sum".to_owned());
    v.push("sha512sum".to_owned());
    proof {
        assert(v.deep_view() =~= spec_checksum_bins());
    }
    v
}

/// Whether a name is one of the checksum applets.
pub open spec fn spec_is_checksum(name: Seq<char>) -> bool {
    spec_checksum_bins().contains(name)
}

/// Decide [`spec_is_checksum`].
pub fn is_checksum_name(name: &str) -> (r: bool)
    ensures
        r == spec_is_checksum(name@),
{
    let hit = str_eq(name, "b2sum") || str_eq(name, "md5sum") || str_eq(name, "sha1sum") || str_eq(
        name,
        "sha224sum",
    ) || str_eq(name, "sha256sum") || str_eq(name, "sha384sum") || str_eq(name, "sha512sum");
    proof {
        if hit {
            assert(spec_is_checksum(name@)) by {
                if name@ == "b2sum"@ {
                    assert(spec_checksum_bins()[0] == name@);
                } else if name@ == "md5sum"@ {
                    assert(spec_checksum_bins()[1] == name@);
                } else if name@ == "sha1sum"@ {
                    assert(spec_checksum_bins()[2] == name@);
                } else if name@ == "sha224sum"@ {
                    assert(spec_checksum_bins()[3] == name@);
                } else if name@ == "sha256sum"@ {
                    assert(spec_checksum_bins()[4] == name@);
                } else if name@ == "sha384sum"@ {
                    assert(spec_checksum_bins()[5] == name@);
                } else {
                    assert(spec_checksum_bins()[6] == name@);
                }
            }
        } else {
            if spec_is_checksum(name@) {
                let w = choose|i: int|
                    0 <= i < spec_checksum_bins().len() && spec_checksum_bins()[i] == name@;
                assert(0 <= w < 7);
            }
        }
    }
    hit
}

/// The coreutils applet names this suite manages, checksum applets included
/// (link building filters them out in favor of the checksums experiment).
pub open spec fn spec_coreutils_bins() -> Seq<Seq<char>> {
    seq![
        "arch"@,
        "base32"@,
        "base64"@,
        "basename"@,
        "b2sum"@,
        "cat"@,
        "chgrp"@,
        "chmod"@,
        "chown"@,
        "cksum"@,
        "comm"@,
        "cp"@,
        "cut"@,
        "date"@,
        "dd"@,
        "df"@,
        "dirname"@,
        "du"@,
        "echo"@,
        "env"@,
        "expand"@,
        "expr"@,
        "factor"@,
        "false"@,
        "fold"@,
        "head"@,
        "id"@,
        "install"@,
        "join"@,
        "link"@,
        "ln"@,
        "ls"@,
        "md5sum"@,
        "mkdir"@,
        "mktemp"@,
        "mv"@,
        "nice"@,
        "nl"@,
        "nohup"@,
        "nproc"@,
        "od"@,
        "paste"@,
        "printf"@,
        "pwd"@,
        "readlink"@,
        "realpath"@,
        "rm"@,
        "rmdir"@,
        "sha1sum"@,
        "sha224sum"@,
        "sha256sum"@,
        "sha384sum"@,
        "sha512sum"@,
        "shuf"@,
        "sleep"@,
        "sort"@,
        "split"@,
        "stat"@,
        "sum"@,
        "sync"@,
        "tac"@,
        "tail"@,
        "tee"@,
        "test"@,
        "timeout"@,
        "touch"@,
        "tr"@,
        "true"@,
        "truncate"@,
        "tsort"@,
        "tty"@,
        "uname"@,
        "uniq"@,
        "unlink"@,
        "wc"@,
        "who"@,
        "whoami"@,
        "yes"@,
    ]
}

/// The coreutils applet names.
pub fn coreutils_bins() -> (r: Vec<String>)
    ensures
        r.deep_view() == spec_coreutils_bins(),
{
    let mut v: Vec<String> = Vec::new();
    v.push("arch".to_owned());
    v.push("base32".to_owned());
    v.push("base64".to_owned());
    v.push("basename".to_owned());
    v.push("b2sum".to_owned());
    v.push("cat".to_owned());
    v.push("chgrp".to_owned());
    v.push("chmod".to_owned());
    v.push("chown".to_owned());
    v.push("cksum".to_owned());
    v.push("comm".to_owned());
    v.push("cp".to_owned());
    v.push("cut".to_owned());
    v.push("date".to_owned());
    v.push("dd".to_owned());
    v.push("df".to_owned());
    v.push("dirname".to_owned());
    v.push("du".to_owned());
    v.push("echo".to_owned());
    v.push("env".to_owned());
    v.push("expand".to_owned());
    v.push("expr".to_owned());
    v.push("factor".to_owned());
    v.push("false".to_owned());
    v.push("fold".to_owned());
    v.push("head".to_owned());
    v.push("id".to_owned());
    v.push("install".to_owned());
    v.push("join".to_owned());
    v.push("link".to_owned());
    v.push("ln".to_owned());
    v.push("ls".to_owned());
    v.push("md5sum".to_owned());
    v.push("mkdir".to_owned());
    v.push("mktemp".to_owned());
    v.push("mv".to_owned());
    v.push("nice".to_owned());
    v.push("nl".to_owned());
    v.push("nohup".to_owned());
    v.push("nproc".to_owned());
    v.push("od".to_owned());
    v.push("paste".to_owned());
    v.push("printf".to_owned());
    v.push("pwd".to_owned());
    v.push("readlink".to_owned());
    v.push("realpath".to_owned());
    v.push("rm".to_owned());
    v.push("rmdir".to_owned());
    v.push("sha1sum".to_owned());
    v.push("sha224sum".to_owned());
    v.push("sha256sum".to_owned());
    v.push("sha384sum".to_owned());
    v.push("sha512sum".to_owned());
    v.push("shuf".to_owned());
    v.push("sleep".to_owned());
    v.push("sort".to_owned());
    v.push("split".to_owned());
    v.push("stat".to_owned());
    v.push("sum".to_owned());
    v.push("sync".to_owned());
    v.push("tac".to_owned());
    v.push("tail".to_owned());
    v.push("tee".to_owned());
    v.push("test".to_owned());
    v.push("timeout".to_owned());
    v.push("touch".to_owned());
    v.push("tr".to_owned());
    v.push("true".to_owned());
    v.push("truncate".to_owned());
    v.push("tsort".to_owned());
    v.push("tty".to_owned());
    v.push("uname".to_owned());
    v.push("uniq".to_owned());
    v.push("unlink".to_owned());
    v.push("wc".to_owned());
    v.push("who".to_owned());
    v.push("whoami".to_owned());
    v.push("yes".to_owned());
    proof {
        assert(v.deep_view() =~= spec_coreutils_bins());
    }
    v
}

/// The target path under `/usr/bin` for an applet name.
pub open spec fn spec_usrbin(name: Seq<char>) -> Seq<char> {
    "/usr/bin/"@ + name
}

/// Resolve a target path under `/usr/bin`.
pub fn resolve_usrbin(filename: &str) -> (r: String)
    ensures
        r@ == spec_usrbin(filename@),
{
    let mut out = "/usr/bin/".to_owned();
    out.append(filename);
    out
}

/// The names kept for linking: every name that is not a checksum applet.
pub open spec fn spec_non_checksum(names: Seq<Seq<char>>) -> Seq<Seq<char>>
    decreases names.len(),
{
    if names.len() == 0 {
        names
    } else {
        let prefix = spec_non_checksum(names.drop_last());
        if spec_is_checksum(names.last()) {
            prefix
        } else {
            prefix.push(names.last())
        }
    }
}

/// Map applet names to their `/usr/bin` targets.
fn usrbin_targets(names: &Vec<String>) -> (r: Vec<String>)
    ensures
        r.deep_view() == names.deep_view().map_values(|n: Seq<char>| spec_usrbin(n)),
{
    let ghost gnames = names.deep_view();
    let mut out: Vec<String> = Vec::new();
    let mut i: usize = 0;
    while i < names.len()
        invariant
            i <= names.len(),
            gnames == names.deep_view(),
            out.deep_view() == gnames.take(i as int).map_values(|n: Seq<char>| spec_usrbin(n)),
        decreases names.len() - i,
    {
        let ghost pre = out.deep_view();
        let t = resolve_usrbin(names[i].as_str());
        let ghost tv = t@;
        out.push(t);
        proof {
            assert(tv == spec_usrbin(gnames[i as int]));
            assert(out.deep_view() =~= pre.push(tv));
            assert(gnames.take(i + 1).map_values(|n: Seq<char>| spec_usrbin(n)) =~= gnames.take(
                i as int,
            ).map_values(|n: Seq<char>| spec_usrbin(n)).push(tv)) by {
                assert(forall|x: int|
                    0 <= x < i ==> #[trigger] gnames.take(i + 1)[x] == gnames.take(i as int)[x]);
                assert(gnames.take(i + 1)[i as int] == gnames[i as int]);
            }
        }
        i += 1;
    }
    proof {
        assert(gnames.take(names@.len() as int) =~= gnames);
    }
    out
}

/// Drop the checksum applets from a name list.
fn non_checksum_names(names: &Vec<String>) -> (r: Vec<String>)
    ensures
        r.deep_view() == spec_non_checksum(names.deep_view()),
{
    let ghost gnames = names.deep_view();
    let mut out: Vec<String> = Vec::new();
    let mut i: usize = 0;
    proof {
        assert(gnames.take(0) =~= Seq::<Seq<char>>::empty());
        assert(out.deep_view() =~= spec_non_checksum(gnames.take(0)));
    }
    while i < names.len()
        invariant
            i <= names.len(),
            gnames == names.deep_view(),
            out.deep_view() == spec_non_checksum(gnames.take(i as int)),
        decreases names.len() - i,
    {
        proof {
            assert(gnames.take(i + 1).drop_last() =~= gnames.take(i as int));
            assert(gnames.take(i + 1).last() == gnames[i as int]);
        }
        if !is_checksum_name(names[i].as_str()) {
            out.push(names[i].clone());
            proof {
                assert(out.deep_view() =~= spec_non_checksum(gnames.take(i as int)).push(
                    gnames[i as int],
                ));
            }
        }
        i += 1;
    }
    proof {
        assert(gnames.take(names@.len() as int) =~= gnames);
    }
    out
}

/// Discover each named applet at the first of its candidate locations that
/// exists in the model; names with no present candidate are skipped.
pub open spec fn spec_discover(
    m: Map<Seq<char>, EntryV>,
    cands: spec_fn(Seq<char>) -> Seq<Seq<char>>,
    names: Seq<Seq<char>>,
) -> Seq<(Seq<char>, Seq<char>)>
    decreases names.len(),
{
    if names.len() == 0 {
        Seq::empty()
    } else {
        let prefix = spec_discover(m, cands, names.drop_last());
        match spec_first_existing(m, cands(names.last())) {
            Some(p) => prefix.push((names.last(), p)),
            Option::None => prefix,
        }
    }
}

/// Pair every name with one fixed source path.
pub open spec fn spec_all_with_source(names: Seq<Seq<char>>, source: Seq<char>) -> Seq<
    (Seq<char>, Seq<char>),
> {
    names.map_values(|n: Seq<char>| (n, source))
}

/// The applet pairs of a discovery result.
pub open spec fn pairs_view(v: Seq<(String, String)>) -> Seq<(Seq<char>, Seq<char>)> {
    Seq::new(v.len(), |i: int| (v[i].0@, v[i].1@))
}

/// The names a discovery pass skipped: those with no present candidate.
pub open spec fn spec_discover_skipped(
    m: Map<Seq<char>, EntryV>,
    cands: spec_fn(Seq<char>) -> Seq<Seq<char>>,
    names: Seq<Seq<char>>,
) -> Seq<Seq<char>>
    decreases names.len(),
{
    if names.len() == 0 {
        Seq::empty()
    } else {
        let prefix = spec_discover_skipped(m, cands, names.drop_last());
        match spec_first_existing(m, cands(names.last())) {
            Some(_) => prefix,
            Option::None => prefix.push(names.last()),
        }
    }
}

/// The view of an optional path.
pub open spec fn spec_opt_view(o: Option<String>) -> Option<Seq<char>> {
    match o {
        Some(s) => Some(s@),
        Option::None => Option::None,
    }
}

/// The candidate locations for one coreutils-family applet binary.
pub open spec fn spec_coreutils_candidates(bin_dir: Seq<char>, name: Seq<char>) -> Seq<Seq<char>> {
    seq![
        bin_dir + "/"@ + name,
        "/usr/bin/uu-"@ + name,
        "/usr/lib/cargo/bin/coreutils/"@ + name,
        "/usr/lib/cargo/bin/"@ + name,
    ]
}

/// The candidate locations for one findutils applet binary.
pub open spec fn spec_findutils_candidates(bin_dir: Seq<char>, name: Seq<char>) -> Seq<Seq<char>> {
    seq![
        bin_dir + "/"@ + name,
        "/usr/bin/uu-"@ + name,
        "/usr/lib/cargo/bin/"@ + name,
        "/usr/bin/"@ + name,
    ]
}

/// Build the coreutils-family candidate paths for one applet.
fn coreutils_candidates(bin_dir: &str, name: &str) -> (r: Vec<String>)
    ensures
        r.deep_view() == spec_coreutils_candidates(bin_dir@, name@),
{
    let mut v: Vec<String> = Vec::new();
    let mut a = bin_dir.to_owned();
    a.append("/");
    a.append(name);
    v.push(a);
    let mut b = "/usr/bin/uu-".to_owned();
    b.append(name);
    v.push(b);
    let mut c = "/usr/lib/cargo/bin/coreutils/".to_owned();
    c.append(name);
    v.push(c);
    let mut d = "/usr/lib/cargo/bin/".to_owned();
    d.append(name);
    v.push(d);
    proof {
        assert(v.deep_view() =~= spec_coreutils_candidates(bin_dir@, name@));
    }
    v
}

/// Build the findutils candidate paths for one applet.
fn findutils_candidates(bin_dir: &str, name: &str) -> (r: Vec<String>)
    ensures
        r.deep_view() == spec_findutils_candidates(bin_dir@, name@),
{
    let mut v: Vec<String> = Vec::new();
    let mut a = bin_dir.to_owned();
    a.append("/");
    a.append(name);
    v.push(a);
    let mut b = "/usr/bin/uu-".to_owned();
    b.append(name);
    v.push(b);
    let mut c = "/usr/lib/cargo/bin/".to_owned();
    c.append(name);
    v.push(c);
    let mut d = "/usr/bin/".to_owned();
    d.append(name);
    v.push(d);
    proof {
        assert(v.deep_view() =~= spec_findutils_candidates(bin_dir@, name@));
    }
    v
}

/// Pair every name in the list with the given source.
fn all_with_source(names: &Vec<String>, source: &str) -> (r: Vec<(String, String)>)
    ensures
        pairs_view(r@) == spec_all_with_source(names.deep_view(), source@),
{
    let ghost gnames = names.deep_view();
    let mut out: Vec<(String, String)> = Vec::new();
    let mut i: usize = 0;
    proof {
        assert(pairs_view(out@) =~= spec_all_with_source(gnames.take(0), source@));
    }
    while i < names.len()
        invariant
            i <= names.len(),
            gnames == names.deep_view(),
            pairs_view(out@) == spec_all_with_source(gnames.take(i as int), source@),
        decreases names.len() - i,
    {
        let ghost pre = pairs_view(out@);
        out.push((names[i].clone(), source.to_owned()));
        proof {
            assert(pairs_view(out@) =~= pre.push((gnames[i as int], source@)));
            assert(spec_all_with_source(gnames.take(i + 1), source@) =~= pre.push(
                (gnames[i as int], source@),
            )) by {
                assert(forall|x: int|
                    0 <= x < i ==> #[trigger] gnames.take(i + 1)[x] == gnames.take(i as int)[x]);
                assert(gnames.take(i + 1)[i as int] == gnames[i as int]);
            }
        }
        i += 1;
    }
    proof {
        assert(gnames.take(names@.len() as int) =~= gnames);
    }
    out
}

/// Discover coreutils-family applets per name, first candidate wins.
fn discover_coreutils_style(fs: &FsState, bin_dir: &str, names: &Vec<String>) -> (r: (
    Vec<(String, String)>,
    Vec<String>,
))
    requires
        fs.wf(),
    ensures
        pairs_view(r.0@) == spec_discover(
            fs.as_map(),
            |n: Seq<char>| spec_coreutils_candidates(bin_dir@, n),
            names.deep_view(),
        ),
        r.1.deep_view() == spec_discover_skipped(
            fs.as_map(),
            |n: Seq<char>| spec_coreutils_candidates(bin_dir@, n),
            names.deep_view(),
        ),
{
    let ghost gnames = names.deep_view();
    let ghost gc = |n: Seq<char>| spec_coreutils_candidates(bin_dir@, n);
    let mut out: Vec<(String, String)> = Vec::new();
    let mut skipped: Vec<String> = Vec::new();
    let mut i: usize = 0;
    proof {
        assert(pairs_view(out@) =~= spec_discover(fs.as_map(), gc, gnames.take(0)));
        assert(skipped.deep_view() =~= spec_discover_skipped(fs.as_map(), gc, gnames.take(0)));
    }
    while i < names.len()
        invariant
            i <= names.len(),
            fs.wf(),
            gnames == names.deep_view(),
            gc == (|n: Seq<char>| spec_coreutils_candidates(bin_dir@, n)),
            pairs_view(out@) == spec_discover(fs.as_map(), gc, gnames.take(i as int)),
            skipped.deep_view() == spec_discover_skipped(fs.as_map(), gc, gnames.take(i as int)),
        decreases names.len() - i,
    {
        proof {
            assert(gnames.take(i + 1).drop_last() =~= gnames.take(i as int));
            assert(gnames.take(i + 1).last() == gnames[i as int]);
        }
        let cands = coreutils_candidates(bin_dir, names[i].as_str());
        proof {
            assert(cands.deep_view() == gc(gnames[i as int]));
        }
        let found = crate::pkgs::pick_existing(fs, &cands);
        match found {
            Some(p) => {
                let ghost pre = pairs_view(out@);
                let ghost pv = p@;
                out.push((names[i].clone(), p));
                proof {
                    assert(pairs_view(out@) =~= pre.push((gnames[i as int], pv)));
                }
            },
            None => {
                let ghost pre = skipped.deep_view();
                skipped.push(names[i].clone());
                proof {
                    assert(skipped.deep_view() =~= pre.push(gnames[i as int]));
                }
            },
        }
        i += 1;
    }
    proof {
        assert(gnames.take(names@.len() as int) =~= gnames);
    }
    (out, skipped)
}

/// Discover findutils applets per name, first candidate wins.
fn discover_findutils_style(fs: &FsState, bin_dir: &str, names: &Vec<String>) -> (r: Vec<
    (String, String),
>)
    requires
        fs.wf(),
    ensures
        pairs_view(r@) == spec_discover(
            fs.as_map(),
            |n: Seq<char>| spec_findutils_candidates(bin_dir@, n),
            names.deep_view(),
        ),
{
    let ghost gnames = names.deep_view();
    let ghost gc = |n: Seq<char>| spec_findutils_candidates(bin_dir@, n);
    let mut out: Vec<(String, String)> = Vec::new();
    let mut i: usize = 0;
    proof {
        assert(pairs_view(out@) =~= spec_discover(fs.as_map(), gc, gnames.take(0)));
    }
    while i < names.len()
        invariant
            i <= names.len(),
            fs.wf(),
            gnames == names.deep_view(),
            gc == (|n: Seq<char>| spec_findutils_candidates(bin_dir@, n)),
            pairs_view(out@) == spec_discover(fs.as_map(), gc, gnames.take(i as int)),
        decreases names.len() - i,
    {
        proof {
            assert(gnames.take(i + 1).drop_last() =~= gnames.take(i as int));
            assert(gnames.take(i + 1).last() == gnames[i as int]);
        }
        let cands = findutils_candidates(bin_dir, names[i].as_str());
        proof {
            assert(cands.deep_view() == gc(gnames[i as int]));
        }
        let found = crate::pkgs::pick_existing(fs, &cands);
        match found {
            Some(p) => {
                let ghost pre = pairs_view(out@);
                let ghost pv = p@;
                out.push((names[i].clone(), p));
                proof {
                    assert(pairs_view(out@) =~= pre.push((gnames[i as int], pv)));
                }
            },
            None => {},
        }
        i += 1;
    }
    proof {
        assert(gnames.take(names@.len() as int) =~= gnames);
    }
    out
}

/// The coreutils experiment: swap the GNU coreutils applets (checksum tools
/// excepted) for their replacement implementations.
pub struct CoreutilsExperiment {
    name: String,
    package_name: String,
    unified_binary: Option<String>,
    bin_directory: String,
}

impl CoreutilsExperiment {
    pub closed spec fn name_view(&self) -> Seq<char> {
        self.name@
    }

    pub closed spec fn package_view(&self) -> Seq<char> {
        self.package_name@
    }

    pub closed spec fn unified_view(&self) -> Option<Seq<char>> {
        spec_opt_view(self.unified_binary)
    }

    pub closed spec fn bin_dir_view(&self) -> Seq<char> {
        self.bin_directory@
    }

    pub fn new() -> (r: CoreutilsExperiment)
        ensures
            r.name_view() == "coreutils"@,
            r.package_view() == "uutils-coreutils"@,
            r.unified_view() == Some("/usr/bin/coreutils"@),
            r.bin_dir_view() == "/usr/lib/uutils/coreutils"@,
    {
        CoreutilsExperiment {
            name: "coreutils".to_owned(),
            package_name: "uutils-coreutils".to_owned(),
            unified_binary: Some("/usr/bin/coreutils".to_owned()),
            bin_directory: "/usr/lib/uutils/coreutils".to_owned(),
        }
    }

    pub fn name(&self) -> (r: &str)
        ensures
            r@ == self.name_view(),
    {
        self.name.as_str()
    }

    /// Compatible exactly on the supported distributions.
    pub fn check_compatible(&self, distro: &Distribution) -> (r: Result<bool, Error>)
        ensures
            r matches Ok(b) && b == spec_supported_distros().contains(lower_chars(distro.id@)),
    {
        Ok(is_supported_distro(distro.id.as_str()))
    }

    /// The targets this experiment manages: every coreutils applet except the
    /// checksum tools, under `/usr/bin`.
    pub fn list_targets(&self) -> (r: Vec<String>)
        ensures
            r.deep_view() == spec_non_checksum(spec_coreutils_bins()).map_values(
                |n: Seq<char>| spec_usrbin(n),
            ),
    {
        let bins = coreutils_bins();
        let kept = non_checksum_names(&bins);
        usrbin_targets(&kept)
    }

    /// Where an applet is linked.
    pub fn resolve_target(&self, filename: &str) -> (r: String)
        ensures
            r@ == spec_usrbin(filename@),
    {
        resolve_usrbin(filename)
    }

    /// Discover the applet sources in the model: the unified dispatcher when
    /// it is present (overrides honored), per-applet binaries otherwise.
    /// Probing `PATH` beyond these locations is the caller's fallback.
    pub fn discover_applets(&self, fs: &FsState, worker: &Worker) -> (r: Vec<(String, String)>)
        requires
            fs.wf(),
        ensures
            ({
                let eu = if worker.unified_binary_override is Some {
                    spec_opt_view(worker.unified_binary_override)
                } else {
                    self.unified_view()
                };
                let ebd = if worker.bin_dir_override is Some {
                    spec_opt_view(worker.bin_dir_override).unwrap()
                } else {
                    self.bin_dir_view()
                };
                if eu is Some && fs.as_map().contains_key(eu.unwrap()) {
                    pairs_view(r@) == spec_all_with_source(spec_coreutils_bins(), eu.unwrap())
                } else {
                    pairs_view(r@) == spec_discover(
                        fs.as_map(),
                        |n: Seq<char>| spec_coreutils_candidates(ebd, n),
                        spec_coreutils_bins(),
                    )
                }
            }),
    {
        let bins = coreutils_bins();
        let unified: Option<String> = match &worker.unified_binary_override {
            Some(u) => Some(u.clone()),
            None => match &self.unified_binary {
                Some(u) => Some(u.clone()),
                None => None,
            },
        };
        let bin_dir: String = match &worker.bin_dir_override {
            Some(d) => d.clone(),
            None => self.bin_directory.clone(),
        };
        match unified {
            Some(u) => {
                if fs.lookup(u.as_str()).is_some() {
                    return all_with_source(&bins, u.as_str());
                }
                let (found, _skipped) = discover_coreutils_style(fs, bin_dir.as_str(), &bins);
                found
            },
            None => {
                let (found, _skipped) = discover_coreutils_style(fs, bin_dir.as_str(), &bins);
                found
            },
        }
    }
}

/// The findutils experiment: swap `find` and `xargs`.
pub struct FindutilsExperiment {
    name: String,
    package_name: String,
    bin_directory: String,
}

impl FindutilsExperiment {
    pub closed spec fn name_view(&self) -> Seq<char> {
        self.name@
    }

    pub closed spec fn package_view(&self) -> Seq<char> {
        self.package_name@
    }

    pub closed spec fn bin_dir_view(&self) -> Seq<char> {
        self.bin_directory@
    }

    pub fn new() -> (r: FindutilsExperiment)
        ensures
            r.name_view() == "findutils"@,
            r.package_view() == "uutils-findutils-bin"@,
            r.bin_dir_view() == "/usr/lib/cargo/bin/findutils"@,
    {
        FindutilsExperiment {
            name: "findutils".to_owned(),
            package_name: "uutils-findutils-bin".to_owned(),
            bin_directory: "/usr/lib/cargo/bin/findutils".to_owned(),
        }
    }

    pub fn name(&self) -> (r: &str)
        ensures
            r@ == self.name_view(),
    {
        self.name.as_str()
    }

    pub fn check_compatible(&self, distro: &Distribution) -> (r: Result<bool, Error>)
        ensures
            r matches Ok(b) && b == spec_supported_distros().contains(lower_chars(distro.id@)),
    {
        Ok(is_supported_distro(distro.id.as_str()))
    }

    /// The managed targets: `find` and `xargs` under `/usr/bin`.
    pub fn list_targets(&self) -> (r: Vec<String>)
        ensures
            r.deep_view() == seq!["/usr/bin/find"@, "/usr/bin/xargs"@],
    {
        let mut v: Vec<String> = Vec::new();
        v.push(resolve_usrbin("find"));
        v.push(resolve_usrbin("xargs"));
        proof {
            reveal_strlit("/usr/bin/");
            reveal_strlit("find");
            reveal_strlit("xargs");
            reveal_strlit("/usr/bin/find");
            reveal_strlit("/usr/bin/xargs");
            assert(v.deep_view() =~= seq!["/usr/bin/find"@, "/usr/bin/xargs"@]) by {
                assert(spec_usrbin("find"@) =~= "/usr/bin/find"@);
                assert(spec_usrbin("xargs"@) =~= "/usr/bin/xargs"@);
            }
        }
        v
    }

    pub fn resolve_target(&self, filename: &str) -> (r: String)
        ensures
            r@ == spec_usrbin(filename@),
    {
        resolve_usrbin(filename)
    }

    /// Discover `find` and `xargs` at their known locations in the model.
    pub fn discover_applets(&self, fs: &FsState, worker: &Worker) -> (r: Vec<(String, String)>)
        requires
            fs.wf(),
        ensures
            ({
                let ebd = if worker.bin_dir_override is Some {
                    spec_opt_view(worker.bin_dir_override).unwrap()
                } else {
                    self.bin_dir_view()
                };
                pairs_view(r@) == spec_discover(
                    fs.as_map(),
                    |n: Seq<char>| spec_findutils_candidates(ebd, n),
                    seq!["find"@, "xargs"@],
                )
            }),
    {
        let mut names: Vec<String> = Vec::new();
        names.push("find".to_owned());
        names.push("xargs".to_owned());
        proof {
            assert(names.deep_view() =~= seq!["find"@, "xargs"@]);
        }
        let bin_dir: String = match &worker.bin_dir_override {
            Some(d) => d.clone(),
            None => self.bin_directory.clone(),
        };
        discover_findutils_style(fs, bin_dir.as_str(), &names)
    }
}

/// The sudo experiment: swap `sudo`, `su` and `visudo` for their replacement
/// implementations, with setuid verification on the caller's side.
pub struct SudoRsExperiment {
    name: String,
    package_name: String,
}

impl SudoRsExperiment {
    pub closed spec fn name_view(&self) -> Seq<char> {
        self.name@
    }

    pub closed spec fn package_view(&self) -> Seq<char> {
        self.package_name@
    }

    pub fn new() -> (r: SudoRsExperiment)
        ensures
            r.name_view() == "sudo-rs"@,
            r.package_view() == "sudo-rs"@,
    {
        SudoRsExperiment { name: "sudo-rs".to_owned(), package_name: "sudo-rs".to_owned() }
    }

    pub fn name(&self) -> (r: &str)
        ensures
            r@ == self.name_view(),
    {
        self.name.as_str()
    }

    pub fn check_compatible(&self, distro: &Distribution) -> (r: Result<bool, Error>)
        ensures
            r matches Ok(b) && b == spec_supported_distros().contains(lower_chars(distro.id@)),
    {
        Ok(is_supported_distro(distro.id.as_str()))
    }

    /// The managed targets: `sudo`, `su` and `visudo`.
    pub fn list_targets(&self) -> (r: Vec<String>)
        ensures
            r.deep_view() == seq!["/usr/bin/sudo"@, "/usr/bin/su"@, "/usr/sbin/visudo"@],
    {
        let mut v: Vec<String> = Vec::new();
        v.push(resolve_usrbin("sudo"));
        v.push(resolve_usrbin("su"));
        v.push("/usr/sbin/visudo".to_owned());
        proof {
            reveal_strlit("/usr/bin/");
            reveal_strlit("sudo");
            reveal_strlit("su");
            reveal_strlit("/usr/bin/sudo");
            reveal_strlit("/usr/bin/su");
            assert(v.deep_view() =~= seq!["/usr/bin/sudo"@, "/usr/bin/su"@, "/usr/sbin/visudo"@])
                by {
                assert(spec_usrbin("sudo"@) =~= "/usr/bin/sudo"@);
                assert(spec_usrbin("su"@) =~= "/usr/bin/su"@);
            }
        }
        v
    }

    pub fn resolve_target(&self, filename: &str) -> (r: String)
        ensures
            r@ == spec_usrbin(filename@),
    {
        resolve_usrbin(filename)
    }

    /// The explicit locations of one replacement binary.
    pub open spec fn spec_sudors_candidates(name: Seq<char>) -> Seq<Seq<char>> {
        seq!["/usr/lib/cargo/bin/"@ + name, "/usr/bin/"@ + name + "-rs"@]
    }

    /// Find the replacement binary for `sudo`, `su` or `visudo` at its
    /// explicit locations in the model; never falls back to the system
    /// binary. Consulting `PATH` for `<name>-rs` is the caller's last resort.
    pub fn find_sudors_source(&self, fs: &FsState, name: &str) -> (r: Option<String>)
        requires
            fs.wf(),
        ensures
            match r {
                Some(p) => spec_first_existing(fs.as_map(), Self::spec_sudors_candidates(name@))
                    == Some(p@),
                None => spec_first_existing(fs.as_map(), Self::spec_sudors_candidates(name@))
                    is None,
            },
    {
        let mut cands: Vec<String> = Vec::new();
        let mut a = "/usr/lib/cargo/bin/".to_owned();
        a.append(name);
        cands.push(a);
        let mut b = "/usr/bin/".to_owned();
        b.append(name);
        b.append("-rs");
        cands.push(b);
        proof {
            assert(cands.deep_view() =~= Self::spec_sudors_candidates(name@));
        }
        crate::pkgs::pick_existing(fs, &cands)
    }
}

/// The checksums experiment: swap the checksum applets, kept separate so that
/// package builds always have working checksum tools while coreutils flips.
pub struct ChecksumsExperiment {
    name: String,
    unified_binary: Option<String>,
    bin_directory: String,
}

impl ChecksumsExperiment {
    pub closed spec fn name_view(&self) -> Seq<char> {
        self.name@
    }

    pub closed spec fn unified_view(&self) -> Option<Seq<char>> {
        spec_opt_view(self.unified_binary)
    }

    pub closed spec fn bin_dir_view(&self) -> Seq<char> {
        self.bin_directory@
    }

    pub fn new() -> (r: ChecksumsExperiment)
        ensures
            r.name_view() == "checksums"@,
            r.unified_view() == Some("/usr/bin/coreutils"@),
            r.bin_dir_view() == "/usr/lib/uutils/coreutils"@,
    {
        ChecksumsExperiment {
            name: "checksums".to_owned(),
            unified_binary: Some("/usr/bin/coreutils".to_owned()),
            bin_directory: "/usr/lib/uutils/coreutils".to_owned(),
        }
    }

    pub fn name(&self) -> (r: &str)
        ensures
            r@ == self.name_view(),
    {
        self.name.as_str()
    }

    pub fn check_compatible(&self, distro: &Distribution) -> (r: Result<bool, Error>)
        ensures
            r matches Ok(b) && b == spec_supported_distros().contains(lower_chars(distro.id@)),
    {
        Ok(is_supported_distro(distro.id.as_str()))
    }

    /// The managed targets: the checksum applets under `/usr/bin`.
    pub fn list_targets(&self) -> (r: Vec<String>)
        ensures
            r.deep_view() == spec_checksum_bins().map_values(|n: Seq<char>| spec_usrbin(n)),
    {
        let bins = checksum_bins();
        usrbin_targets(&bins)
    }

    pub fn resolve_target(&self, filename: &str) -> (r: String)
        ensures
            r@ == spec_usrbin(filename@),
    {
        resolve_usrbin(filename)
    }

    /// Discover the checksum applet sources present in the model: the unified
    /// dispatcher when present, per-applet binaries otherwise; the second
    /// result lists the applets that were skipped for want of a binary.
    pub fn discover_present(&self, fs: &FsState, worker: &Worker) -> (r: (
        Vec<(String, String)>,
        Vec<String>,
    ))
        requires
            fs.wf(),
        ensures
            ({
                let eu = if worker.unified_binary_override is Some {
                    spec_opt_view(worker.unified_binary_override)
                } else {
                    self.unified_view()
                };
                let ebd = if worker.bin_dir_override is Some {
                    spec_opt_view(worker.bin_dir_override).unwrap()
                } else {
                    self.bin_dir_view()
                };
                if eu is Some && fs.as_map().contains_key(eu.unwrap()) {
                    pairs_view(r.0@) == spec_all_with_source(spec_checksum_bins(), eu.unwrap())
                        && r.1.deep_view() == Seq::<Seq<char>>::empty()
                } else {
                    pairs_view(r.0@) == spec_discover(
                        fs.as_map(),
                        |n: Seq<char>| spec_coreutils_candidates(ebd, n),
                        spec_checksum_bins(),
                    ) && r.1.deep_view() == spec_discover_skipped(
                        fs.as_map(),
                        |n: Seq<char>| spec_coreutils_candidates(ebd, n),
                        spec_checksum_bins(),
                    )
                }
            }),
    {
        let bins = checksum_bins();
        let unified: Option<String> = match &worker.unified_binary_override {
            Some(u) => Some(u.clone()),
            None => match &self.unified_binary {
                Some(u) => Some(u.clone()),
                None => None,
            },
        };
        let bin_dir: String = match &worker.bin_dir_override {
            Some(d) => d.clone(),
            None => self.bin_directory.clone(),
        };
        match unified {
            Some(u) => {
                if fs.lookup(u.as_str()).is_some() {
                    let found = all_with_source(&bins, u.as_str());
                    let skipped: Vec<String> = Vec::new();
                    proof {
                        assert(skipped.deep_view() =~= Seq::<Seq<char>>::empty());
                    }
                    return (found, skipped);
                }
                discover_coreutils_style(fs, bin_dir.as_str(), &bins)
            },
            None => discover_coreutils_style(fs, bin_dir.as_str(), &bins),
        }
    }
}

/// The unified experiment registry entry.
pub enum Experiment {
    Coreutils(CoreutilsExperiment),
    Findutils(FindutilsExperiment),
    SudoRs(SudoRsExperiment),
    Checksums(ChecksumsExperiment),
}

impl Experiment {
    pub open spec fn name_spec(&self) -> Seq<char> {
        match self {
            Experiment::Coreutils(e) => e.name_view(),
            Experiment::Findutils(e) => e.name_view(),
            Experiment::SudoRs(e) => e.name_view(),
            Experiment::Checksums(e) => e.name_view(),
        }
    }

    pub fn name(&self) -> (r: &str)
        ensures
            r@ == self.name_spec(),
    {
        match self {
            Experiment::Coreutils(e) => e.name(),
            Experiment::Findutils(e) => e.name(),
            Experiment::SudoRs(e) => e.name(),
            Experiment::Checksums(e) => e.name(),
        }
    }

    pub fn check_compatible(&self, distro: &Distribution) -> (r: Result<bool, Error>)
        ensures
            r matches Ok(b) && b == spec_supported_distros().contains(lower_chars(distro.id@)),
    {
        match self {
            Experiment::Coreutils(e) => e.check_compatible(distro),
            Experiment::Findutils(e) => e.check_compatible(distro),
            Experiment::SudoRs(e) => e.check_compatible(distro),
            Experiment::Checksums(e) => e.check_compatible(distro),
        }
    }

    pub fn list_targets(&self) -> (r: Vec<String>)
        ensures
            r.deep_view() == match self {
                Experiment::Coreutils(_) => spec_non_checksum(spec_coreutils_bins()).map_values(
                    |n: Seq<char>| spec_usrbin(n),
                ),
                Experiment::Findutils(_) => seq!["/usr/bin/find"@, "/usr/bin/xargs"@],
                Experiment::SudoRs(_) => seq![
                    "/usr/bin/sudo"@,
                    "/usr/bin/su"@,
                    "/usr/sbin/visudo"@,
                ],
                Experiment::Checksums(_) => spec_checksum_bins().map_values(
                    |n: Seq<char>| spec_usrbin(n),
                ),
            },
    {
        match self {
            Experiment::Coreutils(e) => e.list_targets(),
            Experiment::Findutils(e) => e.list_targets(),
            Experiment::SudoRs(e) => e.list_targets(),
            Experiment::Checksums(e) => e.list_targets(),
        }
    }
}

/// The names of the registered experiments.
pub open spec fn spec_registry_names() -> Seq<Seq<char>> {
    seq!["findutils"@, "coreutils"@, "sudo-rs"@, "checksums"@]
}

/// Whether a persisted name denotes a registered experiment.
pub fn is_registry_name(name: &str) -> (r: bool)
    ensures
        r == spec_registry_names().contains(name@),
{
    let hit = str_eq(name, "findutils") || str_eq(name, "coreutils") || str_eq(name, "sudo-rs")
        || str_eq(name, "checksums");
    proof {
        if hit {
            assert(spec_registry_names().contains(name@)) by {
                if name@ == "findutils"@ {
                    assert(spec_registry_names()[0] == name@);
                } else if name@ == "coreutils"@ {
                    assert(spec_registry_names()[1] == name@);
                } else if name@ == "sudo-rs"@ {
                    assert(spec_registry_names()[2] == name@);
                } else {
                    assert(spec_registry_names()[3] == name@);
                }
            }
        } else {
            if spec_registry_names().contains(name@) {
                let w = choose|i: int|
                    0 <= i < spec_registry_names().len() && spec_registry_names()[i] == name@;
                assert(0 <= w < 4);
            }
        }
    }
    hit
}

/// The persisted names that are registered, in persisted order.
pub open spec fn spec_known_names(names: Seq<Seq<char>>) -> Seq<Seq<char>>
    decreases names.len(),
{
    if names.len() == 0 {
        names
    } else {
        let prefix = spec_known_names(names.drop_last());
        if spec_registry_names().contains(names.last()) {
            prefix.push(names.last())
        } else {
            prefix
        }
    }
}

/// Decide a relink pass from persisted state: which experiments to re-enable,
/// in persisted order, and the state with unknown names pruned (managed
/// targets are kept, since they cannot be mapped back to an experiment
/// here). The caller performs each enable and saves the pruned state.
pub fn relink_managed(st: State) -> (r: (Vec<String>, State))
    ensures
        r.0.deep_view() == spec_known_names(st.enabled_view()),
        r.1.enabled_view() == spec_known_names(st.enabled_view()),
        r.1.managed_view() == st.managed_view(),
        r.1.timestamp@ == st.timestamp@,
{
    let ghost gnames = st.enabled_view();
    let State { enabled_experiments, managed_targets, timestamp } = st;
    let mut known: Vec<String> = Vec::new();
    let mut pruned: Vec<String> = Vec::new();
    let mut i: usize = 0;
    proof {
        assert(gnames.take(0) =~= Seq::<Seq<char>>::empty());
        assert(known.deep_view() =~= spec_known_names(gnames.take(0)));
        assert(pruned.deep_view() =~= spec_known_names(gnames.take(0)));
    }
    while i < enabled_experiments.len()
        invariant
            i <= enabled_experiments.len(),
            gnames == enabled_experiments.deep_view(),
            known.deep_view() == spec_known_names(gnames.take(i as int)),
            pruned.deep_view() == spec_known_names(gnames.take(i as int)),
        decreases enabled_experiments.len() - i,
    {
        proof {
            assert(gnames.take(i + 1).drop_last() =~= gnames.take(i as int));
            assert(gnames.take(i + 1).last() == gnames[i as int]);
        }
        if is_registry_name(enabled_experiments[i].as_str()) {
            known.push(enabled_experiments[i].clone());
            pruned.push(enabled_experiments[i].clone());
            proof {
                assert(known.deep_view() =~= spec_known_names(gnames.take(i as int)).push(
                    gnames[i as int],
                ));
                assert(pruned.deep_view() =~= spec_known_names(gnames.take(i as int)).push(
                    gnames[i as int],
                ));
            }
        }
        i += 1;
    }
    proof {
        assert(gnames.take(enabled_experiments@.len() as int) =~= gnames);
    }
    (known, State { enabled_experiments: pruned, managed_targets, timestamp })
}

/// Judge an installation check: the package must be present.
pub fn verify_installed(package: &str, installed: bool) -> (r: Result<(), Error>)
    ensures
        r is Ok <==> installed,
        r matches Err(e) ==> e matches Error::ExecutionFailed(p) && p@ == package@,
{
    if installed {
        Ok(())
    } else {
        Err(Error::ExecutionFailed(package.to_owned()))
    }
}

/// Judge a removal check: the package must be absent.
pub fn verify_removed(package: &str, installed: bool) -> (r: Result<(), Error>)
    ensures
        r is Ok <==> !installed,
        r matches Err(e) ==> e matches Error::ExecutionFailed(p) && p@ == package@,
{
    if installed {
        Err(Error::ExecutionFailed(package.to_owned()))
    } else {
        Ok(())
    }
}

/// One indexed line of the applet summary.
pub open spec fn spec_summary_item(applets: Seq<(Seq<char>, Seq<char>)>, i: int) -> Seq<char> {
    "  ["@ + crate::progress::spec_decimal((i + 1) as nat) + "] "@ + applets[i].1 + " -> "@
        + spec_usrbin(applets[i].0)
}

/// The first `k` indexed lines of the applet summary.
pub open spec fn spec_summary_items(applets: Seq<(Seq<char>, Seq<char>)>, k: int) -> Seq<Seq<char>>
    decreases k,
{
    if k <= 0 {
        Seq::empty()
    } else {
        spec_summary_items(applets, k - 1).push(spec_summary_item(applets, k - 1))
    }
}

/// Summarize the first `max_items` applets to be linked, one line each under
/// a header, with a truncation marker when the list is longer. The caller
/// routes the lines to its log.
pub fn log_applets_summary(prefix: &str, applets: &Vec<(String, String)>, max_items: usize) -> (r:
    Vec<String>)
    ensures
        ({
            let ga = pairs_view(applets@);
            let shown = if ga.len() <= max_items {
                ga.len() as int
            } else {
                max_items as int
            };
            &&& r.deep_view().len() == 1 + shown + (if ga.len() > max_items {
                1int
            } else {
                0int
            })
            &&& r.deep_view()[0] == "Preparing to link "@ + crate::progress::spec_decimal(
                ga.len(),
            ) + " applet(s) for "@ + prefix@
            &&& r.deep_view().subrange(1, 1 + shown) == spec_summary_items(ga, shown)
            &&& (ga.len() > max_items ==> r.deep_view().last() == "  (truncated)"@)
        }),
{
    let ghost ga = pairs_view(applets@);
    let mut lines: Vec<String> = Vec::new();
    let mut header = "Preparing to link ".to_owned();
    let count = crate::progress::usize_to_string(applets.len());
    header.append(count.as_str());
    header.append(" applet(s) for ");
    header.append(prefix);
    lines.push(header);
    let shown = if applets.len() <= max_items {
        applets.len()
    } else {
        max_items
    };
    let mut i: usize = 0;
    proof {
        assert(lines.deep_view() =~= Seq::<Seq<char>>::empty().push(lines.deep_view()[0]));
        assert(lines.deep_view().subrange(1, 1) =~= spec_summary_items(ga, 0));
    }
    while i < shown
        invariant
            i <= shown,
            shown <= applets.len(),
            ga == pairs_view(applets@),
            lines.deep_view().len() == 1 + i,
            lines.deep_view()[0] == "Preparing to link "@ + crate::progress::spec_decimal(
                ga.len(),
            ) + " applet(s) for "@ + prefix@,
            lines.deep_view().subrange(1, 1 + i as int) == spec_summary_items(ga, i as int),
        decreases shown - i,
    {
        let mut line = "  [".to_owned();
        let idx = crate::progress::usize_to_string(i + 1);
        line.append(idx.as_str());
        line.append("] ");
        line.append(applets[i].1.as_str());
        line.append(" -> ");
        let target = resolve_usrbin(applets[i].0.as_str());
        line.append(target.as_str());
        let ghost lv = line@;
        lines.push(line);
        proof {
            assert(lv == spec_summary_item(ga, i as int));
            assert(lines.deep_view().subrange(1, 1 + (i + 1)) =~= spec_summary_items(
                ga,
                i as int,
            ).push(lv));
        }
        i += 1;
    }
    if applets.len() > max_items {
        lines.push("  (truncated)".to_owned());
        proof {
            assert(lines.deep_view().subrange(1, 1 + shown as int) =~= spec_summary_items(
                ga,
                shown as int,
            ));
        }
    }
    lines
}

/// Whether the repositories at hand can provide a package: the coreutils and
/// sudo replacements come from the official `extra` repository (and must be
/// present there when the probe answered), the findutils replacement needs
/// an AUR helper, and nothing at all works with neither source available.
pub open spec fn spec_download_gate(
    package: Seq<char>,
    extra_available: bool,
    aur_available: bool,
    repo_has_package: Option<bool>,
) -> bool {
    if !extra_available && !aur_available {
        false
    } else if package == "uutils-coreutils"@ || package == "sudo-rs"@ {
        extra_available && repo_has_package != Some(false)
    } else if package == "uutils-findutils-bin"@ {
        aur_available
    } else {
        true
    }
}

/// Decide whether a download may proceed, and whether a reinstall is
/// wanted. The caller probes the repositories and asks the user; this
/// settles the outcome: `Err(RepoGateFailed)` exactly when the repositories
/// cannot provide the package, and on success whether an already-installed
/// package should be reinstalled (when the user declined to reuse it).
pub fn check_download_prerequisites(
    package: &str,
    extra_available: bool,
    aur_available: bool,
    repo_has_package: Option<bool>,
    already_installed: bool,
    reuse_existing: bool,
) -> (r: Result<bool, Error>)
    ensures
        r is Ok <==> spec_download_gate(
            package@,
            extra_available,
            aur_available,
            repo_has_package,
        ),
        r matches Ok(reinstall) ==> reinstall == (already_installed && !reuse_existing),
        r matches Err(e) ==> e matches Error::RepoGateFailed { package: p, .. } && p@ == package@,
{
    if !extra_available && !aur_available {
        return Err(
            Error::RepoGateFailed {
                package: package.to_owned(),
                details: "no extra repository and no AUR helper available".to_owned(),
            },
        );
    }
    if str_eq(package, "uutils-coreutils") || str_eq(package, "sudo-rs") {
        if !extra_available {
            return Err(
                Error::RepoGateFailed {
                    package: package.to_owned(),
                    details: "extra repository unavailable".to_owned(),
                },
            );
        }
        let absent = match repo_has_package {
            Some(has) => has == false,
            None => false,
        };
        if absent {
            return Err(
                Error::RepoGateFailed {
                    package: package.to_owned(),
                    details: "package not present in the repositories".to_owned(),
                },
            );
        }
    } else if str_eq(package, "uutils-findutils-bin") {
        if !aur_available {
            return Err(
                Error::RepoGateFailed {
                    package: package.to_owned(),
                    details: "no AUR helper available".to_owned(),
                },
            );
        }
    }
    Ok(already_installed && !reuse_existing)
}

/// The registered experiments, in the order `--all` operates on them. The
/// order is load-bearing: findutils first, because building its package from
/// the AUR still needs working GNU checksum tools; the checksum flip comes
/// last, for safety, once the core utilities are active.
pub fn all_experiments() -> (r: Vec<Experiment>)
    ensures
        r@.len() == 4,
        r@[0] matches Experiment::Findutils(e) && e.name_view() == "findutils"@,
        r@[1] matches Experiment::Coreutils(e) && e.name_view() == "coreutils"@,
        r@[2] matches Experiment::SudoRs(e) && e.name_view() == "sudo-rs"@,
        r@[3] matches Experiment::Checksums(e) && e.name_view() == "checksums"@,
{
    let mut v: Vec<Experiment> = Vec::new();
    v.push(Experiment::Findutils(FindutilsExperiment::new()));
    v.push(Experiment::Coreutils(CoreutilsExperiment::new()));
    v.push(Experiment::SudoRs(SudoRsExperiment::new()));
    v.push(Experiment::Checksums(ChecksumsExperiment::new()));
    v
}

} // verus!
