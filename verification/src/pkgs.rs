//! Package selection: which replacement provides which distro package, and
//! where its binaries are looked for. Resolution probes the filesystem model
//! handed in by the caller; consulting the package manager's file lists is
//! the caller's job.

use vstd::prelude::*;

use crate::fsmodel::{EntryV, FsState};
use crate::paths::{ensure_under_root, spec_under_root};

verus! {

/// A replaceable package family.
#[derive(Clone, Copy, PartialEq, Eq, Structural, Debug)]
pub enum Package {
    Coreutils,
    Findutils,
    Sudo,
}

/// Shells for which completions can be generated.
#[derive(Clone, Copy, PartialEq, Eq, Structural, Debug)]
pub enum Shell {
    Bash,
    Zsh,
    Fish,
}

/// The parity threshold to enforce for replacement coverage.
#[derive(Clone, Copy, PartialEq, Eq, Structural, Debug)]
pub enum ParityLevel {
    /// Critical set only; the SELinux set is required iff SELinux is enabled.
    Standard,
    /// The critical set plus all known applets of the chosen build.
    Strict,
    /// The SELinux set is required regardless of system status.
    Selinux,
    /// No parity gate.
    Unchecked,
}

/// AUR helper selection.
#[derive(Clone, Copy, PartialEq, Eq, Structural, Debug)]
pub enum AurHelperArg {
    /// Auto-detect an installed helper.
    Auto,
    /// Use no AUR helper at all.
    NoHelper,
    Paru,
    Yay,
    Trizen,
    Pamac,
}

impl AurHelperArg {
    /// The helper name this selection stands for.
    pub fn as_helper_str(&self) -> (r: &'static str)
        ensures
            r@ == match self {
                AurHelperArg::Auto => "auto"@,
                AurHelperArg::NoHelper => "none"@,
                AurHelperArg::Paru => "paru"@,
                AurHelperArg::Yay => "yay"@,
                AurHelperArg::Trizen => "trizen"@,
                AurHelperArg::Pamac => "pamac"@,
            },
    {
        match self {
            AurHelperArg::Auto => "auto",
            AurHelperArg::NoHelper => "none",
            AurHelperArg::Paru => "paru",
            AurHelperArg::Yay => "yay",
            AurHelperArg::Trizen => "trizen",
            AurHelperArg::Pamac => "pamac",
        }
    }
}

/// The distro package that a family replaces.
pub fn distro_pkg_name(pkg: Package) -> (r: &'static str)
    ensures
        r@ == match pkg {
            Package::Coreutils => "coreutils"@,
            Package::Findutils => "findutils"@,
            Package::Sudo => "sudo"@,
        },
{
    match pkg {
        Package::Coreutils => "coreutils",
        Package::Findutils => "findutils",
        Package::Sudo => "sudo",
    }
}

/// The replacement package that provides a family.
pub fn replacement_pkg_name(pkg: Package) -> (r: &'static str)
    ensures
        r@ == match pkg {
            Package::Coreutils => "uutils-coreutils"@,
            Package::Findutils => "uutils-findutils-bin"@,
            Package::Sudo => "sudo-rs"@,
        },
{
    match pkg {
        Package::Coreutils => "uutils-coreutils",
        Package::Findutils => "uutils-findutils-bin",
        Package::Sudo => "sudo-rs",
    }
}

/// The first candidate present in the filesystem model, front to back.
pub open spec fn spec_first_existing(m: Map<Seq<char>, EntryV>, cands: Seq<Seq<char>>) -> Option<
    Seq<char>,
>
    decreases cands.len(),
{
    if cands.len() == 0 {
        Option::None
    } else if m.contains_key(cands[0]) {
        Some(cands[0])
    } else {
        spec_first_existing(m, cands.drop_first())
    }
}

/// Pick the first candidate path that exists in the model.
pub(crate) fn pick_existing(fs: &FsState, cands: &Vec<String>) -> (r: Option<String>)
    requires
        fs.wf(),
    ensures
        match r {
            Some(p) => spec_first_existing(fs.as_map(), cands.deep_view()) == Some(p@),
            None => spec_first_existing(fs.as_map(), cands.deep_view()) is None,
        },
{
    let ghost gc = cands.deep_view();
    let mut i: usize = 0;
    proof {
        assert(gc.skip(0) =~= gc);
    }
    while i < cands.len()
        invariant
            i <= cands.len(),
            fs.wf(),
            gc == cands.deep_view(),
            spec_first_existing(fs.as_map(), gc) == spec_first_existing(
                fs.as_map(),
                gc.skip(i as int),
            ),
        decreases cands.len() - i,
    {
        proof {
            assert(gc.skip(i as int).len() == gc.len() - i);
            assert(gc.skip(i as int)[0] == gc[i as int]);
            assert(gc.skip(i as int).drop_first() =~= gc.skip(i + 1));
        }
        if fs.lookup(cands[i].as_str()).is_some() {
            return Some(cands[i].clone());
        }
        i += 1;
    }
    proof {
        assert(gc.skip(cands@.len() as int) =~= Seq::<Seq<char>>::empty());
    }
    None
}

/// The dispatcher candidates for a family, in preference order.
pub open spec fn spec_source_bin_candidates(pkg: Package) -> Seq<Seq<char>> {
    match pkg {
        Package::Coreutils => seq![
            "/usr/bin/coreutils"@,
            "/usr/bin/uutils"@,
            "/usr/lib/uutils-coreutils/uutils"@,
        ],
        Package::Findutils => seq![
            "/usr/bin/findutils"@,
            "/usr/lib/uutils-findutils/findutils"@,
            "/usr/bin/uutils"@,
        ],
        Package::Sudo => seq!["/usr/bin/sudo-rs"@, "/usr/bin/sudo"@],
    }
}

/// The fallback dispatcher when no candidate exists.
pub open spec fn spec_source_bin_fallback(pkg: Package) -> Seq<char> {
    match pkg {
        Package::Coreutils => "/usr/bin/coreutils"@,
        Package::Findutils => "/usr/bin/findutils"@,
        Package::Sudo => "/usr/bin/sudo"@,
    }
}

/// Resolve a plausible multi-call or single-binary source path for a family:
/// the first known location present in the model, or the family's canonical
/// path when none is. Querying the package manager's file list for an exact
/// location is the caller's concern and takes precedence when it answers.
pub fn resolve_source_bin(pkg: Package, fs: &FsState) -> (r: String)
    requires
        fs.wf(),
    ensures
        r@ == match spec_first_existing(fs.as_map(), spec_source_bin_candidates(pkg)) {
            Some(p) => p,
            Option::None => spec_source_bin_fallback(pkg),
        },
{
    let mut cands: Vec<String> = Vec::new();
    match pkg {
        Package::Coreutils => {
            cands.push("/usr/bin/coreutils".to_owned());
            cands.push("/usr/bin/uutils".to_owned());
            cands.push("/usr/lib/uutils-coreutils/uutils".to_owned());
        },
        Package::Findutils => {
            cands.push("/usr/bin/findutils".to_owned());
            cands.push("/usr/lib/uutils-findutils/findutils".to_owned());
            cands.push("/usr/bin/uutils".to_owned());
        },
        Package::Sudo => {
            cands.push("/usr/bin/sudo-rs".to_owned());
            cands.push("/usr/bin/sudo".to_owned());
        },
    }
    proof {
        assert(cands.deep_view() =~= spec_source_bin_candidates(pkg));
    }
    match pick_existing(fs, &cands) {
        Some(p) => p,
        None => match pkg {
            Package::Coreutils => "/usr/bin/coreutils".to_owned(),
            Package::Findutils => "/usr/bin/findutils".to_owned(),
            Package::Sudo => "/usr/bin/sudo".to_owned(),
        },
    }
}

/// The per-applet binary candidates for a family.
pub open spec fn spec_applet_source_candidates(pkg: Package, applet: Seq<char>) -> Seq<Seq<char>> {
    match pkg {
        Package::Coreutils => seq![
            "/usr/bin/uu-"@ + applet,
            "/usr/lib/uutils-coreutils/uu-"@ + applet,
        ],
        Package::Findutils => seq![
            "/usr/bin/uu-"@ + applet,
            "/usr/lib/uutils-findutils/uu-"@ + applet,
        ],
        Package::Sudo => Seq::empty(),
    }
}

/// Resolve the source binary for one applet: prefer a per-applet binary
/// present in the model, falling back to the base dispatcher. A package
///-manager file-list hit, when the caller has one, takes precedence and is
/// passed instead of calling this.
pub fn resolve_applet_source(pkg: Package, base: &str, applet: &str, fs: &FsState) -> (r: String)
    requires
        fs.wf(),
    ensures
        r@ == match spec_first_existing(fs.as_map(), spec_applet_source_candidates(pkg, applet@)) {
            Some(p) => p,
            Option::None => base@,
        },
{
    let mut cands: Vec<String> = Vec::new();
    match pkg {
        Package::Coreutils => {
            let mut a = "/usr/bin/uu-".to_owned();
            a.append(applet);
            cands.push(a);
            let mut b = "/usr/lib/uutils-coreutils/uu-".to_owned();
            b.append(applet);
            cands.push(b);
        },
        Package::Findutils => {
            let mut a = "/usr/bin/uu-".to_owned();
            a.append(applet);
            cands.push(a);
            let mut b = "/usr/lib/uutils-findutils/uu-".to_owned();
            b.append(applet);
            cands.push(b);
        },
        Package::Sudo => {},
    }
    proof {
        assert(cands.deep_view() =~= spec_applet_source_candidates(pkg, applet@));
    }
    match pick_existing(fs, &cands) {
        Some(p) => p,
        None => base.to_owned(),
    }
}

/// The offline artifact location for a family, relative to the root.
pub open spec fn spec_artifact_rel(pkg: Package) -> Seq<char> {
    match pkg {
        Package::Coreutils => "/opt/uutils/uutils"@,
        Package::Findutils => "/opt/uutils-findutils/uutils-findutils"@,
        Package::Sudo => "/opt/sudo-rs/sudo-rs"@,
    }
}

/// Guess where a locally staged artifact for the family would live under the
/// given root: the conventional location, if present in the model.
pub fn guess_artifact_path(root: &str, pkg: Package, fs: &FsState) -> (r: Option<String>)
    requires
        fs.wf(),
    ensures
        ({
            let p = spec_under_root(root@, spec_artifact_rel(pkg));
            match r {
                Some(s) => s@ == p && fs.as_map().contains_key(p),
                None => !fs.as_map().contains_key(p),
            }
        }),
{
    let rel = match pkg {
        Package::Coreutils => "/opt/uutils/uutils",
        Package::Findutils => "/opt/uutils-findutils/uutils-findutils",
        Package::Sudo => "/opt/sudo-rs/sudo-rs",
    };
    let abs = ensure_under_root(root, rel);
    if fs.lookup(abs.as_str()).is_some() {
        Some(abs)
    } else {
        None
    }
}

} // verus!
