//! The post-apply verification layer: confirm that a target points where
//! expected, and that privileged binaries kept their required ownership and
//! mode bits.

use vstd::prelude::*;

use crate::errors::Error;
use crate::fsmodel::{EntryV, FsEntry, FsState};
use crate::strutil::str_eq;

verus! {

/// The target's immediate symlink value is exactly the expected source.
pub open spec fn spec_verify_link(
    m: Map<Seq<char>, EntryV>,
    target: Seq<char>,
    expected: Seq<char>,
) -> bool {
    m.contains_key(target) && m[target] == (EntryV::Symlink { dest: expected })
}

/// Resolve the target's immediate symlink value (not following chains) and
/// compare it byte for byte to the expected source path.
pub fn verify_link(fs: &FsState, target: &str, expected_source: &str) -> (r: bool)
    requires
        fs.wf(),
    ensures
        r == spec_verify_link(fs.as_map(), target@, expected_source@),
{
    match fs.lookup(target) {
        Some(FsEntry::Symlink { dest }) => {
            let hit = str_eq(dest.as_str(), expected_source);
            proof {
                if hit {
                    assert(fs.as_map()[target@] =~= (EntryV::Symlink { dest: expected_source@ }));
                }
            }
            hit
        },
        _ => false,
    }
}

/// How many links a resolution may follow before giving up.
pub open spec fn resolve_fuel() -> nat {
    32
}

/// Follow symlinks from `p` until a regular file, with bounded depth:
/// `None` when the path is missing, dangling, or the chain is too deep.
pub open spec fn spec_resolve(m: Map<Seq<char>, EntryV>, p: Seq<char>, fuel: nat) -> Option<
    Seq<char>,
>
    decreases fuel,
{
    if !m.contains_key(p) {
        Option::None
    } else {
        match m[p] {
            EntryV::Regular { .. } => Some(p),
            EntryV::Symlink { dest } => if fuel == 0 {
                Option::None
            } else {
                spec_resolve(m, dest, (fuel - 1) as nat)
            },
            EntryV::Directory { .. } => Option::None,
        }
    }
}

/// The resolved entry is a regular file owned by root, group root, with the
/// setuid bit set.
pub open spec fn spec_setuid_root_ok(m: Map<Seq<char>, EntryV>, target: Seq<char>) -> bool {
    match spec_resolve(m, target, resolve_fuel()) {
        Option::None => false,
        Some(p) => m[p] matches EntryV::Regular { uid, gid, mode, .. } && uid == 0 && gid == 0
            && mode & 0o4000 != 0,
    }
}

/// Canonicalize the target through the model's symlinks and require uid 0,
/// gid 0, and the setuid bit — the check for privileged-binary swaps, where
/// a silent permission regression would be a security incident.
pub fn verify_setuid_root(fs: &FsState, target: &str) -> (r: Result<(), Error>)
    requires
        fs.wf(),
    ensures
        r is Ok <==> spec_setuid_root_ok(fs.as_map(), target@),
        r matches Err(e) ==> e matches Error::ExecutionFailed(m) && m@ == target@,
{
    let mut cur: String = target.to_owned();
    let mut fuel: usize = 32;
    proof {
        assert(spec_resolve(fs.as_map(), target@, resolve_fuel()) == spec_resolve(
            fs.as_map(),
            cur@,
            fuel as nat,
        ));
    }
    loop
        invariant
            fs.wf(),
            fuel <= 32,
            spec_resolve(fs.as_map(), target@, resolve_fuel()) == spec_resolve(
                fs.as_map(),
                cur@,
                fuel as nat,
            ),
        decreases fuel,
    {
        match fs.lookup(cur.as_str()) {
            None => {
                return Err(Error::ExecutionFailed(target.to_owned()));
            },
            Some(FsEntry::Regular { mode, uid, gid, .. }) => {
                if *uid == 0 && *gid == 0 && *mode & 0o4000 != 0 {
                    return Ok(());
                } else {
                    return Err(Error::ExecutionFailed(target.to_owned()));
                }
            },
            Some(FsEntry::Symlink { dest }) => {
                if fuel == 0 {
                    return Err(Error::ExecutionFailed(target.to_owned()));
                }
                let next = dest.clone();
                fuel = fuel - 1;
                cur = next;
            },
            Some(FsEntry::Directory { .. }) => {
                return Err(Error::ExecutionFailed(target.to_owned()));
            },
        }
    }
}

/// Guard a replacement `sudo` binary before linking it: on the live root it
/// must be owned by root, group root, setuid and executable; on any other
/// root (hermetic test trees) setuid and executable suffice. The caller
/// passes the values read from the binary's own metadata.
pub fn sudo_guard(live_root: bool, uid: u32, gid: u32, mode: u32) -> (r: Result<(), Error>)
    ensures
        live_root ==> (r is Ok <==> (uid == 0 && gid == 0 && mode & 0o4000 != 0 && mode & 0o111
            != 0)),
        !live_root ==> (r is Ok <==> (mode & 0o4000 != 0 && mode & 0o111 != 0)),
        r matches Err(e) ==> e matches Error::ExecutionFailed(_),
{
    let is_setuid = mode & 0o4000 != 0;
    let is_exec = mode & 0o111 != 0;
    if live_root {
        if uid != 0 || gid != 0 || !is_setuid || !is_exec {
            return Err(
                Error::ExecutionFailed(
                    "replacement sudo is not setuid root; ensure correct packaging and permissions".to_owned(),
                ),
            );
        }
        Ok(())
    } else {
        if !is_setuid || !is_exec {
            return Err(
                Error::ExecutionFailed(
                    "replacement sudo is not setuid and executable; adjust the test artifact".to_owned(),
                ),
            );
        }
        Ok(())
    }
}

} // verus!
