//! Policy configuration for preflight and apply, and the source-trust check.

use vstd::prelude::*;

use crate::errors::Error;
use crate::strutil::{is_under, path_under};

verus! {

/// Whether a post-apply smoke check is requested.
#[derive(Clone, Copy, PartialEq, Eq, Structural)]
pub enum SmokePolicy {
    Off,
    On,
}

/// Configuration governing one preflight-and-apply cycle. The engine borrows
/// it and never mutates it.
pub struct Policy {
    /// Mutation is confined to these roots; an empty list means unconfined.
    pub allow_roots: Vec<String>,
    /// Abort (instead of warning) when a target's owning package is unknown.
    pub strict_ownership: bool,
    /// Downgrade source-trust failures to warnings.
    pub force_untrusted_source: bool,
    /// Treat a missing backup at restore time as a warning, not an error.
    pub force_restore_best_effort: bool,
    /// Require a rescue fallback to be present before committing.
    pub require_rescue: bool,
    /// Allow a commit without the process-level lock held.
    pub allow_unlocked_commit: bool,
    /// Whether to run post-apply smoke checks.
    pub smoke_policy: SmokePolicy,
    /// Force preflight's verdict to `ok` while still surfacing its stops.
    pub override_preflight: bool,
}

impl Policy {
    /// The allowed mutation roots, as character sequences.
    pub open spec fn allow_roots_view(&self) -> Seq<Seq<char>> {
        self.allow_roots.deep_view()
    }

    /// A policy with no confinement roots and every strictness switch off.
    pub fn new() -> (r: Policy)
        ensures
            r.allow_roots_view() == Seq::<Seq<char>>::empty(),
            !r.strict_ownership,
            !r.force_untrusted_source,
            !r.force_restore_best_effort,
            !r.require_rescue,
            !r.allow_unlocked_commit,
            r.smoke_policy == SmokePolicy::Off,
            !r.override_preflight,
    {
        let r = Policy {
            allow_roots: Vec::new(),
            strict_ownership: false,
            force_untrusted_source: false,
            force_restore_best_effort: false,
            require_rescue: false,
            allow_unlocked_commit: false,
            smoke_policy: SmokePolicy::Off,
            override_preflight: false,
        };
        proof {
            assert(r.allow_roots.deep_view() =~= Seq::<Seq<char>>::empty());
        }
        r
    }
}

/// A target is allowed when the policy names no roots, or some named root is
/// a lexical ancestor of it.
pub open spec fn spec_target_allowed(allow: Seq<Seq<char>>, target: Seq<char>) -> bool {
    allow.len() == 0 || exists|i: int| 0 <= i < allow.len() && path_under(#[trigger] allow[i], target)
}

/// Decide [`spec_target_allowed`].
pub fn target_allowed(policy: &Policy, target: &str) -> (r: bool)
    ensures
        r == spec_target_allowed(policy.allow_roots_view(), target@),
{
    if policy.allow_roots.len() == 0 {
        return true;
    }
    let mut i: usize = 0;
    while i < policy.allow_roots.len()
        invariant
            i <= policy.allow_roots.len(),
            forall|j: int| 0 <= j < i ==> !path_under(#[trigger] policy.allow_roots_view()[j], target@),
        decreases policy.allow_roots.len() - i,
    {
        if is_under(policy.allow_roots[i].as_str(), target) {
            proof {
                assert(path_under(policy.allow_roots_view()[i as int], target@));
            }
            return true;
        }
        i += 1;
    }
    false
}

/// The locations recognized as package-managed; a replacement source living
/// elsewhere is untrusted unless the policy forces it through.
pub open spec fn spec_trusted_dirs() -> Seq<Seq<char>> {
    seq!["/usr/bin"@, "/usr/sbin"@, "/usr/lib"@, "/bin"@, "/sbin"@, "/opt"@]
}

/// A source is trusted when it lies under one of the recognized
/// package-managed locations.
pub open spec fn spec_source_trusted(source: Seq<char>) -> bool {
    exists|i: int|
        0 <= i < spec_trusted_dirs().len() && path_under(#[trigger] spec_trusted_dirs()[i], source)
}

/// Decide [`spec_source_trusted`].
pub fn source_trusted(source: &str) -> (r: bool)
    ensures
        r == spec_source_trusted(source@),
{
    let dirs = ["/usr/bin", "/usr/sbin", "/usr/lib", "/bin", "/sbin", "/opt"];
    let mut i: usize = 0;
    while i < 6
        invariant
            i <= 6,
            dirs@.len() == 6,
            dirs@[0]@ == spec_trusted_dirs()[0],
            dirs@[1]@ == spec_trusted_dirs()[1],
            dirs@[2]@ == spec_trusted_dirs()[2],
            dirs@[3]@ == spec_trusted_dirs()[3],
            dirs@[4]@ == spec_trusted_dirs()[4],
            dirs@[5]@ == spec_trusted_dirs()[5],
            forall|j: int| 0 <= j < i ==> !path_under(#[trigger] spec_trusted_dirs()[j], source@),
        decreases 6 - i,
    {
        if is_under(dirs[i], source) {
            proof {
                assert(path_under(spec_trusted_dirs()[i as int], source@));
            }
            return true;
        }
        i += 1;
    }
    proof {
        if spec_source_trusted(source@) {
            let w = choose|j: int|
                0 <= j < spec_trusted_dirs().len() && path_under(
                    #[trigger] spec_trusted_dirs()[j],
                    source@,
                );
            assert(!path_under(spec_trusted_dirs()[w], source@));
        }
    }
    false
}

/// Reject an untrusted source unless the policy forces it through: fails
/// exactly when the source resolves outside every recognized package-managed
/// location and `force` is off.
pub fn check_source_trust(source: &str, force: bool) -> (r: Result<(), Error>)
    ensures
        r is Ok <==> (spec_source_trusted(source@) || force),
        r matches Err(e) ==> e matches Error::ExecutionFailed(m) && m@ == source@,
{
    if source_trusted(source) || force {
        Ok(())
    } else {
        Err(Error::ExecutionFailed(source.to_owned()))
    }
}

} // verus!
