//! The preflight validator: every policy check is run against every request
//! without mutating anything, and all stop reasons are aggregated — never
//! cut short at the first failure, so one pass reports every problem.

use vstd::prelude::*;

use crate::errors::Error;
use crate::fsmodel::{entry_is_executable, spec_immutable_blocked, spec_mount_suitable, EntryV, FsState, MountV};
use crate::paths::{backup_path, spec_backup_path};
use crate::plan::{LinkV, Plan, RestoreV};
use crate::policy::{
    source_trusted, spec_source_trusted, spec_target_allowed, target_allowed, Policy,
};

verus! {

/// Why preflight stopped one request.
#[derive(Clone, Copy, PartialEq, Eq, Structural, Debug)]
pub enum StopReason {
    /// The target lies outside every allowed mutation root.
    TargetOutsideAllowedRoots,
    /// The target's mount is read-only or `noexec`.
    MountUnsuitable,
    /// The target carries the immutable attribute.
    TargetImmutable,
    /// The source lies outside the recognized package-managed locations.
    SourceUntrusted,
    /// The ownership oracle knows no owner and the policy is strict.
    OwnerUnknown,
    /// The source does not exist.
    SourceMissing,
    /// The source exists but has no executable bit.
    SourceNotExecutable,
    /// No backup exists for a restore target.
    BackupMissing,
}

/// One aggregated stop: the reason and the path it concerns.
pub struct Stop {
    pub reason: StopReason,
    pub path: String,
}

/// The mathematical value of a [`Stop`].
#[verifier::ext_equal]
pub struct StopV {
    pub reason: StopReason,
    pub path: Seq<char>,
}

impl View for Stop {
    type V = StopV;

    open spec fn view(&self) -> StopV {
        StopV { reason: self.reason, path: self.path@ }
    }
}

/// The verdict of one link request: the first failing check, if any, in the
/// fixed order confinement, mount, immutability, source trust, ownership,
/// source existence, source executability.
pub open spec fn spec_link_stop(
    m: Map<Seq<char>, EntryV>,
    mounts: Seq<MountV>,
    owned: Seq<Seq<char>>,
    allow: Seq<Seq<char>>,
    strict_ownership: bool,
    force_untrusted: bool,
    link: LinkV,
) -> Option<StopV> {
    if !spec_target_allowed(allow, link.target) {
        Some(StopV { reason: StopReason::TargetOutsideAllowedRoots, path: link.target })
    } else if !spec_mount_suitable(mounts, link.target) {
        Some(StopV { reason: StopReason::MountUnsuitable, path: link.target })
    } else if spec_immutable_blocked(m, link.target) {
        Some(StopV { reason: StopReason::TargetImmutable, path: link.target })
    } else if !spec_source_trusted(link.source) && !force_untrusted {
        Some(StopV { reason: StopReason::SourceUntrusted, path: link.source })
    } else if strict_ownership && !owned.contains(link.target) {
        Some(StopV { reason: StopReason::OwnerUnknown, path: link.target })
    } else if !m.contains_key(link.source) {
        Some(StopV { reason: StopReason::SourceMissing, path: link.source })
    } else if !entry_is_executable(m[link.source]) {
        Some(StopV { reason: StopReason::SourceNotExecutable, path: link.source })
    } else {
        Option::None
    }
}

/// The verdict of one restore request: a backup must exist for the target
/// unless the policy downgrades that to best effort.
pub open spec fn spec_restore_stop(
    m: Map<Seq<char>, EntryV>,
    force_restore_best_effort: bool,
    restore: RestoreV,
) -> Option<StopV> {
    if !m.contains_key(spec_backup_path(restore.target)) && !force_restore_best_effort {
        Some(StopV { reason: StopReason::BackupMissing, path: restore.target })
    } else {
        Option::None
    }
}

/// All stops of the link requests, in plan order.
pub open spec fn spec_link_stops(
    m: Map<Seq<char>, EntryV>,
    mounts: Seq<MountV>,
    owned: Seq<Seq<char>>,
    allow: Seq<Seq<char>>,
    strict_ownership: bool,
    force_untrusted: bool,
    links: Seq<LinkV>,
) -> Seq<StopV>
    decreases links.len(),
{
    if links.len() == 0 {
        Seq::empty()
    } else {
        let prefix = spec_link_stops(
            m,
            mounts,
            owned,
            allow,
            strict_ownership,
            force_untrusted,
            links.drop_last(),
        );
        match spec_link_stop(m, mounts, owned, allow, strict_ownership, force_untrusted, links.last()) {
            Some(st) => prefix.push(st),
            Option::None => prefix,
        }
    }
}

/// All stops of the restore requests, in plan order.
pub open spec fn spec_restore_stops(
    m: Map<Seq<char>, EntryV>,
    force_restore_best_effort: bool,
    restores: Seq<RestoreV>,
) -> Seq<StopV>
    decreases restores.len(),
{
    if restores.len() == 0 {
        Seq::empty()
    } else {
        let prefix = spec_restore_stops(m, force_restore_best_effort, restores.drop_last());
        match spec_restore_stop(m, force_restore_best_effort, restores.last()) {
            Some(st) => prefix.push(st),
            Option::None => prefix,
        }
    }
}

/// Every stop collected for the whole plan: links first, then restores.
pub open spec fn spec_preflight_stops(
    m: Map<Seq<char>, EntryV>,
    mounts: Seq<MountV>,
    owned: Seq<Seq<char>>,
    policy: Policy,
    links: Seq<LinkV>,
    restores: Seq<RestoreV>,
) -> Seq<StopV> {
    spec_link_stops(
        m,
        mounts,
        owned,
        policy.allow_roots_view(),
        policy.strict_ownership,
        policy.force_untrusted_source,
        links,
    ) + spec_restore_stops(m, policy.force_restore_best_effort, restores)
}

/// How many link requests are broken.
pub open spec fn count_broken_links(
    m: Map<Seq<char>, EntryV>,
    mounts: Seq<MountV>,
    owned: Seq<Seq<char>>,
    allow: Seq<Seq<char>>,
    strict_ownership: bool,
    force_untrusted: bool,
    links: Seq<LinkV>,
) -> nat
    decreases links.len(),
{
    if links.len() == 0 {
        0
    } else {
        count_broken_links(
            m,
            mounts,
            owned,
            allow,
            strict_ownership,
            force_untrusted,
            links.drop_last(),
        ) + if spec_link_stop(
            m,
            mounts,
            owned,
            allow,
            strict_ownership,
            force_untrusted,
            links.last(),
        ) is Some {
            1nat
        } else {
            0nat
        }
    }
}

/// How many restore requests are broken.
pub open spec fn count_broken_restores(
    m: Map<Seq<char>, EntryV>,
    force_restore_best_effort: bool,
    restores: Seq<RestoreV>,
) -> nat
    decreases restores.len(),
{
    if restores.len() == 0 {
        0
    } else {
        count_broken_restores(m, force_restore_best_effort, restores.drop_last()) + if
        spec_restore_stop(m, force_restore_best_effort, restores.last()) is Some {
            1nat
        } else {
            0nat
        }
    }
}

/// Preflight exhaustiveness: the validator never short-circuits across
/// requests, so a plan with N independently-broken requests yields exactly
/// N stops — one per broken request, none for the sound ones.
pub proof fn lemma_preflight_exhaustive(
    m: Map<Seq<char>, EntryV>,
    mounts: Seq<MountV>,
    owned: Seq<Seq<char>>,
    policy: Policy,
    links: Seq<LinkV>,
    restores: Seq<RestoreV>,
)
    ensures
        spec_preflight_stops(m, mounts, owned, policy, links, restores).len()
            == count_broken_links(
            m,
            mounts,
            owned,
            policy.allow_roots_view(),
            policy.strict_ownership,
            policy.force_untrusted_source,
            links,
        ) + count_broken_restores(m, policy.force_restore_best_effort, restores),
{
    lemma_link_stops_len(
        m,
        mounts,
        owned,
        policy.allow_roots_view(),
        policy.strict_ownership,
        policy.force_untrusted_source,
        links,
    );
    lemma_restore_stops_len(m, policy.force_restore_best_effort, restores);
}

proof fn lemma_link_stops_len(
    m: Map<Seq<char>, EntryV>,
    mounts: Seq<MountV>,
    owned: Seq<Seq<char>>,
    allow: Seq<Seq<char>>,
    strict_ownership: bool,
    force_untrusted: bool,
    links: Seq<LinkV>,
)
    ensures
        spec_link_stops(m, mounts, owned, allow, strict_ownership, force_untrusted, links).len()
            == count_broken_links(
            m,
            mounts,
            owned,
            allow,
            strict_ownership,
            force_untrusted,
            links,
        ),
    decreases links.len(),
{
    if links.len() > 0 {
        lemma_link_stops_len(
            m,
            mounts,
            owned,
            allow,
            strict_ownership,
            force_untrusted,
            links.drop_last(),
        );
    }
}

proof fn lemma_restore_stops_len(
    m: Map<Seq<char>, EntryV>,
    force_restore_best_effort: bool,
    restores: Seq<RestoreV>,
)
    ensures
        spec_restore_stops(m, force_restore_best_effort, restores).len() == count_broken_restores(
            m,
            force_restore_best_effort,
            restores,
        ),
    decreases restores.len(),
{
    if restores.len() > 0 {
        lemma_restore_stops_len(m, force_restore_best_effort, restores.drop_last());
    }
}

/// The aggregated verdict of a preflight pass.
pub struct PreflightResult {
    pub ok: bool,
    pub stops: Vec<Stop>,
}

impl PreflightResult {
    pub open spec fn stops_view(&self) -> Seq<StopV> {
        Seq::new(self.stops@.len(), |i: int| self.stops@[i]@)
    }
}

/// Run one link request through the checks.
fn link_stop(fs: &FsState, policy: &Policy, source: &str, target: &str) -> (r: Option<Stop>)
    requires
        fs.wf(),
    ensures
        match r {
            Some(st) => spec_link_stop(
                fs.as_map(),
                fs.mounts_view(),
                fs.owned_view(),
                policy.allow_roots_view(),
                policy.strict_ownership,
                policy.force_untrusted_source,
                LinkV { source: source@, target: target@ },
            ) == Some(st@),
            None => spec_link_stop(
                fs.as_map(),
                fs.mounts_view(),
                fs.owned_view(),
                policy.allow_roots_view(),
                policy.strict_ownership,
                policy.force_untrusted_source,
                LinkV { source: source@, target: target@ },
            ) is None,
        },
{
    if !target_allowed(policy, target) {
        return Some(
            Stop { reason: StopReason::TargetOutsideAllowedRoots, path: target.to_owned() },
        );
    }
    if !fs.mount_suitable(target) {
        return Some(Stop { reason: StopReason::MountUnsuitable, path: target.to_owned() });
    }
    if fs.immutable_blocked(target) {
        return Some(Stop { reason: StopReason::TargetImmutable, path: target.to_owned() });
    }
    if !source_trusted(source) && !policy.force_untrusted_source {
        return Some(Stop { reason: StopReason::SourceUntrusted, path: source.to_owned() });
    }
    if policy.strict_ownership && !fs.is_owned(target) {
        return Some(Stop { reason: StopReason::OwnerUnknown, path: target.to_owned() });
    }
    match fs.lookup(source) {
        None => Some(Stop { reason: StopReason::SourceMissing, path: source.to_owned() }),
        Some(e) => {
            let exec_ok = match e {
                crate::fsmodel::FsEntry::Regular { mode, .. } => *mode & 0o111 != 0,
                crate::fsmodel::FsEntry::Symlink { .. } => false,
                crate::fsmodel::FsEntry::Directory { .. } => false,
            };
            if !exec_ok {
                Some(Stop { reason: StopReason::SourceNotExecutable, path: source.to_owned() })
            } else {
                None
            }
        },
    }
}

/// Run one restore request through the backup-presence check.
fn restore_stop(fs: &FsState, policy: &Policy, target: &str) -> (r: Option<Stop>)
    requires
        fs.wf(),
    ensures
        match r {
            Some(st) => spec_restore_stop(
                fs.as_map(),
                policy.force_restore_best_effort,
                RestoreV { target: target@ },
            ) == Some(st@),
            None => spec_restore_stop(
                fs.as_map(),
                policy.force_restore_best_effort,
                RestoreV { target: target@ },
            ) is None,
        },
{
    let bp = backup_path(target);
    match fs.lookup(bp.as_str()) {
        Some(_) => None,
        None => {
            if policy.force_restore_best_effort {
                None
            } else {
                Some(Stop { reason: StopReason::BackupMissing, path: target.to_owned() })
            }
        },
    }
}

/// Validate a plan against policy and the observed filesystem state without
/// mutating anything. Every request is checked and every stop reason is
/// collected — `ok` is true exactly when zero stops were found, or when the
/// policy overrides the verdict (the stops are still surfaced).
pub fn preflight(fs: &FsState, plan: &Plan, policy: &Policy) -> (r: PreflightResult)
    requires
        fs.wf(),
        plan.wf(),
    ensures
        r.stops_view() == spec_preflight_stops(
            fs.as_map(),
            fs.mounts_view(),
            fs.owned_view(),
            *policy,
            plan.links_view(),
            plan.restores_view(),
        ),
        r.ok == (r.stops_view().len() == 0 || policy.override_preflight),
{
    let ghost glinks = plan.links_view();
    let ghost grestores = plan.restores_view();
    let mut stops: Vec<Stop> = Vec::new();
    let mut i: usize = 0;
    proof {
        assert(glinks.take(0) =~= Seq::<LinkV>::empty());
        assert(Seq::new(stops@.len(), |x: int| stops@[x]@) =~= spec_link_stops(
            fs.as_map(),
            fs.mounts_view(),
            fs.owned_view(),
            policy.allow_roots_view(),
            policy.strict_ownership,
            policy.force_untrusted_source,
            glinks.take(0),
        ));
    }
    while i < plan.link_count()
        invariant
            i <= glinks.len(),
            fs.wf(),
            plan.wf(),
            glinks == plan.links_view(),
            Seq::new(stops@.len(), |x: int| stops@[x]@) == spec_link_stops(
                fs.as_map(),
                fs.mounts_view(),
                fs.owned_view(),
                policy.allow_roots_view(),
                policy.strict_ownership,
                policy.force_untrusted_source,
                glinks.take(i as int),
            ),
        decreases glinks.len() - i,
    {
        proof {
            assert(glinks.take(i + 1).drop_last() =~= glinks.take(i as int));
            assert(glinks.take(i + 1).last() == glinks[i as int]);
        }
        let req = plan.link_at(i);
        let verdict = link_stop(fs, policy, req.source.as_str(), req.target.as_str());
        proof {
            assert(LinkV { source: req.source@, target: req.target@ } == glinks[i as int]);
        }
        match verdict {
            Some(st) => {
                stops.push(st);
            },
            None => {},
        }
        proof {
            assert(Seq::new(stops@.len(), |x: int| stops@[x]@) =~= spec_link_stops(
                fs.as_map(),
                fs.mounts_view(),
                fs.owned_view(),
                policy.allow_roots_view(),
                policy.strict_ownership,
                policy.force_untrusted_source,
                glinks.take(i + 1),
            ));
        }
        i += 1;
    }
    proof {
        assert(glinks.take(glinks.len() as int) =~= glinks);
    }
    let ghost link_part = Seq::new(stops@.len(), |x: int| stops@[x]@);
    let mut k: usize = 0;
    proof {
        assert(grestores.take(0) =~= Seq::<RestoreV>::empty());
        assert(Seq::new(stops@.len(), |x: int| stops@[x]@) =~= link_part + spec_restore_stops(
            fs.as_map(),
            policy.force_restore_best_effort,
            grestores.take(0),
        ));
    }
    while k < plan.restore_count()
        invariant
            k <= grestores.len(),
            fs.wf(),
            plan.wf(),
            grestores == plan.restores_view(),
            link_part == spec_link_stops(
                fs.as_map(),
                fs.mounts_view(),
                fs.owned_view(),
                policy.allow_roots_view(),
                policy.strict_ownership,
                policy.force_untrusted_source,
                plan.links_view(),
            ),
            Seq::new(stops@.len(), |x: int| stops@[x]@) == link_part + spec_restore_stops(
                fs.as_map(),
                policy.force_restore_best_effort,
                grestores.take(k as int),
            ),
        decreases grestores.len() - k,
    {
        proof {
            assert(grestores.take(k + 1).drop_last() =~= grestores.take(k as int));
            assert(grestores.take(k + 1).last() == grestores[k as int]);
        }
        let req = plan.restore_at(k);
        let verdict = restore_stop(fs, policy, req.target.as_str());
        proof {
            assert(RestoreV { target: req.target@ } == grestores[k as int]);
        }
        let ghost old_stops = Seq::new(stops@.len(), |x: int| stops@[x]@);
        match verdict {
            Some(st) => {
                let ghost stv = st@;
                stops.push(st);
                proof {
                    assert(spec_restore_stops(
                        fs.as_map(),
                        policy.force_restore_best_effort,
                        grestores.take(k + 1),
                    ) == spec_restore_stops(
                        fs.as_map(),
                        policy.force_restore_best_effort,
                        grestores.take(k as int),
                    ).push(stv));
                    assert(Seq::new(stops@.len(), |x: int| stops@[x]@) =~= old_stops.push(stv));
                    assert(old_stops.push(stv) =~= link_part + spec_restore_stops(
                        fs.as_map(),
                        policy.force_restore_best_effort,
                        grestores.take(k + 1),
                    ));
                }
            },
            None => {
                proof {
                    assert(spec_restore_stops(
                        fs.as_map(),
                        policy.force_restore_best_effort,
                        grestores.take(k + 1),
                    ) == spec_restore_stops(
                        fs.as_map(),
                        policy.force_restore_best_effort,
                        grestores.take(k as int),
                    ));
                }
            },
        }
        k += 1;
    }
    proof {
        assert(grestores.take(grestores.len() as int) =~= grestores);
    }
    let ok = stops.len() == 0 || policy.override_preflight;
    PreflightResult { ok, stops }
}

/// Fail when the mount containing `path` is read-only or mounted `noexec`.
pub fn ensure_mount_rw_exec(fs: &FsState, path: &str) -> (r: Result<(), Error>)
    ensures
        r is Ok <==> spec_mount_suitable(fs.mounts_view(), path@),
        r matches Err(e) ==> e matches Error::FilesystemUnsuitable(m) && m@ == path@,
{
    if fs.mount_suitable(path) {
        Ok(())
    } else {
        Err(Error::FilesystemUnsuitable(path.to_owned()))
    }
}

/// Fail when the target, or its containing directory, carries an immutable
/// attribute that would block rename or unlink.
pub fn check_immutable(fs: &FsState, path: &str) -> (r: Result<(), Error>)
    requires
        fs.wf(),
    ensures
        r is Ok <==> !spec_immutable_blocked(fs.as_map(), path@),
        r matches Err(e) ==> e matches Error::FilesystemUnsuitable(m) && m@ == path@,
{
    if fs.immutable_blocked(path) {
        Err(Error::FilesystemUnsuitable(path.to_owned()))
    } else {
        Ok(())
    }
}

} // verus!
