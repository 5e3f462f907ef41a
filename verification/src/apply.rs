//! The transactional apply engine: executes a validated plan request by
//! request, in plan order, performing atomic symlink replacement with backup
//! creation, or restore from backup. `DryRun` simulates every request and
//! mutates nothing; `Commit` mutates and fails fast on the first hard error,
//! never rolling back what already succeeded — the report says exactly how
//! far execution got.

use vstd::prelude::*;

use crate::errors::Error;
use crate::fsmodel::{spec_immutable_blocked, spec_mount_suitable, EntryV, FsEntry, FsState, MountV};
use crate::paths::{backup_path, spec_backup_path};
use crate::plan::{LinkV, Plan, RestoreV};
use crate::policy::Policy;
use crate::strutil::str_eq;

verus! {

/// Real mutations, or a pure simulation.
#[derive(Clone, Copy, PartialEq, Eq, Structural, Debug)]
pub enum ApplyMode {
    DryRun,
    Commit,
}

/// Which kind of request an outcome reports on.
#[derive(Clone, Copy, PartialEq, Eq, Structural, Debug)]
pub enum ActionKind {
    Link,
    Restore,
}

/// How one request ended.
#[derive(Clone, Copy, PartialEq, Eq, Structural, Debug)]
pub enum OutcomeStatus {
    /// Simulated only (`DryRun`).
    WouldApply,
    /// The mutation was performed.
    Applied,
    /// The target already pointed at the source; nothing to do.
    SkippedIdempotent,
    /// No backup existed and the policy allows a best-effort skip.
    SkippedBestEffort,
    /// The request failed; the whole remaining plan was abandoned.
    Failed,
}

/// One entry of the report: which request, on which target, with what result.
pub struct ActionOutcome {
    pub kind: ActionKind,
    pub target: String,
    pub status: OutcomeStatus,
}

/// The mathematical value of an [`ActionOutcome`].
#[verifier::ext_equal]
pub struct OutcomeV {
    pub kind: ActionKind,
    pub target: Seq<char>,
    pub status: OutcomeStatus,
}

impl View for ActionOutcome {
    type V = OutcomeV;

    open spec fn view(&self) -> OutcomeV {
        OutcomeV { kind: self.kind, target: self.target@, status: self.status }
    }
}

/// What `apply` returns: the outcomes in execution order, and the error that
/// aborted the batch, if one did.
pub struct Report {
    pub executed: Vec<ActionOutcome>,
    pub errors: Vec<Error>,
}

impl Report {
    pub open spec fn executed_view(&self) -> Seq<OutcomeV> {
        Seq::new(self.executed@.len(), |i: int| self.executed@[i]@)
    }
}

/// A request, at the specification level.
#[verifier::ext_equal]
pub enum ReqV {
    Link { source: Seq<char>, target: Seq<char> },
    Restore { target: Seq<char> },
}

pub open spec fn req_target(r: ReqV) -> Seq<char> {
    match r {
        ReqV::Link { target, .. } => target,
        ReqV::Restore { target } => target,
    }
}

pub open spec fn req_kind(r: ReqV) -> ActionKind {
    match r {
        ReqV::Link { .. } => ActionKind::Link,
        ReqV::Restore { .. } => ActionKind::Restore,
    }
}

/// The requests of a plan in application order: links first, then restores.
pub open spec fn reqs_of(links: Seq<LinkV>, restores: Seq<RestoreV>) -> Seq<ReqV> {
    links.map_values(|l: LinkV| ReqV::Link { source: l.source, target: l.target })
        + restores.map_values(|r: RestoreV| ReqV::Restore { target: r.target })
}

/// An error, at the specification level.
#[verifier::ext_equal]
pub enum ErrV {
    FilesystemUnsuitable(Seq<char>),
    RestoreBackupMissing(Seq<char>),
}

/// The executable error that a specification-level error describes.
pub open spec fn err_matches(e: Error, v: ErrV) -> bool {
    match v {
        ErrV::FilesystemUnsuitable(p) => e matches Error::FilesystemUnsuitable(s) && s@ == p,
        ErrV::RestoreBackupMissing(p) => e matches Error::RestoreBackupMissing(s) && s@ == p,
    }
}

/// The effect of one request in `Commit` mode.
#[verifier::ext_equal]
pub struct StepV {
    pub m: Map<Seq<char>, EntryV>,
    pub outcome: OutcomeV,
    pub err: Option<ErrV>,
}

/// One `Commit`-mode step against the filesystem map.
///
/// A link request: a self-link or a target already pointing at the source is
/// an idempotent no-op (no backup churn); an unsuitable mount or an immutable
/// target is a hard failure (re-checked here, after preflight, against
/// time-of-use races); otherwise the existing target is renamed to its backup
/// — only if no backup exists yet — and the symlink is put in place.
///
/// A restore request: with a backup present, the target is rewritten from it
/// (the backup stays available for repeated restores); with none, the request
/// fails, or is skipped when the policy makes restores best-effort.
pub open spec fn spec_step_commit(
    m: Map<Seq<char>, EntryV>,
    mounts: Seq<MountV>,
    force_restore_best_effort: bool,
    r: ReqV,
) -> StepV {
    match r {
        ReqV::Link { source, target } => {
            if source == target {
                StepV {
                    m,
                    outcome: OutcomeV {
                        kind: ActionKind::Link,
                        target,
                        status: OutcomeStatus::SkippedIdempotent,
                    },
                    err: Option::None,
                }
            } else if m.contains_key(target) && m[target] == (EntryV::Symlink { dest: source }) {
                StepV {
                    m,
                    outcome: OutcomeV {
                        kind: ActionKind::Link,
                        target,
                        status: OutcomeStatus::SkippedIdempotent,
                    },
                    err: Option::None,
                }
            } else if !spec_mount_suitable(mounts, target) || spec_immutable_blocked(m, target) {
                StepV {
                    m,
                    outcome: OutcomeV {
                        kind: ActionKind::Link,
                        target,
                        status: OutcomeStatus::Failed,
                    },
                    err: Some(ErrV::FilesystemUnsuitable(target)),
                }
            } else {
                let bp = spec_backup_path(target);
                let m1 = if m.contains_key(target) && !m.contains_key(bp) {
                    m.remove(target).insert(bp, m[target])
                } else {
                    m
                };
                StepV {
                    m: m1.insert(target, EntryV::Symlink { dest: source }),
                    outcome: OutcomeV {
                        kind: ActionKind::Link,
                        target,
                        status: OutcomeStatus::Applied,
                    },
                    err: Option::None,
                }
            }
        },
        ReqV::Restore { target } => {
            let bp = spec_backup_path(target);
            if m.contains_key(bp) {
                if !spec_mount_suitable(mounts, target) || spec_immutable_blocked(m, target) {
                    StepV {
                        m,
                        outcome: OutcomeV {
                            kind: ActionKind::Restore,
                            target,
                            status: OutcomeStatus::Failed,
                        },
                        err: Some(ErrV::FilesystemUnsuitable(target)),
                    }
                } else {
                    StepV {
                        m: m.insert(target, m[bp]),
                        outcome: OutcomeV {
                            kind: ActionKind::Restore,
                            target,
                            status: OutcomeStatus::Applied,
                        },
                        err: Option::None,
                    }
                }
            } else if force_restore_best_effort {
                StepV {
                    m,
                    outcome: OutcomeV {
                        kind: ActionKind::Restore,
                        target,
                        status: OutcomeStatus::SkippedBestEffort,
                    },
                    err: Option::None,
                }
            } else {
                StepV {
                    m,
                    outcome: OutcomeV {
                        kind: ActionKind::Restore,
                        target,
                        status: OutcomeStatus::Failed,
                    },
                    err: Some(ErrV::RestoreBackupMissing(target)),
                }
            }
        },
    }
}

/// The cumulative effect of a request sequence in `Commit` mode.
#[verifier::ext_equal]
pub struct ApplyV {
    pub m: Map<Seq<char>, EntryV>,
    pub outcomes: Seq<OutcomeV>,
    pub err: Option<ErrV>,
}

/// Fold [`spec_step_commit`] over the requests, failing fast: once a step
/// errs, no later request is attempted.
pub open spec fn spec_apply_commit(
    m: Map<Seq<char>, EntryV>,
    mounts: Seq<MountV>,
    force_restore_best_effort: bool,
    reqs: Seq<ReqV>,
) -> ApplyV
    decreases reqs.len(),
{
    if reqs.len() == 0 {
        ApplyV { m, outcomes: Seq::empty(), err: Option::None }
    } else {
        let prev = spec_apply_commit(m, mounts, force_restore_best_effort, reqs.drop_last());
        match prev.err {
            Some(_) => prev,
            Option::None => {
                let st = spec_step_commit(prev.m, mounts, force_restore_best_effort, reqs.last());
                ApplyV { m: st.m, outcomes: prev.outcomes.push(st.outcome), err: st.err }
            },
        }
    }
}

/// Once a prefix of the requests has failed, the remaining requests change
/// nothing: the whole batch equals the failed prefix.
pub proof fn lemma_apply_err_persists(
    m: Map<Seq<char>, EntryV>,
    mounts: Seq<MountV>,
    force_restore_best_effort: bool,
    reqs: Seq<ReqV>,
    k: int,
)
    requires
        0 <= k <= reqs.len(),
        spec_apply_commit(m, mounts, force_restore_best_effort, reqs.take(k)).err is Some,
    ensures
        spec_apply_commit(m, mounts, force_restore_best_effort, reqs) == spec_apply_commit(
            m,
            mounts,
            force_restore_best_effort,
            reqs.take(k),
        ),
    decreases reqs.len() - k,
{
    if k == reqs.len() {
        assert(reqs.take(k) =~= reqs);
    } else {
        assert(reqs.take(k + 1).drop_last() =~= reqs.take(k));
        lemma_apply_err_persists(m, mounts, force_restore_best_effort, reqs, k + 1);
    }
}

/// The outcomes of a simulated run: one `WouldApply` per request, in order.
pub open spec fn spec_dryrun_outcomes(reqs: Seq<ReqV>) -> Seq<OutcomeV> {
    reqs.map_values(
        |r: ReqV|
            OutcomeV { kind: req_kind(r), target: req_target(r), status: OutcomeStatus::WouldApply },
    )
}

/// One `Commit`-mode link step against the model.
pub(crate) fn exec_link_step(fs: &mut FsState, source: &str, target: &str, force_restore_best_effort: bool)
    -> (r: (ActionOutcome, Option<Error>))
    requires
        old(fs).wf(),
    ensures
        final(fs).wf(),
        final(fs).mounts_view() == old(fs).mounts_view(),
        final(fs).owned_view() == old(fs).owned_view(),
        ({
            let st = spec_step_commit(
                old(fs).as_map(),
                old(fs).mounts_view(),
                force_restore_best_effort,
                ReqV::Link { source: source@, target: target@ },
            );
            &&& final(fs).as_map() == st.m
            &&& r.0@ == st.outcome
            &&& match st.err {
                Option::None => r.1 is None,
                Some(ev) => r.1 matches Some(e) && err_matches(e, ev),
            }
        }),
{
    if str_eq(source, target) {
        let outcome = ActionOutcome {
            kind: ActionKind::Link,
            target: target.to_owned(),
            status: OutcomeStatus::SkippedIdempotent,
        };
        return (outcome, None);
    }
    let already_linked = match fs.lookup(target) {
        Some(FsEntry::Symlink { dest }) => str_eq(dest.as_str(), source),
        _ => false,
    };
    if already_linked {
        proof {
            assert(fs.as_map()[target@] =~= (EntryV::Symlink { dest: source@ }));
        }
        let outcome = ActionOutcome {
            kind: ActionKind::Link,
            target: target.to_owned(),
            status: OutcomeStatus::SkippedIdempotent,
        };
        return (outcome, None);
    }
    if !fs.mount_suitable(target) || fs.immutable_blocked(target) {
        let outcome = ActionOutcome {
            kind: ActionKind::Link,
            target: target.to_owned(),
            status: OutcomeStatus::Failed,
        };
        return (outcome, Some(Error::FilesystemUnsuitable(target.to_owned())));
    }
    let bp = backup_path(target);
    let target_exists = fs.lookup(target).is_some();
    let backup_exists = fs.lookup(bp.as_str()).is_some();
    if target_exists && !backup_exists {
        let moved = fs.take_entry(target);
        match moved {
            Some(e) => {
                fs.store(bp.as_str(), e);
            },
            None => {
                proof {
                    assert(false);
                }
            },
        }
    }
    fs.store(target, FsEntry::Symlink { dest: source.to_owned() });
    let outcome = ActionOutcome {
        kind: ActionKind::Link,
        target: target.to_owned(),
        status: OutcomeStatus::Applied,
    };
    (outcome, None)
}

/// One `Commit`-mode restore step against the model.
pub(crate) fn exec_restore_step(fs: &mut FsState, target: &str, force_restore_best_effort: bool) -> (r: (
    ActionOutcome,
    Option<Error>,
))
    requires
        old(fs).wf(),
    ensures
        final(fs).wf(),
        final(fs).mounts_view() == old(fs).mounts_view(),
        final(fs).owned_view() == old(fs).owned_view(),
        ({
            let st = spec_step_commit(
                old(fs).as_map(),
                old(fs).mounts_view(),
                force_restore_best_effort,
                ReqV::Restore { target: target@ },
            );
            &&& final(fs).as_map() == st.m
            &&& r.0@ == st.outcome
            &&& match st.err {
                Option::None => r.1 is None,
                Some(ev) => r.1 matches Some(e) && err_matches(e, ev),
            }
        }),
{
    let bp = backup_path(target);
    let backup_entry = match fs.lookup(bp.as_str()) {
        Some(e) => Some(e.duplicate()),
        None => None,
    };
    match backup_entry {
        Some(e) => {
            if !fs.mount_suitable(target) || fs.immutable_blocked(target) {
                let outcome = ActionOutcome {
                    kind: ActionKind::Restore,
                    target: target.to_owned(),
                    status: OutcomeStatus::Failed,
                };
                return (outcome, Some(Error::FilesystemUnsuitable(target.to_owned())));
            }
            fs.store(target, e);
            let outcome = ActionOutcome {
                kind: ActionKind::Restore,
                target: target.to_owned(),
                status: OutcomeStatus::Applied,
            };
            (outcome, None)
        },
        None => {
            if force_restore_best_effort {
                let outcome = ActionOutcome {
                    kind: ActionKind::Restore,
                    target: target.to_owned(),
                    status: OutcomeStatus::SkippedBestEffort,
                };
                (outcome, None)
            } else {
                let outcome = ActionOutcome {
                    kind: ActionKind::Restore,
                    target: target.to_owned(),
                    status: OutcomeStatus::Failed,
                };
                (outcome, Some(Error::RestoreBackupMissing(target.to_owned())))
            }
        },
    }
}

/// Execute a validated plan against the filesystem model, in plan order:
/// links first, then restores. In `DryRun` mode nothing is mutated and every
/// request is reported as `WouldApply`, one outcome per request. In `Commit`
/// mode the requests take effect one by one as [`spec_step_commit`] states,
/// and the first hard error aborts the rest of the batch without rolling
/// back what already succeeded; the report's last outcome is then the failed
/// request and `errors` holds exactly that error.
pub fn apply(fs: &mut FsState, plan: &Plan, mode: ApplyMode, policy: &Policy) -> (r: Report)
    requires
        old(fs).wf(),
        plan.wf(),
    ensures
        final(fs).wf(),
        final(fs).mounts_view() == old(fs).mounts_view(),
        final(fs).owned_view() == old(fs).owned_view(),
        mode == ApplyMode::DryRun ==> {
            &&& final(fs).as_map() == old(fs).as_map()
            &&& r.executed_view() == spec_dryrun_outcomes(
                reqs_of(plan.links_view(), plan.restores_view()),
            )
            &&& r.errors@.len() == 0
        },
        mode == ApplyMode::Commit ==> {
            let v = spec_apply_commit(
                old(fs).as_map(),
                old(fs).mounts_view(),
                policy.force_restore_best_effort,
                reqs_of(plan.links_view(), plan.restores_view()),
            );
            &&& final(fs).as_map() == v.m
            &&& r.executed_view() == v.outcomes
            &&& (v.err is None ==> r.errors@.len() == 0)
            &&& (v.err matches Some(ev) ==> r.errors@.len() == 1 && err_matches(
                r.errors@[0],
                ev,
            ))
        },
{
    let ghost glinks = plan.links_view();
    let ghost grestores = plan.restores_view();
    let ghost greqs = reqs_of(glinks, grestores);
    let ghost gm0 = old(fs).as_map();
    let ghost gmounts = old(fs).mounts_view();
    let fbe = policy.force_restore_best_effort;
    let nlinks = plan.link_count();
    let nrestores = plan.restore_count();
    proof {
        assert(greqs.len() == glinks.len() + grestores.len());
        assert(forall|i: int|
            0 <= i < glinks.len() ==> greqs[i] == (ReqV::Link {
                source: (#[trigger] glinks[i]).source,
                target: glinks[i].target,
            }));
        assert(forall|i: int|
            0 <= i < grestores.len() ==> greqs[glinks.len() + i] == (ReqV::Restore {
                target: (#[trigger] grestores[i]).target,
            }));
    }
    let mut executed: Vec<ActionOutcome> = Vec::new();
    match mode {
        ApplyMode::DryRun => {
            let mut i: usize = 0;
            proof {
                assert(Seq::new(executed@.len(), |x: int| executed@[x]@) =~= spec_dryrun_outcomes(
                    greqs,
                ).take(0));
            }
            while i < nlinks
                invariant
                    i <= nlinks,
                    nlinks == glinks.len(),
                    plan.wf(),
                    glinks == plan.links_view(),
                    forall|x: int|
                        0 <= x < glinks.len() ==> greqs[x] == (ReqV::Link {
                            source: (#[trigger] glinks[x]).source,
                            target: glinks[x].target,
                        }),
                    greqs.len() == glinks.len() + grestores.len(),
                    Seq::new(executed@.len(), |x: int| executed@[x]@) == spec_dryrun_outcomes(
                        greqs,
                    ).take(i as int),
                decreases nlinks - i,
            {
                let req = plan.link_at(i);
                let outcome = ActionOutcome {
                    kind: ActionKind::Link,
                    target: req.target.as_str().to_owned(),
                    status: OutcomeStatus::WouldApply,
                };
                let ghost ov = outcome@;
                let ghost pre_outcomes = Seq::new(executed@.len(), |x: int| executed@[x]@);
                executed.push(outcome);
                proof {
                    assert(greqs[i as int] == (ReqV::Link {
                        source: glinks[i as int].source,
                        target: glinks[i as int].target,
                    }));
                    assert(req.target@ == glinks[i as int].target);
                    assert(spec_dryrun_outcomes(greqs)[i as int] == ov);
                    assert(spec_dryrun_outcomes(greqs).take(i + 1) =~= spec_dryrun_outcomes(
                        greqs,
                    ).take(i as int).push(ov));
                    assert(Seq::new(executed@.len(), |x: int| executed@[x]@) =~= pre_outcomes.push(
                        ov,
                    ));
                }
                i += 1;
            }
            let mut k: usize = 0;
            while k < nrestores
                invariant
                    k <= nrestores,
                    nlinks == glinks.len(),
                    nrestores == grestores.len(),
                    plan.wf(),
                    grestores == plan.restores_view(),
                    forall|x: int|
                        0 <= x < grestores.len() ==> greqs[glinks.len() + x] == (ReqV::Restore {
                            target: (#[trigger] grestores[x]).target,
                        }),
                    greqs.len() == glinks.len() + grestores.len(),
                    Seq::new(executed@.len(), |x: int| executed@[x]@) == spec_dryrun_outcomes(
                        greqs,
                    ).take(nlinks + k as int),
                decreases nrestores - k,
            {
                let req = plan.restore_at(k);
                let outcome = ActionOutcome {
                    kind: ActionKind::Restore,
                    target: req.target.as_str().to_owned(),
                    status: OutcomeStatus::WouldApply,
                };
                let ghost ov = outcome@;
                let ghost pre_outcomes = Seq::new(executed@.len(), |x: int| executed@[x]@);
                executed.push(outcome);
                proof {
                    assert(greqs[nlinks + k as int] == (ReqV::Restore {
                        target: grestores[k as int].target,
                    }));
                    assert(req.target@ == grestores[k as int].target);
                    assert(spec_dryrun_outcomes(greqs)[nlinks + k as int] == ov);
                    assert(spec_dryrun_outcomes(greqs).take(nlinks + k + 1)
                        =~= spec_dryrun_outcomes(greqs).take(nlinks + k as int).push(ov));
                    assert(Seq::new(executed@.len(), |x: int| executed@[x]@) =~= pre_outcomes.push(
                        ov,
                    ));
                }
                k += 1;
            }
            proof {
                assert(spec_dryrun_outcomes(greqs).take((nlinks + nrestores) as int)
                    =~= spec_dryrun_outcomes(greqs));
            }
            Report { executed, errors: Vec::new() }
        },
        ApplyMode::Commit => {
            let mut errors: Vec<Error> = Vec::new();
            let mut i: usize = 0;
            proof {
                assert(greqs.take(0) =~= Seq::<ReqV>::empty());
                assert(spec_apply_commit(gm0, gmounts, fbe, greqs.take(0)) =~= (ApplyV {
                    m: gm0,
                    outcomes: Seq::new(executed@.len(), |x: int| executed@[x]@),
                    err: Option::<ErrV>::None,
                }));
            }
            while i < nlinks
                invariant
                    mode == ApplyMode::Commit,
                    fbe == policy.force_restore_best_effort,
                    gm0 == old(fs).as_map(),
                    gmounts == old(fs).mounts_view(),
                    greqs == reqs_of(plan.links_view(), plan.restores_view()),
                    i <= nlinks,
                    nlinks == glinks.len(),
                    plan.wf(),
                    fs.wf(),
                    glinks == plan.links_view(),
                    fs.mounts_view() == gmounts,
                    fs.owned_view() == old(fs).owned_view(),
                    forall|x: int|
                        0 <= x < glinks.len() ==> greqs[x] == (ReqV::Link {
                            source: (#[trigger] glinks[x]).source,
                            target: glinks[x].target,
                        }),
                    greqs.len() == glinks.len() + grestores.len(),
                    errors@.len() == 0,
                    spec_apply_commit(gm0, gmounts, fbe, greqs.take(i as int)) == (ApplyV {
                        m: fs.as_map(),
                        outcomes: Seq::new(executed@.len(), |x: int| executed@[x]@),
                        err: Option::<ErrV>::None,
                    }),
                decreases nlinks - i,
            {
                proof {
                    assert(greqs.take(i + 1).drop_last() =~= greqs.take(i as int));
                    assert(greqs.take(i + 1).last() == greqs[i as int]);
                }
                let req = plan.link_at(i);
                let ghost pre_outcomes = Seq::new(executed@.len(), |x: int| executed@[x]@);
                let ghost pre_map = fs.as_map();
                let (outcome, err) = exec_link_step(
                    fs,
                    req.source.as_str(),
                    req.target.as_str(),
                    fbe,
                );
                let ghost ov = outcome@;
                executed.push(outcome);
                proof {
                    assert(greqs[i as int] == (ReqV::Link {
                        source: req.source@,
                        target: req.target@,
                    }));
                    let st = spec_step_commit(pre_map, gmounts, fbe, greqs[i as int]);
                    assert(fs.as_map() == st.m);
                    assert(ov == st.outcome);
                    assert(Seq::new(executed@.len(), |x: int| executed@[x]@) =~= pre_outcomes.push(
                        ov,
                    ));
                    assert(spec_apply_commit(gm0, gmounts, fbe, greqs.take(i + 1)) == (ApplyV {
                        m: fs.as_map(),
                        outcomes: Seq::new(executed@.len(), |x: int| executed@[x]@),
                        err: st.err,
                    }));
                }
                match err {
                    Some(e) => {
                        errors.push(e);
                        proof {
                            lemma_apply_err_persists(gm0, gmounts, fbe, greqs, i + 1);
                        }
                        return Report { executed, errors };
                    },
                    None => {},
                }
                i += 1;
            }
            let mut k: usize = 0;
            while k < nrestores
                invariant
                    mode == ApplyMode::Commit,
                    fbe == policy.force_restore_best_effort,
                    gm0 == old(fs).as_map(),
                    gmounts == old(fs).mounts_view(),
                    greqs == reqs_of(plan.links_view(), plan.restores_view()),
                    k <= nrestores,
                    nlinks == glinks.len(),
                    nrestores == grestores.len(),
                    plan.wf(),
                    fs.wf(),
                    grestores == plan.restores_view(),
                    fs.mounts_view() == gmounts,
                    fs.owned_view() == old(fs).owned_view(),
                    forall|x: int|
                        0 <= x < grestores.len() ==> greqs[glinks.len() + x] == (ReqV::Restore {
                            target: (#[trigger] grestores[x]).target,
                        }),
                    greqs.len() == glinks.len() + grestores.len(),
                    errors@.len() == 0,
                    spec_apply_commit(gm0, gmounts, fbe, greqs.take(nlinks + k as int)) == (ApplyV {
                        m: fs.as_map(),
                        outcomes: Seq::new(executed@.len(), |x: int| executed@[x]@),
                        err: Option::<ErrV>::None,
                    }),
                decreases nrestores - k,
            {
                proof {
                    assert(greqs.take(nlinks + k + 1).drop_last() =~= greqs.take(nlinks + k as int));
                    assert(greqs.take(nlinks + k + 1).last() == greqs[nlinks + k as int]);
                }
                let req = plan.restore_at(k);
                let ghost pre_outcomes = Seq::new(executed@.len(), |x: int| executed@[x]@);
                let ghost pre_map = fs.as_map();
                let (outcome, err) = exec_restore_step(fs, req.target.as_str(), fbe);
                let ghost ov = outcome@;
                executed.push(outcome);
                proof {
                    assert(greqs[nlinks + k as int] == (ReqV::Restore { target: req.target@ }));
                    let st = spec_step_commit(pre_map, gmounts, fbe, greqs[nlinks + k as int]);
                    assert(fs.as_map() == st.m);
                    assert(ov == st.outcome);
                    assert(Seq::new(executed@.len(), |x: int| executed@[x]@) =~= pre_outcomes.push(
                        ov,
                    ));
                    assert(spec_apply_commit(gm0, gmounts, fbe, greqs.take(nlinks + k + 1))
                        == (ApplyV {
                        m: fs.as_map(),
                        outcomes: Seq::new(executed@.len(), |x: int| executed@[x]@),
                        err: st.err,
                    }));
                }
                match err {
                    Some(e) => {
                        errors.push(e);
                        proof {
                            lemma_apply_err_persists(gm0, gmounts, fbe, greqs, nlinks + k + 1);
                        }
                        return Report { executed, errors };
                    },
                    None => {},
                }
                k += 1;
            }
            proof {
                assert(greqs.take((nlinks + nrestores) as int) =~= greqs);
            }
            Report { executed, errors }
        },
    }
}

} // verus!
