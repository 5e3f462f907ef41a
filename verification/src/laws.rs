//! The transactional guarantees of the engine, stated and proved over the
//! specification-level apply semantics: idempotent re-apply, exact
//! round-trip of link and restore, and fail-fast ordering.

use vstd::prelude::*;

use crate::apply::{
    req_kind, req_target, spec_apply_commit, spec_step_commit, ActionKind, ApplyV, OutcomeStatus,
    ReqV, StepV,
};
use crate::fsmodel::{spec_immutable_blocked, spec_mount_suitable, EntryV, MountV};
use crate::paths::{lemma_backup_path_ne, lemma_last_slash_bounds, spec_backup_path, spec_parent_dir};

verus! {

/// Idempotence: once a link request has gone through in `Commit` mode,
/// applying the very same request again changes nothing — the filesystem
/// state is identical, no error arises, and in particular no second backup
/// appears, since the state (backups included) is unchanged.
pub proof fn lemma_link_idempotent(
    m: Map<Seq<char>, EntryV>,
    mounts: Seq<MountV>,
    force_restore_best_effort: bool,
    source: Seq<char>,
    target: Seq<char>,
)
    requires
        spec_step_commit(
            m,
            mounts,
            force_restore_best_effort,
            ReqV::Link { source, target },
        ).err is None,
    ensures
        ({
            let st1 = spec_step_commit(
                m,
                mounts,
                force_restore_best_effort,
                ReqV::Link { source, target },
            );
            let st2 = spec_step_commit(
                st1.m,
                mounts,
                force_restore_best_effort,
                ReqV::Link { source, target },
            );
            &&& st2.m == st1.m
            &&& st2.err is None
            &&& st2.outcome.status == OutcomeStatus::SkippedIdempotent
        }),
{
    let st1 = spec_step_commit(m, mounts, force_restore_best_effort, ReqV::Link { source, target });
    if source == target {
    } else if m.contains_key(target) && m[target] == (EntryV::Symlink { dest: source }) {
    } else {
        assert(st1.m.contains_key(target));
        assert(st1.m[target] == (EntryV::Symlink { dest: source }));
    }
}

/// Idempotence, lifted to a whole single-request plan: committing the same
/// link plan twice ends in the same state as committing it once.
pub proof fn lemma_apply_link_twice(
    m: Map<Seq<char>, EntryV>,
    mounts: Seq<MountV>,
    force_restore_best_effort: bool,
    source: Seq<char>,
    target: Seq<char>,
)
    requires
        spec_apply_commit(
            m,
            mounts,
            force_restore_best_effort,
            seq![ReqV::Link { source, target }],
        ).err is None,
    ensures
        ({
            let v1 = spec_apply_commit(
                m,
                mounts,
                force_restore_best_effort,
                seq![ReqV::Link { source, target }],
            );
            let v2 = spec_apply_commit(
                v1.m,
                mounts,
                force_restore_best_effort,
                seq![ReqV::Link { source, target }],
            );
            &&& v2.m == v1.m
            &&& v2.err is None
        }),
{
    let r = ReqV::Link { source, target };
    assert(seq![r].drop_last() =~= Seq::<ReqV>::empty());
    assert(seq![r].last() == r);
    assert(spec_apply_commit(m, mounts, force_restore_best_effort, Seq::<ReqV>::empty())
        == (ApplyV { m, outcomes: Seq::<crate::apply::OutcomeV>::empty(), err: Option::None }));
    let st1 = spec_step_commit(m, mounts, force_restore_best_effort, r);
    let v1 = spec_apply_commit(m, mounts, force_restore_best_effort, seq![r]);
    assert(v1.m == st1.m && v1.err == st1.err);
    lemma_link_idempotent(m, mounts, force_restore_best_effort, source, target);
    assert(spec_apply_commit(v1.m, mounts, force_restore_best_effort, Seq::<ReqV>::empty())
        == (ApplyV { m: v1.m, outcomes: Seq::<crate::apply::OutcomeV>::empty(), err: Option::None }));
}

/// Round-trip: linking a regular target (with no stale backup in the way)
/// moves the original file into the backup and puts the symlink in place;
/// restoring the same target afterwards brings back exactly the original
/// entry — same content, same attributes — and removes the symlink.
pub proof fn lemma_link_restore_round_trip(
    m: Map<Seq<char>, EntryV>,
    mounts: Seq<MountV>,
    force_restore_best_effort: bool,
    source: Seq<char>,
    target: Seq<char>,
)
    requires
        source != target,
        m.contains_key(target),
        m[target] is Regular,
        !m.contains_key(spec_backup_path(target)),
        spec_mount_suitable(mounts, target),
        !spec_immutable_blocked(m, target),
    ensures
        ({
            let st1 = spec_step_commit(
                m,
                mounts,
                force_restore_best_effort,
                ReqV::Link { source, target },
            );
            let st2 = spec_step_commit(
                st1.m,
                mounts,
                force_restore_best_effort,
                ReqV::Restore { target },
            );
            &&& st1.err is None
            &&& st1.m[target] == (EntryV::Symlink { dest: source })
            &&& st1.m[spec_backup_path(target)] == m[target]
            &&& st2.err is None
            &&& st2.m[target] == m[target]
            &&& st2.m[target] is Regular
            &&& st2.m[spec_backup_path(target)] == m[target]
        }),
{
    lemma_backup_path_ne(target);
    lemma_last_slash_bounds(target);
    let bp = spec_backup_path(target);
    assert(m[target] != (EntryV::Symlink { dest: source }));
    let st1 = spec_step_commit(m, mounts, force_restore_best_effort, ReqV::Link { source, target });
    assert(st1.m == m.remove(target).insert(bp, m[target]).insert(
        target,
        EntryV::Symlink { dest: source },
    ));
    assert(st1.m[bp] == m[target]);
    assert(st1.m[target] == (EntryV::Symlink { dest: source }));
    assert(!spec_immutable_blocked(st1.m, target)) by {
        match spec_parent_dir(target) {
            Some(d) => {
                assert(d.len() < target.len());
                assert(d != target);
                assert(d.len() < bp.len());
                assert(d != bp);
                assert(st1.m.contains_key(d) == m.contains_key(d));
                if m.contains_key(d) {
                    assert(st1.m[d] == m[d]);
                }
            },
            Option::None => {},
        }
    }
    let st2 = spec_step_commit(st1.m, mounts, force_restore_best_effort, ReqV::Restore { target });
    assert(st2.m == st1.m.insert(target, st1.m[bp]));
}

/// The shape of one step: its outcome reports the request it executed, and
/// it errs exactly when the outcome says `Failed`.
pub proof fn lemma_step_shape(
    m: Map<Seq<char>, EntryV>,
    mounts: Seq<MountV>,
    force_restore_best_effort: bool,
    r: ReqV,
)
    ensures
        ({
            let st = spec_step_commit(m, mounts, force_restore_best_effort, r);
            &&& st.outcome.kind == req_kind(r)
            &&& st.outcome.target == req_target(r)
            &&& (st.err is Some <==> st.outcome.status == OutcomeStatus::Failed)
        }),
{
}

/// Fail-fast ordering: in `Commit` mode the outcomes cover a prefix of the
/// plan, each reporting its own request; when no error arises every request
/// is covered and none failed, and when one does arise, the failed request
/// is the last outcome, everything before it succeeded, and nothing after it
/// was ever attempted.
pub proof fn lemma_apply_fail_fast(
    m: Map<Seq<char>, EntryV>,
    mounts: Seq<MountV>,
    force_restore_best_effort: bool,
    reqs: Seq<ReqV>,
)
    ensures
        ({
            let v = spec_apply_commit(m, mounts, force_restore_best_effort, reqs);
            &&& v.outcomes.len() <= reqs.len()
            &&& (forall|j: int|
                0 <= j < v.outcomes.len() ==> (#[trigger] v.outcomes[j]).kind == req_kind(reqs[j])
                    && v.outcomes[j].target == req_target(reqs[j]))
            &&& (v.err is None ==> v.outcomes.len() == reqs.len() && (forall|j: int|
                0 <= j < v.outcomes.len() ==> (#[trigger] v.outcomes[j]).status
                    != OutcomeStatus::Failed))
            &&& (v.err is Some ==> 1 <= v.outcomes.len() && v.outcomes.last().status
                == OutcomeStatus::Failed && (forall|j: int|
                0 <= j < v.outcomes.len() - 1 ==> (#[trigger] v.outcomes[j]).status
                    != OutcomeStatus::Failed))
        }),
    decreases reqs.len(),
{
    if reqs.len() > 0 {
        lemma_apply_fail_fast(m, mounts, force_restore_best_effort, reqs.drop_last());
        let prev = spec_apply_commit(m, mounts, force_restore_best_effort, reqs.drop_last());
        assert(forall|j: int|
            0 <= j < reqs.len() - 1 ==> reqs.drop_last()[j] == (#[trigger] reqs[j]));
        if prev.err is None {
            lemma_step_shape(prev.m, mounts, force_restore_best_effort, reqs.last());
        }
    }
}

} // verus!
