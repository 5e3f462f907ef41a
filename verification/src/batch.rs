//! Batch linking and restoring: the worker's single-request steps folded
//! over an applet list, fail-fast, exactly as one enable or disable pass
//! runs them.

use vstd::prelude::*;

use crate::apply::{spec_step_commit, ReqV};
use crate::errors::Error;
use crate::experiments::{pairs_view, spec_usrbin};
use crate::fsmodel::{EntryV, FsState, MountV};
use crate::paths::{join_abs, spec_backup_path, spec_resolved, SafePath};
use crate::preflight::StopV;
use crate::worker::{spec_worker_link_stop, stop_error_matches, Worker};

verus! {

/// The (source, target) path pairs of an applet list, each resolved against
/// the live root: the target under `/usr/bin`, the source as given. `None`
/// reports the first applet whose paths cannot be resolved safely.
pub open spec fn spec_applet_links(applets: Seq<(Seq<char>, Seq<char>)>) -> Option<
    Seq<(Seq<char>, Seq<char>)>,
>
    decreases applets.len(),
{
    if applets.len() == 0 {
        Some(Seq::empty())
    } else {
        match spec_applet_links(applets.drop_last()) {
            Option::None => Option::None,
            Some(prefix) => {
                let (name, src) = applets.last();
                let s = spec_resolved("/"@, src);
                let t = spec_resolved("/"@, spec_usrbin(name));
                if s is Some && t is Some {
                    Some(prefix.push((join_abs(s.unwrap()), join_abs(t.unwrap()))))
                } else {
                    Option::None
                }
            },
        }
    }
}

/// The cumulative effect of worker-level link steps, failing fast.
#[verifier::ext_equal]
pub struct BatchV {
    pub m: Map<Seq<char>, EntryV>,
    pub stopped: Option<StopV>,
}

/// Fold the worker's link step over resolved (source, target) pairs: each
/// step runs the policy checks and, outside dry-run, the commit mutation;
/// the first refused step stops the batch.
pub open spec fn spec_worker_link_batch(
    m: Map<Seq<char>, EntryV>,
    mounts: Seq<MountV>,
    owned: Seq<Seq<char>>,
    strict_ownership: bool,
    force_untrusted: bool,
    force_restore_best_effort: bool,
    dry_run: bool,
    pairs: Seq<(Seq<char>, Seq<char>)>,
) -> BatchV
    decreases pairs.len(),
{
    if pairs.len() == 0 {
        BatchV { m, stopped: Option::None }
    } else {
        let prev = spec_worker_link_batch(
            m,
            mounts,
            owned,
            strict_ownership,
            force_untrusted,
            force_restore_best_effort,
            dry_run,
            pairs.drop_last(),
        );
        match prev.stopped {
            Some(_) => prev,
            Option::None => {
                let (src, tgt) = pairs.last();
                match spec_worker_link_stop(
                    prev.m,
                    mounts,
                    owned,
                    strict_ownership,
                    force_untrusted,
                    src,
                    tgt,
                ) {
                    Some(st) => BatchV { m: prev.m, stopped: Some(st) },
                    Option::None => BatchV {
                        m: if dry_run {
                            prev.m
                        } else {
                            spec_step_commit(
                                prev.m,
                                mounts,
                                force_restore_best_effort,
                                ReqV::Link { source: src, target: tgt },
                            ).m
                        },
                        stopped: Option::None,
                    },
                }
            },
        }
    }
}

/// Once a link batch has stopped on a prefix, the rest changes nothing.
proof fn lemma_link_batch_stop_persists(
    m: Map<Seq<char>, EntryV>,
    mounts: Seq<MountV>,
    owned: Seq<Seq<char>>,
    strict_ownership: bool,
    force_untrusted: bool,
    force_restore_best_effort: bool,
    dry_run: bool,
    pairs: Seq<(Seq<char>, Seq<char>)>,
    k: int,
)
    requires
        0 <= k <= pairs.len(),
        spec_worker_link_batch(
            m,
            mounts,
            owned,
            strict_ownership,
            force_untrusted,
            force_restore_best_effort,
            dry_run,
            pairs.take(k),
        ).stopped is Some,
    ensures
        spec_worker_link_batch(
            m,
            mounts,
            owned,
            strict_ownership,
            force_untrusted,
            force_restore_best_effort,
            dry_run,
            pairs,
        ) == spec_worker_link_batch(
            m,
            mounts,
            owned,
            strict_ownership,
            force_untrusted,
            force_restore_best_effort,
            dry_run,
            pairs.take(k),
        ),
    decreases pairs.len() - k,
{
    if k == pairs.len() {
        assert(pairs.take(k) =~= pairs);
    } else {
        assert(pairs.take(k + 1).drop_last() =~= pairs.take(k));
        lemma_link_batch_stop_persists(
            m,
            mounts,
            owned,
            strict_ownership,
            force_untrusted,
            force_restore_best_effort,
            dry_run,
            pairs,
            k + 1,
        );
    }
}

/// Link every applet of the list, `(name, source)` by `(name, source)`, each
/// target resolved under `/usr/bin` against the live root, through the
/// worker's checked single-link step. The first refused step aborts the rest
/// of the batch with that step's error; earlier links stay in place. An
/// applet whose paths cannot be resolved safely aborts before any mutation of
/// its step.
pub fn create_symlinks(worker: &Worker, fs: &mut FsState, applets: &Vec<(String, String)>) -> (r:
    Result<(), Error>)
    requires
        old(fs).wf(),
    ensures
        final(fs).wf(),
        final(fs).mounts_view() == old(fs).mounts_view(),
        final(fs).owned_view() == old(fs).owned_view(),
        ({
            match spec_applet_links(pairs_view(applets@)) {
                Option::None => r is Err,
                Some(pairs) => {
                    let b = spec_worker_link_batch(
                        old(fs).as_map(),
                        old(fs).mounts_view(),
                        old(fs).owned_view(),
                        worker.strict_ownership,
                        worker.force_override_untrusted,
                        worker.force_restore_best_effort,
                        worker.dry_run,
                        pairs,
                    );
                    &&& final(fs).as_map() == b.m
                    &&& (r is Ok <==> b.stopped is None)
                    &&& (r matches Err(e) ==> b.stopped matches Some(st) && stop_error_matches(
                        e,
                        st,
                    ))
                },
            }
        }),
{
    let ghost gapplets = pairs_view(applets@);
    let ghost gm0 = old(fs).as_map();
    let ghost gmounts = old(fs).mounts_view();
    let ghost gowned = old(fs).owned_view();
    let mut i: usize = 0;
    let ghost mut gpairs_so_far = Seq::<(Seq<char>, Seq<char>)>::empty();
    proof {
        assert(gapplets.take(0) =~= Seq::<(Seq<char>, Seq<char>)>::empty());
        assert(spec_applet_links(gapplets.take(0)) == Some(gpairs_so_far));
    }
    while i < applets.len()
        invariant
            i <= applets.len(),
            fs.wf(),
            gapplets == pairs_view(applets@),
            gm0 == old(fs).as_map(),
            gmounts == old(fs).mounts_view(),
            gowned == old(fs).owned_view(),
            fs.mounts_view() == gmounts,
            fs.owned_view() == gowned,
            spec_applet_links(gapplets.take(i as int)) == Some(gpairs_so_far),
            spec_worker_link_batch(
                gm0,
                gmounts,
                gowned,
                worker.strict_ownership,
                worker.force_override_untrusted,
                worker.force_restore_best_effort,
                worker.dry_run,
                gpairs_so_far,
            ) == (BatchV { m: fs.as_map(), stopped: Option::<StopV>::None }),
        decreases applets.len() - i,
    {
        proof {
            assert(gapplets.take(i + 1).drop_last() =~= gapplets.take(i as int));
            assert(gapplets.take(i + 1).last() == gapplets[i as int]);
        }
        let name = &applets[i].0;
        let src = &applets[i].1;
        let target_path = crate::experiments::resolve_usrbin(name.as_str());
        let source_sp = match SafePath::from_rooted("/", src.as_str()) {
            Ok(sp) => sp,
            Err(e) => {
                proof {
                    assert(spec_applet_links(gapplets.take(i + 1)) is None);
                    if spec_applet_links(gapplets) is Some {
                        lemma_applet_links_some_prefix(gapplets, i + 1);
                    }
                }
                return Err(e);
            },
        };
        let target_sp = match SafePath::from_rooted("/", target_path.as_str()) {
            Ok(sp) => sp,
            Err(e) => {
                proof {
                    assert(spec_applet_links(gapplets.take(i + 1)) is None);
                    if spec_applet_links(gapplets) is Some {
                        lemma_applet_links_some_prefix(gapplets, i + 1);
                    }
                }
                return Err(e);
            },
        };
        let ghost pre_pairs = gpairs_so_far;
        proof {
            gpairs_so_far = gpairs_so_far.push((source_sp@, target_sp@));
            assert(spec_applet_links(gapplets.take(i + 1)) == Some(gpairs_so_far));
            assert(gpairs_so_far.drop_last() =~= pre_pairs);
            assert(gpairs_so_far.last() == (source_sp@, target_sp@));
        }
        let res = worker.replace_file_with_symlink(fs, &source_sp, &target_sp);
        match res {
            Ok(()) => {},
            Err(e) => {
                proof {
                    assert(spec_worker_link_batch(
                        gm0,
                        gmounts,
                        gowned,
                        worker.strict_ownership,
                        worker.force_override_untrusted,
                        worker.force_restore_best_effort,
                        worker.dry_run,
                        gpairs_so_far,
                    ).stopped is Some);
                    lemma_applet_links_extend(gapplets, i + 1, gpairs_so_far);
                    if spec_applet_links(gapplets) is Some {
                        let full = spec_applet_links(gapplets).unwrap();
                        assert(full.take(gpairs_so_far.len() as int) == gpairs_so_far);
                        lemma_link_batch_stop_persists(
                            gm0,
                            gmounts,
                            gowned,
                            worker.strict_ownership,
                            worker.force_override_untrusted,
                            worker.force_restore_best_effort,
                            worker.dry_run,
                            full,
                            gpairs_so_far.len() as int,
                        );
                    }
                }
                return Err(e);
            },
        }
        i += 1;
    }
    proof {
        assert(gapplets.take(applets@.len() as int) =~= gapplets);
    }
    Ok(())
}

/// A resolvable whole list has every prefix resolvable; contrapositively, an
/// unresolvable prefix makes the whole list unresolvable.
proof fn lemma_applet_links_some_prefix(applets: Seq<(Seq<char>, Seq<char>)>, k: int)
    requires
        0 <= k <= applets.len(),
        spec_applet_links(applets) is Some,
    ensures
        spec_applet_links(applets.take(k)) is Some,
    decreases applets.len(),
{
    if k < applets.len() {
        assert(applets.drop_last().take(k) =~= applets.take(k));
        lemma_applet_links_some_prefix(applets.drop_last(), k);
    } else {
        assert(applets.take(k) =~= applets);
    }
}

/// When the whole list resolves, a stopped batch over a resolved prefix
/// equals the batch over the whole resolved list.
proof fn lemma_applet_links_extend(applets: Seq<(Seq<char>, Seq<char>)>, k: int, prefix: Seq<(Seq<char>, Seq<char>)>)
    requires
        0 <= k <= applets.len(),
        spec_applet_links(applets.take(k)) == Some(prefix),
    ensures
        spec_applet_links(applets) is Some ==> spec_applet_links(applets).unwrap().take(
            prefix.len() as int,
        ) == prefix && prefix.len() <= spec_applet_links(applets).unwrap().len(),
    decreases applets.len() - k,
{
    if k == applets.len() {
        assert(applets.take(k) =~= applets);
        if spec_applet_links(applets) is Some {
            assert(spec_applet_links(applets).unwrap().take(prefix.len() as int) =~= prefix);
        }
    } else {
        assert(applets.take(k + 1).drop_last() =~= applets.take(k));
        if spec_applet_links(applets.take(k + 1)) is Some {
            let next = spec_applet_links(applets.take(k + 1)).unwrap();
            assert(next.drop_last() == prefix || next == prefix.push(
                (
                    join_abs(spec_resolved("/"@, applets[k].1).unwrap()),
                    join_abs(spec_resolved("/"@, spec_usrbin(applets[k].0)).unwrap()),
                ),
            ));
            lemma_applet_links_extend(applets, k + 1, next);
            if spec_applet_links(applets) is Some {
                assert(spec_applet_links(applets).unwrap().take(prefix.len() as int)
                    =~= prefix) by {
                    assert(spec_applet_links(applets).unwrap().take(next.len() as int) == next);
                    assert(next.take(prefix.len() as int) =~= prefix);
                }
            }
        } else {
            lemma_applet_links_none_persists(applets, k + 1);
        }
    }
}

/// The target paths of a restore batch, each resolved against the live root.
pub open spec fn spec_restore_paths(targets: Seq<Seq<char>>) -> Option<Seq<Seq<char>>>
    decreases targets.len(),
{
    if targets.len() == 0 {
        Some(Seq::empty())
    } else {
        match spec_restore_paths(targets.drop_last()) {
            Option::None => Option::None,
            Some(prefix) => {
                let t = spec_resolved("/"@, targets.last());
                if t is Some {
                    Some(prefix.push(join_abs(t.unwrap())))
                } else {
                    Option::None
                }
            },
        }
    }
}

/// Fold the worker's restore step over resolved targets, failing fast.
pub open spec fn spec_worker_restore_batch(
    m: Map<Seq<char>, EntryV>,
    mounts: Seq<MountV>,
    force_restore_best_effort: bool,
    dry_run: bool,
    targets: Seq<Seq<char>>,
) -> BatchV
    decreases targets.len(),
{
    if targets.len() == 0 {
        BatchV { m, stopped: Option::None }
    } else {
        let prev = spec_worker_restore_batch(
            m,
            mounts,
            force_restore_best_effort,
            dry_run,
            targets.drop_last(),
        );
        match prev.stopped {
            Some(_) => prev,
            Option::None => {
                let tgt = targets.last();
                match crate::worker::spec_worker_restore_stop(
                    prev.m,
                    mounts,
                    force_restore_best_effort,
                    tgt,
                ) {
                    Some(st) => BatchV { m: prev.m, stopped: Some(st) },
                    Option::None => BatchV {
                        m: if dry_run || !prev.m.contains_key(spec_backup_path(tgt)) {
                            prev.m
                        } else {
                            spec_step_commit(
                                prev.m,
                                mounts,
                                force_restore_best_effort,
                                ReqV::Restore { target: tgt },
                            ).m
                        },
                        stopped: Option::None,
                    },
                }
            },
        }
    }
}

proof fn lemma_restore_batch_stop_persists(
    m: Map<Seq<char>, EntryV>,
    mounts: Seq<MountV>,
    force_restore_best_effort: bool,
    dry_run: bool,
    targets: Seq<Seq<char>>,
    k: int,
)
    requires
        0 <= k <= targets.len(),
        spec_worker_restore_batch(
            m,
            mounts,
            force_restore_best_effort,
            dry_run,
            targets.take(k),
        ).stopped is Some,
    ensures
        spec_worker_restore_batch(m, mounts, force_restore_best_effort, dry_run, targets)
            == spec_worker_restore_batch(
            m,
            mounts,
            force_restore_best_effort,
            dry_run,
            targets.take(k),
        ),
    decreases targets.len() - k,
{
    if k == targets.len() {
        assert(targets.take(k) =~= targets);
    } else {
        assert(targets.take(k + 1).drop_last() =~= targets.take(k));
        lemma_restore_batch_stop_persists(
            m,
            mounts,
            force_restore_best_effort,
            dry_run,
            targets,
            k + 1,
        );
    }
}

proof fn lemma_restore_paths_extend(targets: Seq<Seq<char>>, k: int, prefix: Seq<Seq<char>>)
    requires
        0 <= k <= targets.len(),
        spec_restore_paths(targets.take(k)) == Some(prefix),
    ensures
        spec_restore_paths(targets) is Some ==> spec_restore_paths(targets).unwrap().take(
            prefix.len() as int,
        ) == prefix && prefix.len() <= spec_restore_paths(targets).unwrap().len(),
    decreases targets.len() - k,
{
    if k == targets.len() {
        assert(targets.take(k) =~= targets);
        if spec_restore_paths(targets) is Some {
            assert(spec_restore_paths(targets).unwrap().take(prefix.len() as int) =~= prefix);
        }
    } else {
        assert(targets.take(k + 1).drop_last() =~= targets.take(k));
        if spec_restore_paths(targets.take(k + 1)) is Some {
            let next = spec_restore_paths(targets.take(k + 1)).unwrap();
            lemma_restore_paths_extend(targets, k + 1, next);
            if spec_restore_paths(targets) is Some {
                assert(spec_restore_paths(targets).unwrap().take(prefix.len() as int) =~= prefix)
                    by {
                    assert(spec_restore_paths(targets).unwrap().take(next.len() as int) == next);
                    assert(next.take(prefix.len() as int) =~= prefix);
                }
            }
        } else {
            lemma_restore_paths_none_persists(targets, k + 1);
        }
    }
}

proof fn lemma_restore_paths_none_persists(targets: Seq<Seq<char>>, k: int)
    requires
        0 <= k <= targets.len(),
        spec_restore_paths(targets.take(k)) is None,
    ensures
        spec_restore_paths(targets) is None,
    decreases targets.len() - k,
{
    if k == targets.len() {
        assert(targets.take(k) =~= targets);
    } else {
        assert(targets.take(k + 1).drop_last() =~= targets.take(k));
        lemma_restore_paths_none_persists(targets, k + 1);
    }
}

proof fn lemma_restore_paths_some_prefix(targets: Seq<Seq<char>>, k: int)
    requires
        0 <= k <= targets.len(),
        spec_restore_paths(targets) is Some,
    ensures
        spec_restore_paths(targets.take(k)) is Some,
    decreases targets.len(),
{
    if k < targets.len() {
        assert(targets.drop_last().take(k) =~= targets.take(k));
        lemma_restore_paths_some_prefix(targets.drop_last(), k);
    } else {
        assert(targets.take(k) =~= targets);
    }
}

/// Restore every target of the list through the worker's checked restore
/// step, each path resolved against the live root. The first refused step —
/// an unsuitable mount, an immutable target, or a missing backup outside
/// best-effort mode — aborts the rest of the batch with that step's error;
/// earlier restores stay in place.
pub fn restore_targets(worker: &Worker, fs: &mut FsState, targets: &Vec<String>) -> (r: Result<
    (),
    Error,
>)
    requires
        old(fs).wf(),
    ensures
        final(fs).wf(),
        final(fs).mounts_view() == old(fs).mounts_view(),
        final(fs).owned_view() == old(fs).owned_view(),
        ({
            match spec_restore_paths(targets.deep_view()) {
                Option::None => r is Err,
                Some(paths) => {
                    let b = spec_worker_restore_batch(
                        old(fs).as_map(),
                        old(fs).mounts_view(),
                        worker.force_restore_best_effort,
                        worker.dry_run,
                        paths,
                    );
                    &&& final(fs).as_map() == b.m
                    &&& (r is Ok <==> b.stopped is None)
                    &&& (r matches Err(e) ==> b.stopped matches Some(st) && stop_error_matches(
                        e,
                        st,
                    ))
                },
            }
        }),
{
    let ghost gtargets = targets.deep_view();
    let ghost gm0 = old(fs).as_map();
    let ghost gmounts = old(fs).mounts_view();
    let ghost gowned = old(fs).owned_view();
    let mut i: usize = 0;
    let ghost mut gpaths_so_far = Seq::<Seq<char>>::empty();
    proof {
        assert(gtargets.take(0) =~= Seq::<Seq<char>>::empty());
        assert(spec_restore_paths(gtargets.take(0)) == Some(gpaths_so_far));
    }
    while i < targets.len()
        invariant
            i <= targets.len(),
            fs.wf(),
            gtargets == targets.deep_view(),
            gm0 == old(fs).as_map(),
            gmounts == old(fs).mounts_view(),
            gowned == old(fs).owned_view(),
            fs.mounts_view() == gmounts,
            fs.owned_view() == gowned,
            spec_restore_paths(gtargets.take(i as int)) == Some(gpaths_so_far),
            spec_worker_restore_batch(
                gm0,
                gmounts,
                worker.force_restore_best_effort,
                worker.dry_run,
                gpaths_so_far,
            ) == (BatchV { m: fs.as_map(), stopped: Option::<StopV>::None }),
        decreases targets.len() - i,
    {
        proof {
            assert(gtargets.take(i + 1).drop_last() =~= gtargets.take(i as int));
            assert(gtargets.take(i + 1).last() == gtargets[i as int]);
        }
        let target_sp = match SafePath::from_rooted("/", targets[i].as_str()) {
            Ok(sp) => sp,
            Err(e) => {
                proof {
                    assert(spec_restore_paths(gtargets.take(i + 1)) is None);
                    if spec_restore_paths(gtargets) is Some {
                        lemma_restore_paths_some_prefix(gtargets, i + 1);
                    }
                }
                return Err(e);
            },
        };
        let ghost pre_paths = gpaths_so_far;
        proof {
            gpaths_so_far = gpaths_so_far.push(target_sp@);
            assert(spec_restore_paths(gtargets.take(i + 1)) == Some(gpaths_so_far));
            assert(gpaths_so_far.drop_last() =~= pre_paths);
            assert(gpaths_so_far.last() == target_sp@);
        }
        let res = worker.restore_file(fs, &target_sp);
        match res {
            Ok(()) => {},
            Err(e) => {
                proof {
                    assert(spec_worker_restore_batch(
                        gm0,
                        gmounts,
                        worker.force_restore_best_effort,
                        worker.dry_run,
                        gpaths_so_far,
                    ).stopped is Some);
                    lemma_restore_paths_extend(gtargets, i + 1, gpaths_so_far);
                    if spec_restore_paths(gtargets) is Some {
                        let full = spec_restore_paths(gtargets).unwrap();
                        assert(full.take(gpaths_so_far.len() as int) == gpaths_so_far);
                        lemma_restore_batch_stop_persists(
                            gm0,
                            gmounts,
                            worker.force_restore_best_effort,
                            worker.dry_run,
                            full,
                            gpaths_so_far.len() as int,
                        );
                    }
                }
                return Err(e);
            },
        }
        i += 1;
    }
    proof {
        assert(gtargets.take(targets@.len() as int) =~= gtargets);
    }
    Ok(())
}

proof fn lemma_applet_links_none_persists(applets: Seq<(Seq<char>, Seq<char>)>, k: int)
    requires
        0 <= k <= applets.len(),
        spec_applet_links(applets.take(k)) is None,
    ensures
        spec_applet_links(applets) is None,
    decreases applets.len() - k,
{
    if k == applets.len() {
        assert(applets.take(k) =~= applets);
    } else {
        assert(applets.take(k + 1).drop_last() =~= applets.take(k));
        lemma_applet_links_none_persists(applets, k + 1);
    }
}

} // verus!
