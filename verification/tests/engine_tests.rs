use oxidizr_arch::apply::{apply, ActionKind, ApplyMode, OutcomeStatus};
use oxidizr_arch::errors::Error;
use oxidizr_arch::fsmodel::{FsEntry, FsState};
use oxidizr_arch::paths::{backup_path, SafePath};
use oxidizr_arch::plan::{plan, LinkRequest, PlanInput, RestoreRequest};
use oxidizr_arch::policy::Policy;
use oxidizr_arch::preflight::{preflight, StopReason};

fn regular(content: &[u8], mode: u32) -> FsEntry {
    FsEntry::Regular { content: content.to_vec(), mode, uid: 0, gid: 0, immutable: false }
}

fn sp(root: &str, p: &str) -> SafePath {
    SafePath::from_rooted(root, p).unwrap()
}

fn is_symlink_to(fs: &FsState, path: &str, dest: &str) -> bool {
    match fs.lookup(path) {
        Some(FsEntry::Symlink { dest: d }) => d == dest,
        _ => false,
    }
}

fn regular_content(fs: &FsState, path: &str) -> Option<Vec<u8>> {
    match fs.lookup(path) {
        Some(FsEntry::Regular { content, .. }) => Some(content.clone()),
        _ => None,
    }
}

/// Scenario: root `/tmp/t1`, a regular target with content `gnu-ls`, an
/// executable source. Commit-applying the link turns the target into a
/// symlink to the source and leaves the original as the backup file.
#[test]
fn test_commit_link_creates_symlink_and_backup() {
    let mut fs = FsState::new();
    let target = sp("/tmp/t1", "/usr/bin/ls");
    let source = sp("/tmp/t1", "/opt/repl/ls");
    fs.store(target.as_str(), regular(b"gnu-ls", 0o755));
    fs.store(source.as_str(), regular(b"uu-ls", 0o755));

    let mut input = PlanInput::new();
    input.link.push(LinkRequest { source: source.duplicate(), target: target.duplicate() });
    let p = plan(&input);
    let report = apply(&mut fs, &p, ApplyMode::Commit, &Policy::new());

    assert!(report.errors.is_empty());
    assert_eq!(report.executed.len(), 1);
    assert_eq!(report.executed[0].status, OutcomeStatus::Applied);
    assert!(is_symlink_to(&fs, "/tmp/t1/usr/bin/ls", "/tmp/t1/opt/repl/ls"));
    let backup = backup_path("/tmp/t1/usr/bin/ls");
    assert_eq!(backup, "/tmp/t1/usr/bin/.ls.oxidizr.bak");
    assert_eq!(regular_content(&fs, &backup).unwrap(), b"gnu-ls".to_vec());
}

/// Scenario: restore with no backup present and best-effort off fails with
/// `RestoreBackupMissing` and the target is untouched.
#[test]
fn test_restore_without_backup_fails() {
    let mut fs = FsState::new();
    let target = sp("/", "/usr/bin/ls");
    fs.store(target.as_str(), regular(b"gnu-ls", 0o755));

    let mut input = PlanInput::new();
    input.restore.push(RestoreRequest { target: target.duplicate() });
    let p = plan(&input);
    let report = apply(&mut fs, &p, ApplyMode::Commit, &Policy::new());

    assert_eq!(report.errors.len(), 1);
    match &report.errors[0] {
        Error::RestoreBackupMissing(t) => assert_eq!(t, "/usr/bin/ls"),
        other => panic!("expected RestoreBackupMissing, got {:?}", other),
    }
    assert_eq!(report.errors[0].exit_code(), 30);
    assert_eq!(regular_content(&fs, "/usr/bin/ls").unwrap(), b"gnu-ls".to_vec());
}

/// Scenario: a dry run of the same plan mutates nothing, reports one outcome
/// per request, and creates no backup file.
#[test]
fn test_dry_run_mutates_nothing() {
    let mut fs = FsState::new();
    let target = sp("/tmp/t1", "/usr/bin/ls");
    let source = sp("/tmp/t1", "/opt/repl/ls");
    fs.store(target.as_str(), regular(b"gnu-ls", 0o755));
    fs.store(source.as_str(), regular(b"uu-ls", 0o755));

    let mut input = PlanInput::new();
    input.link.push(LinkRequest { source: source.duplicate(), target: target.duplicate() });
    input.restore.push(RestoreRequest { target: target.duplicate() });
    let p = plan(&input);
    let report = apply(&mut fs, &p, ApplyMode::DryRun, &Policy::new());

    assert!(report.errors.is_empty());
    assert_eq!(report.executed.len(), 2);
    assert!(report.executed.iter().all(|o| o.status == OutcomeStatus::WouldApply));
    assert_eq!(regular_content(&fs, "/tmp/t1/usr/bin/ls").unwrap(), b"gnu-ls".to_vec());
    assert!(fs.lookup(&backup_path("/tmp/t1/usr/bin/ls")).is_none());
}

/// Idempotence: committing the same link twice yields the identical state
/// and no backup churn — the second pass is a skipped no-op.
#[test]
fn test_link_idempotent() {
    let mut fs = FsState::new();
    let target = sp("/", "/usr/bin/ls");
    let source = sp("/", "/opt/repl/ls");
    fs.store(target.as_str(), regular(b"gnu-ls", 0o755));
    fs.store(source.as_str(), regular(b"uu-ls", 0o755));

    let mut input = PlanInput::new();
    input.link.push(LinkRequest { source: source.duplicate(), target: target.duplicate() });
    let p = plan(&input);

    let first = apply(&mut fs, &p, ApplyMode::Commit, &Policy::new());
    assert!(first.errors.is_empty());
    let backup = backup_path("/usr/bin/ls");
    assert_eq!(regular_content(&fs, &backup).unwrap(), b"gnu-ls".to_vec());

    let second = apply(&mut fs, &p, ApplyMode::Commit, &Policy::new());
    assert!(second.errors.is_empty());
    assert_eq!(second.executed[0].status, OutcomeStatus::SkippedIdempotent);
    assert!(is_symlink_to(&fs, "/usr/bin/ls", "/opt/repl/ls"));
    assert_eq!(regular_content(&fs, &backup).unwrap(), b"gnu-ls".to_vec());
    // No second backup appears: backing up the backup never happens.
    assert!(fs.lookup(&backup_path(&backup)).is_none());
}

/// Round-trip: linking and then restoring a target brings back a regular
/// file with exactly the original content, and removes the symlink.
#[test]
fn test_link_restore_round_trip() {
    let mut fs = FsState::new();
    let target = sp("/", "/usr/bin/ls");
    let source = sp("/", "/opt/repl/ls");
    fs.store(target.as_str(), regular(b"original-content", 0o755));
    fs.store(source.as_str(), regular(b"replacement", 0o755));

    let mut link_input = PlanInput::new();
    link_input.link.push(LinkRequest { source: source.duplicate(), target: target.duplicate() });
    let link_plan = plan(&link_input);
    let r1 = apply(&mut fs, &link_plan, ApplyMode::Commit, &Policy::new());
    assert!(r1.errors.is_empty());
    assert!(is_symlink_to(&fs, "/usr/bin/ls", "/opt/repl/ls"));

    let mut restore_input = PlanInput::new();
    restore_input.restore.push(RestoreRequest { target: target.duplicate() });
    let restore_plan = plan(&restore_input);
    let r2 = apply(&mut fs, &restore_plan, ApplyMode::Commit, &Policy::new());
    assert!(r2.errors.is_empty());
    assert_eq!(regular_content(&fs, "/usr/bin/ls").unwrap(), b"original-content".to_vec());
    assert!(!is_symlink_to(&fs, "/usr/bin/ls", "/opt/repl/ls"));
}

/// Fail-fast ordering: in a plan [A, B, C] where B fails, A succeeded, B is
/// the last reported outcome, and C was never attempted — and A is not
/// rolled back.
#[test]
fn test_fail_fast_ordering() {
    let mut fs = FsState::new();
    let ta = sp("/", "/usr/bin/a");
    let tb = sp("/", "/usr/bin/b");
    let tc = sp("/", "/usr/bin/c");
    let src = sp("/", "/opt/repl/multicall");
    fs.store(ta.as_str(), regular(b"a", 0o755));
    // B's target carries the immutable attribute, so its step raises a hard
    // filesystem error at apply time.
    fs.store(
        tb.as_str(),
        FsEntry::Regular { content: b"b".to_vec(), mode: 0o755, uid: 0, gid: 0, immutable: true },
    );
    fs.store(tc.as_str(), regular(b"c", 0o755));
    fs.store(src.as_str(), regular(b"m", 0o755));

    let mut input = PlanInput::new();
    input.link.push(LinkRequest { source: src.duplicate(), target: ta.duplicate() });
    input.link.push(LinkRequest { source: src.duplicate(), target: tb.duplicate() });
    input.link.push(LinkRequest { source: src.duplicate(), target: tc.duplicate() });
    let p = plan(&input);
    let report = apply(&mut fs, &p, ApplyMode::Commit, &Policy::new());

    assert_eq!(report.executed.len(), 2);
    assert_eq!(report.executed[0].target, "/usr/bin/a");
    assert_eq!(report.executed[0].status, OutcomeStatus::Applied);
    assert_eq!(report.executed[1].target, "/usr/bin/b");
    assert_eq!(report.executed[1].status, OutcomeStatus::Failed);
    assert_eq!(report.errors.len(), 1);
    match &report.errors[0] {
        Error::FilesystemUnsuitable(t) => assert_eq!(t, "/usr/bin/b"),
        other => panic!("expected FilesystemUnsuitable, got {:?}", other),
    }
    // A's link stays; C was never attempted.
    assert!(is_symlink_to(&fs, "/usr/bin/a", "/opt/repl/multicall"));
    assert_eq!(regular_content(&fs, "/usr/bin/c").unwrap(), b"c".to_vec());
}

/// Preflight exhaustiveness: five independently-broken requests yield
/// exactly five stops, not one.
#[test]
fn test_preflight_collects_all_stops() {
    let mut fs = FsState::new();
    // Three link targets exist, but their sources are missing.
    for t in ["/usr/bin/a", "/usr/bin/b", "/usr/bin/c"] {
        fs.store(t, regular(b"x", 0o755));
    }
    let mut input = PlanInput::new();
    for (s, t) in [
        ("/opt/missing/a", "/usr/bin/a"),
        ("/opt/missing/b", "/usr/bin/b"),
        ("/opt/missing/c", "/usr/bin/c"),
    ] {
        input.link.push(LinkRequest { source: sp("/", s), target: sp("/", t) });
    }
    // Two restores have no backups.
    input.restore.push(RestoreRequest { target: sp("/", "/usr/bin/d") });
    input.restore.push(RestoreRequest { target: sp("/", "/usr/bin/e") });
    let p = plan(&input);
    let result = preflight(&fs, &p, &Policy::new());

    assert!(!result.ok);
    assert_eq!(result.stops.len(), 5);
    assert_eq!(result.stops[0].reason, StopReason::SourceMissing);
    assert_eq!(result.stops[3].reason, StopReason::BackupMissing);
    assert_eq!(result.stops[4].reason, StopReason::BackupMissing);
}

/// A sound plan passes preflight with zero stops.
#[test]
fn test_preflight_ok() {
    let mut fs = FsState::new();
    fs.store("/usr/bin/ls", regular(b"gnu-ls", 0o755));
    fs.store("/usr/bin/coreutils", regular(b"uu", 0o755));
    let mut input = PlanInput::new();
    input.link.push(
        LinkRequest { source: sp("/", "/usr/bin/coreutils"), target: sp("/", "/usr/bin/ls") },
    );
    let p = plan(&input);
    let result = preflight(&fs, &p, &Policy::new());
    assert!(result.ok);
    assert!(result.stops.is_empty());
}

/// An untrusted source is a stop unless the policy forces it through; the
/// override still surfaces the stops.
#[test]
fn test_preflight_source_trust_and_override() {
    let mut fs = FsState::new();
    fs.store("/usr/bin/ls", regular(b"gnu-ls", 0o755));
    fs.store("/home/build/ls", regular(b"uu", 0o755));
    let mut input = PlanInput::new();
    input.link.push(
        LinkRequest { source: sp("/", "/home/build/ls"), target: sp("/", "/usr/bin/ls") },
    );
    let p = plan(&input);

    let strict = preflight(&fs, &p, &Policy::new());
    assert!(!strict.ok);
    assert_eq!(strict.stops.len(), 1);
    assert_eq!(strict.stops[0].reason, StopReason::SourceUntrusted);

    let mut forced = Policy::new();
    forced.force_untrusted_source = true;
    let ok = preflight(&fs, &p, &forced);
    assert!(ok.ok);

    let mut overridden = Policy::new();
    overridden.override_preflight = true;
    let surfaced = preflight(&fs, &p, &overridden);
    assert!(surfaced.ok);
    assert_eq!(surfaced.stops.len(), 1);
}

/// A read-only mount stops preflight and fails commit-time re-checks.
#[test]
fn test_preflight_read_only_mount() {
    let mut fs = FsState::new();
    fs.add_mount("/usr".to_string(), true, false);
    fs.store("/usr/bin/ls", regular(b"gnu-ls", 0o755));
    fs.store("/usr/bin/coreutils", regular(b"uu", 0o755));
    let mut input = PlanInput::new();
    input.link.push(
        LinkRequest { source: sp("/", "/usr/bin/coreutils"), target: sp("/", "/usr/bin/ls") },
    );
    let p = plan(&input);
    let result = preflight(&fs, &p, &Policy::new());
    assert!(!result.ok);
    assert_eq!(result.stops[0].reason, StopReason::MountUnsuitable);

    let report = apply(&mut fs, &p, ApplyMode::Commit, &Policy::new());
    assert_eq!(report.errors.len(), 1);
    assert!(matches!(report.errors[0], Error::FilesystemUnsuitable(_)));
    assert_eq!(report.errors[0].exit_code(), 80);
}

/// Restore consumes the backup's content but keeps the backup available, so
/// repeated restores keep working.
#[test]
fn test_restore_repeatable() {
    let mut fs = FsState::new();
    let target = sp("/", "/usr/bin/ls");
    let source = sp("/", "/opt/repl/ls");
    fs.store(target.as_str(), regular(b"gnu-ls", 0o755));
    fs.store(source.as_str(), regular(b"uu-ls", 0o755));

    let mut link_input = PlanInput::new();
    link_input.link.push(LinkRequest { source: source.duplicate(), target: target.duplicate() });
    let link_plan = plan(&link_input);
    apply(&mut fs, &link_plan, ApplyMode::Commit, &Policy::new());

    let mut restore_input = PlanInput::new();
    restore_input.restore.push(RestoreRequest { target: target.duplicate() });
    let restore_plan = plan(&restore_input);
    let r1 = apply(&mut fs, &restore_plan, ApplyMode::Commit, &Policy::new());
    assert!(r1.errors.is_empty());
    let r2 = apply(&mut fs, &restore_plan, ApplyMode::Commit, &Policy::new());
    assert!(r2.errors.is_empty());
    assert_eq!(regular_content(&fs, "/usr/bin/ls").unwrap(), b"gnu-ls".to_vec());
}

/// Missing backups are skipped, not fatal, under best-effort restore.
#[test]
fn test_restore_best_effort() {
    let mut fs = FsState::new();
    fs.store("/usr/bin/ls", regular(b"gnu-ls", 0o755));
    let mut input = PlanInput::new();
    input.restore.push(RestoreRequest { target: sp("/", "/usr/bin/ls") });
    let p = plan(&input);
    let mut policy = Policy::new();
    policy.force_restore_best_effort = true;
    let report = apply(&mut fs, &p, ApplyMode::Commit, &policy);
    assert!(report.errors.is_empty());
    assert_eq!(report.executed[0].status, OutcomeStatus::SkippedBestEffort);
    assert_eq!(regular_content(&fs, "/usr/bin/ls").unwrap(), b"gnu-ls".to_vec());
}

/// The plan builder deduplicates by target, first request wins, and keeps
/// order otherwise.
#[test]
fn test_plan_dedup_first_wins() {
    let mut input = PlanInput::new();
    input.link.push(LinkRequest { source: sp("/", "/opt/a"), target: sp("/", "/usr/bin/x") });
    input.link.push(LinkRequest { source: sp("/", "/opt/b"), target: sp("/", "/usr/bin/x") });
    input.link.push(LinkRequest { source: sp("/", "/opt/c"), target: sp("/", "/usr/bin/y") });
    let p = plan(&input);
    assert_eq!(p.link_count(), 2);
    assert_eq!(p.link_at(0).source.as_str(), "/opt/a");
    assert_eq!(p.link_at(0).target.as_str(), "/usr/bin/x");
    assert_eq!(p.link_at(1).target.as_str(), "/usr/bin/y");
}

/// A self-link is short-circuited as an idempotent no-op, not an error.
#[test]
fn test_self_link_noop() {
    let mut fs = FsState::new();
    fs.store("/usr/bin/ls", regular(b"gnu-ls", 0o755));
    let mut input = PlanInput::new();
    input.link.push(
        LinkRequest { source: sp("/", "/usr/bin/ls"), target: sp("/", "/usr/bin/ls") },
    );
    let p = plan(&input);
    let report = apply(&mut fs, &p, ApplyMode::Commit, &Policy::new());
    assert!(report.errors.is_empty());
    assert_eq!(report.executed[0].status, OutcomeStatus::SkippedIdempotent);
    assert_eq!(report.executed[0].kind, ActionKind::Link);
    assert_eq!(regular_content(&fs, "/usr/bin/ls").unwrap(), b"gnu-ls".to_vec());
}

/// An immutable containing directory blocks the rename just as an immutable
/// target does: preflight stops, and a commit fails.
#[test]
fn test_immutable_directory_blocks() {
    let mut fs = FsState::new();
    fs.store("/usr/bin", FsEntry::Directory { immutable: true });
    fs.store("/usr/bin/ls", regular(b"gnu-ls", 0o755));
    fs.store("/usr/bin/coreutils", regular(b"uu", 0o755));
    let mut input = PlanInput::new();
    input.link.push(
        LinkRequest { source: sp("/", "/usr/bin/coreutils"), target: sp("/", "/usr/bin/ls") },
    );
    let p = plan(&input);

    let result = preflight(&fs, &p, &Policy::new());
    assert!(!result.ok);
    assert_eq!(result.stops.len(), 1);
    assert_eq!(result.stops[0].reason, StopReason::TargetImmutable);

    let report = apply(&mut fs, &p, ApplyMode::Commit, &Policy::new());
    assert_eq!(report.errors.len(), 1);
    assert!(matches!(report.errors[0], Error::FilesystemUnsuitable(_)));
    assert_eq!(regular_content(&fs, "/usr/bin/ls").unwrap(), b"gnu-ls".to_vec());
}

/// Confinement plus policy roots: a target outside the allowed roots stops.
#[test]
fn test_preflight_allow_roots() {
    let mut fs = FsState::new();
    fs.store("/etc/conf", regular(b"c", 0o644));
    fs.store("/usr/bin/coreutils", regular(b"uu", 0o755));
    let mut input = PlanInput::new();
    input.link.push(
        LinkRequest { source: sp("/", "/usr/bin/coreutils"), target: sp("/", "/etc/conf") },
    );
    let p = plan(&input);
    let mut policy = Policy::new();
    policy.allow_roots.push("/usr".to_string());
    let result = preflight(&fs, &p, &policy);
    assert!(!result.ok);
    assert_eq!(result.stops[0].reason, StopReason::TargetOutsideAllowedRoots);
}
