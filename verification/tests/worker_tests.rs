use oxidizr_arch::batch::{create_symlinks, restore_targets};
use oxidizr_arch::errors::Error;
use oxidizr_arch::fsmodel::{FsEntry, FsState};
use oxidizr_arch::paths::{backup_path, SafePath};
use oxidizr_arch::verify::{sudo_guard, verify_link, verify_setuid_root};
use oxidizr_arch::worker::Worker;

fn worker(dry_run: bool, strict: bool, force: bool, best_effort: bool) -> Worker {
    Worker::new(
        "auto".to_string(),
        None,
        dry_run,
        None,
        None,
        None,
        None,
        best_effort,
        strict,
        force,
        None,
        None,
        None,
    )
}

fn exec_file(content: &[u8]) -> FsEntry {
    FsEntry::Regular { content: content.to_vec(), mode: 0o755, uid: 0, gid: 0, immutable: false }
}

fn sp(p: &str) -> SafePath {
    SafePath::from_rooted("/", p).unwrap()
}

fn regular_content(fs: &FsState, path: &str) -> Option<Vec<u8>> {
    match fs.lookup(path) {
        Some(FsEntry::Regular { content, .. }) => Some(content.clone()),
        _ => None,
    }
}

#[test]
fn test_worker_replace_and_restore() {
    let w = worker(false, false, false, false);
    let mut fs = FsState::new();
    fs.store("/usr/bin/ls", exec_file(b"gnu-ls"));
    fs.store("/usr/bin/coreutils", exec_file(b"uu"));

    let source = sp("/usr/bin/coreutils");
    let target = sp("/usr/bin/ls");
    w.replace_file_with_symlink(&mut fs, &source, &target).unwrap();
    assert!(verify_link(&fs, "/usr/bin/ls", "/usr/bin/coreutils"));
    assert_eq!(
        regular_content(&fs, &backup_path("/usr/bin/ls")).unwrap(),
        b"gnu-ls".to_vec()
    );

    w.restore_file(&mut fs, &target).unwrap();
    assert_eq!(regular_content(&fs, "/usr/bin/ls").unwrap(), b"gnu-ls".to_vec());
    assert!(!verify_link(&fs, "/usr/bin/ls", "/usr/bin/coreutils"));
}

#[test]
fn test_worker_dry_run_checks_but_does_not_mutate() {
    let w = worker(true, false, false, false);
    let mut fs = FsState::new();
    fs.store("/usr/bin/ls", exec_file(b"gnu-ls"));
    fs.store("/usr/bin/coreutils", exec_file(b"uu"));
    let source = sp("/usr/bin/coreutils");
    let target = sp("/usr/bin/ls");
    w.replace_file_with_symlink(&mut fs, &source, &target).unwrap();
    assert_eq!(regular_content(&fs, "/usr/bin/ls").unwrap(), b"gnu-ls".to_vec());
    assert!(fs.lookup(&backup_path("/usr/bin/ls")).is_none());

    // A dry-run restore still reports a missing backup.
    let err = w.restore_file(&mut fs, &target).unwrap_err();
    assert!(matches!(err, Error::RestoreBackupMissing(_)));
}

#[test]
fn test_worker_rejects_untrusted_source() {
    let w = worker(false, false, false, false);
    let mut fs = FsState::new();
    fs.store("/usr/bin/ls", exec_file(b"gnu-ls"));
    fs.store("/home/build/ls", exec_file(b"uu"));
    let source = sp("/home/build/ls");
    let target = sp("/usr/bin/ls");
    let err = w.replace_file_with_symlink(&mut fs, &source, &target).unwrap_err();
    assert!(matches!(err, Error::ExecutionFailed(_)));

    // With the override the same link goes through.
    let forced = worker(false, false, true, false);
    forced.replace_file_with_symlink(&mut fs, &source, &target).unwrap();
    assert!(verify_link(&fs, "/usr/bin/ls", "/home/build/ls"));
}

#[test]
fn test_worker_strict_ownership() {
    let strict = worker(false, true, false, false);
    let mut fs = FsState::new();
    fs.store("/usr/bin/ls", exec_file(b"gnu-ls"));
    fs.store("/usr/bin/coreutils", exec_file(b"uu"));
    let source = sp("/usr/bin/coreutils");
    let target = sp("/usr/bin/ls");
    let err = strict.replace_file_with_symlink(&mut fs, &source, &target).unwrap_err();
    assert!(matches!(err, Error::ExecutionFailed(_)));

    fs.add_owned("/usr/bin/ls".to_string());
    strict.replace_file_with_symlink(&mut fs, &source, &target).unwrap();
    assert!(verify_link(&fs, "/usr/bin/ls", "/usr/bin/coreutils"));
}

#[test]
fn test_worker_self_link_short_circuits_checks() {
    // A self-link is a no-op before any policy check runs: even an untrusted
    // location outside /usr succeeds and nothing changes.
    let w = worker(false, true, false, false);
    let mut fs = FsState::new();
    fs.store("/home/build/tool", exec_file(b"t"));
    let p = sp("/home/build/tool");
    w.replace_file_with_symlink(&mut fs, &p, &p).unwrap();
    assert_eq!(regular_content(&fs, "/home/build/tool").unwrap(), b"t".to_vec());
    assert!(fs.lookup(&backup_path("/home/build/tool")).is_none());
}

#[test]
fn test_worker_immutable_directory() {
    let w = worker(false, false, false, false);
    let mut fs = FsState::new();
    fs.store("/usr/bin", FsEntry::Directory { immutable: true });
    fs.store("/usr/bin/ls", exec_file(b"gnu-ls"));
    fs.store("/usr/bin/coreutils", exec_file(b"uu"));
    let err = w
        .replace_file_with_symlink(&mut fs, &sp("/usr/bin/coreutils"), &sp("/usr/bin/ls"))
        .unwrap_err();
    match err {
        Error::FilesystemUnsuitable(p) => assert_eq!(p, "/usr/bin/ls"),
        other => panic!("expected FilesystemUnsuitable, got {:?}", other),
    }
}

#[test]
fn test_worker_read_only_usr() {
    let w = worker(false, false, false, false);
    let mut fs = FsState::new();
    fs.add_mount("/usr".to_string(), true, false);
    fs.store("/usr/bin/ls", exec_file(b"gnu-ls"));
    fs.store("/usr/bin/coreutils", exec_file(b"uu"));
    let err = w
        .replace_file_with_symlink(&mut fs, &sp("/usr/bin/coreutils"), &sp("/usr/bin/ls"))
        .unwrap_err();
    match err {
        Error::FilesystemUnsuitable(p) => assert_eq!(p, "/usr"),
        other => panic!("expected FilesystemUnsuitable, got {:?}", other),
    }
}

#[test]
fn test_create_symlinks_batch() {
    let w = worker(false, false, false, false);
    let mut fs = FsState::new();
    fs.store("/usr/bin/ls", exec_file(b"gnu-ls"));
    fs.store("/usr/bin/cat", exec_file(b"gnu-cat"));
    fs.store("/usr/bin/coreutils", exec_file(b"uu"));
    let applets = vec![
        ("ls".to_string(), "/usr/bin/coreutils".to_string()),
        ("cat".to_string(), "/usr/bin/coreutils".to_string()),
    ];
    create_symlinks(&w, &mut fs, &applets).unwrap();
    assert!(verify_link(&fs, "/usr/bin/ls", "/usr/bin/coreutils"));
    assert!(verify_link(&fs, "/usr/bin/cat", "/usr/bin/coreutils"));
}

#[test]
fn test_create_symlinks_stops_on_failure() {
    let w = worker(false, false, false, false);
    let mut fs = FsState::new();
    fs.store("/usr/bin/ls", exec_file(b"gnu-ls"));
    fs.store(
        "/usr/bin/cat",
        FsEntry::Regular { content: b"gnu-cat".to_vec(), mode: 0o755, uid: 0, gid: 0, immutable: true },
    );
    fs.store("/usr/bin/wc", exec_file(b"gnu-wc"));
    fs.store("/usr/bin/coreutils", exec_file(b"uu"));
    let applets = vec![
        ("ls".to_string(), "/usr/bin/coreutils".to_string()),
        ("cat".to_string(), "/usr/bin/coreutils".to_string()),
        ("wc".to_string(), "/usr/bin/coreutils".to_string()),
    ];
    let err = create_symlinks(&w, &mut fs, &applets).unwrap_err();
    assert!(matches!(err, Error::FilesystemUnsuitable(_)));
    // The first link stays; the third was never attempted.
    assert!(verify_link(&fs, "/usr/bin/ls", "/usr/bin/coreutils"));
    assert!(!verify_link(&fs, "/usr/bin/wc", "/usr/bin/coreutils"));
}

#[test]
fn test_restore_targets_batch() {
    let w = worker(false, false, false, false);
    let mut fs = FsState::new();
    fs.store("/usr/bin/find", exec_file(b"gnu-find"));
    fs.store("/usr/bin/xargs", exec_file(b"gnu-xargs"));
    fs.store("/usr/bin/uutils", exec_file(b"uu"));
    let applets = vec![
        ("find".to_string(), "/usr/bin/uutils".to_string()),
        ("xargs".to_string(), "/usr/bin/uutils".to_string()),
    ];
    create_symlinks(&w, &mut fs, &applets).unwrap();

    let targets = vec!["/usr/bin/find".to_string(), "/usr/bin/xargs".to_string()];
    restore_targets(&w, &mut fs, &targets).unwrap();
    assert_eq!(regular_content(&fs, "/usr/bin/find").unwrap(), b"gnu-find".to_vec());
    assert_eq!(regular_content(&fs, "/usr/bin/xargs").unwrap(), b"gnu-xargs".to_vec());
}

#[test]
fn test_restore_targets_missing_backup() {
    let w = worker(false, false, false, false);
    let mut fs = FsState::new();
    fs.store("/usr/bin/find", exec_file(b"gnu-find"));
    let targets = vec!["/usr/bin/find".to_string()];
    let err = restore_targets(&w, &mut fs, &targets).unwrap_err();
    assert!(matches!(err, Error::RestoreBackupMissing(_)));

    // Best-effort restores skip the missing backup instead.
    let lenient = worker(false, false, false, true);
    restore_targets(&lenient, &mut fs, &targets).unwrap();
    assert_eq!(regular_content(&fs, "/usr/bin/find").unwrap(), b"gnu-find".to_vec());
}

#[test]
fn test_verify_link() {
    let mut fs = FsState::new();
    fs.store(
        "/usr/bin/ls",
        FsEntry::Symlink { dest: "/usr/bin/coreutils".to_string() },
    );
    assert!(verify_link(&fs, "/usr/bin/ls", "/usr/bin/coreutils"));
    assert!(!verify_link(&fs, "/usr/bin/ls", "/usr/bin/uutils"));
    assert!(!verify_link(&fs, "/usr/bin/missing", "/usr/bin/coreutils"));
}

#[test]
fn test_verify_setuid_root() {
    let mut fs = FsState::new();
    fs.store(
        "/usr/bin/sudo",
        FsEntry::Symlink { dest: "/usr/bin/sudo.sudo-rs".to_string() },
    );
    fs.store(
        "/usr/bin/sudo.sudo-rs",
        FsEntry::Symlink { dest: "/usr/lib/cargo/bin/sudo".to_string() },
    );
    fs.store(
        "/usr/lib/cargo/bin/sudo",
        FsEntry::Regular { content: b"sudo".to_vec(), mode: 0o4755, uid: 0, gid: 0, immutable: false },
    );
    assert!(verify_setuid_root(&fs, "/usr/bin/sudo").is_ok());

    // Without the setuid bit the check refuses.
    fs.store(
        "/usr/lib/cargo/bin/sudo",
        FsEntry::Regular { content: b"sudo".to_vec(), mode: 0o755, uid: 0, gid: 0, immutable: false },
    );
    assert!(verify_setuid_root(&fs, "/usr/bin/sudo").is_err());

    // A non-root owner is refused too.
    fs.store(
        "/usr/lib/cargo/bin/sudo",
        FsEntry::Regular { content: b"sudo".to_vec(), mode: 0o4755, uid: 1000, gid: 0, immutable: false },
    );
    assert!(verify_setuid_root(&fs, "/usr/bin/sudo").is_err());

    // A dangling chain is refused.
    assert!(verify_setuid_root(&fs, "/usr/bin/missing").is_err());
}

#[test]
fn test_sudo_guard() {
    // Live root: require root:root with setuid and exec bits.
    assert!(sudo_guard(true, 0, 0, 0o4755).is_ok());
    assert!(sudo_guard(true, 1000, 0, 0o4755).is_err());
    assert!(sudo_guard(true, 0, 0, 0o755).is_err());
    assert!(sudo_guard(true, 0, 0, 0o4644).is_err());
    // Hermetic roots: setuid and exec suffice.
    assert!(sudo_guard(false, 1000, 1000, 0o4755).is_ok());
    assert!(sudo_guard(false, 0, 0, 0o755).is_err());
}
