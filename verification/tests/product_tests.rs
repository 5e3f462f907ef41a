use oxidizr_arch::compat::{check_compatibility, is_supported_distro, Distribution};
use oxidizr_arch::errors::Error;
use oxidizr_arch::experiments::{
    all_experiments, check_download_prerequisites, log_applets_summary, relink_managed,
    verify_installed, verify_removed, ChecksumsExperiment, CoreutilsExperiment,
    FindutilsExperiment, resolve_usrbin, SudoRsExperiment, SUDO_RS, UUTILS_COREUTILS,
    UUTILS_FINDUTILS,
};
use oxidizr_arch::fsmodel::{FsEntry, FsState};
use oxidizr_arch::hook::{hook_body, hook_path};
use oxidizr_arch::pkgs::{
    distro_pkg_name, guess_artifact_path, replacement_pkg_name, resolve_applet_source,
    resolve_source_bin, AurHelperArg, Package,
};
use oxidizr_arch::progress::{fmt_host_pb_line, ProgressConfig};
use oxidizr_arch::state::{set_enabled, state_dir_or, State};
use oxidizr_arch::worker::Worker;

#[test]
fn test_supported_distros() {
    assert!(is_supported_distro("arch"));
    assert!(is_supported_distro("manjaro"));
    assert!(is_supported_distro("cachyos"));
    assert!(is_supported_distro("endeavouros"));
    assert!(!is_supported_distro("ubuntu"));
    assert!(!is_supported_distro("debian"));
}

#[test]
fn test_compatibility_check() {
    let arch = Distribution {
        id: "arch".to_string(),
        id_like: "".to_string(),
        release: "rolling".to_string(),
    };
    assert!(check_compatibility(&arch, false).is_ok());

    let ubuntu = Distribution {
        id: "ubuntu".to_string(),
        id_like: "debian".to_string(),
        release: "22.04".to_string(),
    };
    assert!(check_compatibility(&ubuntu, false).is_err());
    assert!(check_compatibility(&ubuntu, true).is_ok()); // Skip check
}

#[test]
fn test_package_constants() {
    assert_eq!(UUTILS_COREUTILS, "uutils-coreutils");
    assert_eq!(UUTILS_FINDUTILS, "uutils-findutils-bin");
    assert_eq!(SUDO_RS, "sudo-rs");
}

#[test]
fn test_all_experiments() {
    let exps = all_experiments();
    // Four registered experiments, checksums last so the flip happens after
    // the core utilities are active.
    assert_eq!(exps.len(), 4);

    let names: Vec<String> = exps.iter().map(|e| e.name().to_string()).collect();
    assert!(names.contains(&"coreutils".to_string()));
    assert!(names.contains(&"findutils".to_string()));
    assert!(names.contains(&"sudo-rs".to_string()));
    assert_eq!(names[0], "findutils");
    assert_eq!(names[3], "checksums");
}

#[test]
fn test_experiment_targets() {
    let coreutils = CoreutilsExperiment::new();
    let targets = coreutils.list_targets();
    assert!(!targets.is_empty());
    assert!(targets.iter().any(|t| t == "/usr/bin/ls"));

    let findutils = FindutilsExperiment::new();
    let targets = findutils.list_targets();
    assert_eq!(targets.len(), 2);
    assert!(targets.contains(&"/usr/bin/find".to_string()));
    assert!(targets.contains(&"/usr/bin/xargs".to_string()));

    let sudors = SudoRsExperiment::new();
    let targets = sudors.list_targets();
    assert_eq!(targets.len(), 3);
    assert!(targets.contains(&"/usr/bin/sudo".to_string()));
    assert!(targets.contains(&"/usr/bin/su".to_string()));
    assert!(targets.contains(&"/usr/sbin/visudo".to_string()));
}

#[test]
fn test_coreutils_list_targets_excludes_checksums() {
    let coreutils = CoreutilsExperiment::new();
    let targets = coreutils.list_targets();
    // Check that common checksum applets are not among coreutils targets
    for name in [
        "b2sum", "md5sum", "sha1sum", "sha224sum", "sha256sum", "sha384sum", "sha512sum",
    ] {
        assert!(
            !targets.contains(&format!("/usr/bin/{}", name)),
            "coreutils list_targets should exclude checksum applet {}",
            name
        );
    }
}

#[test]
fn test_checksums_list_targets_includes_only_checksums() {
    let checksums = ChecksumsExperiment::new();
    let targets = checksums.list_targets();
    // Expect exactly 7 checksum applets
    assert_eq!(targets.len(), 7);
    for name in [
        "b2sum", "md5sum", "sha1sum", "sha224sum", "sha256sum", "sha384sum", "sha512sum",
    ] {
        assert!(
            targets.contains(&format!("/usr/bin/{}", name)),
            "checksums list_targets should include {}",
            name
        );
    }
}

#[test]
fn test_cli_default_experiments() {
    // Test that we have the expected default experiments
    // The default should be coreutils and sudo-rs
}

#[test]
fn test_fmt_host_pb_with_label() {
    let s = fmt_host_pb_line(3, 10, "Linking rm");
    assert_eq!(s, "PB> 3/10 Linking rm");
}

#[test]
fn test_fmt_host_pb_without_label() {
    let s = fmt_host_pb_line(1, 2, "");
    assert_eq!(s, "PB> 1/2");
}

#[test]
fn test_fmt_host_pb_larger_numbers() {
    assert_eq!(fmt_host_pb_line(0, 0, ""), "PB> 0/0");
    assert_eq!(fmt_host_pb_line(107, 230, "Restoring ls"), "PB> 107/230 Restoring ls");
}

#[test]
fn test_exit_codes() {
    assert_eq!(Error::CliMisuse("x".into()).exit_code(), 2);
    assert_eq!(Error::Incompatible("x".into()).exit_code(), 10);
    assert_eq!(Error::NothingToLink("x".into()).exit_code(), 20);
    assert_eq!(Error::RestoreBackupMissing("x".into()).exit_code(), 30);
    assert_eq!(
        Error::RepoGateFailed { package: "p".into(), details: "d".into() }.exit_code(),
        40
    );
    assert_eq!(Error::PacmanLockTimeout.exit_code(), 50);
    assert_eq!(Error::RootRequired.exit_code(), 70);
    assert_eq!(Error::FilesystemUnsuitable("x".into()).exit_code(), 80);
    assert_eq!(Error::HookInstallError("x".into()).exit_code(), 90);
    assert_eq!(Error::ExecutionFailed("x".into()).exit_code(), 1);
    assert_eq!(Error::Other("x".into()).exit_code(), 1);
}

#[test]
fn test_check_download_prerequisites() {
    // Neither repository source: refused for every package.
    let e = check_download_prerequisites("uutils-coreutils", false, false, None, false, true)
        .unwrap_err();
    assert!(matches!(e, Error::RepoGateFailed { .. }));
    assert_eq!(e.exit_code(), 40);
    // Official packages need the extra repository, and must be present there.
    assert!(check_download_prerequisites("uutils-coreutils", true, false, Some(true), false, true)
        .is_ok());
    assert!(check_download_prerequisites("sudo-rs", false, true, None, false, true).is_err());
    assert!(check_download_prerequisites(
        "uutils-coreutils",
        true,
        false,
        Some(false),
        false,
        true
    )
    .is_err());
    // The findutils replacement needs an AUR helper.
    assert!(check_download_prerequisites("uutils-findutils-bin", true, false, None, false, true)
        .is_err());
    assert!(check_download_prerequisites("uutils-findutils-bin", false, true, None, false, true)
        .is_ok());
    // Reinstall is requested exactly when an installed package is not reused.
    assert_eq!(
        check_download_prerequisites("sudo-rs", true, true, Some(true), true, false).unwrap(),
        true
    );
    assert_eq!(
        check_download_prerequisites("sudo-rs", true, true, Some(true), true, true).unwrap(),
        false
    );
}

#[test]
fn test_relink_managed_prunes_unknown_names() {
    let mut st = State::new();
    st.enabled_experiments.push("coreutils".to_string());
    st.enabled_experiments.push("legacy-experiment".to_string());
    st.enabled_experiments.push("checksums".to_string());
    st.managed_targets.push("/usr/bin/ls".to_string());
    let (known, pruned) = relink_managed(st);
    // A persisted checksums entry is relinked, not dropped; only names with
    // no registered experiment are pruned.
    assert_eq!(known, vec!["coreutils", "checksums"]);
    assert_eq!(pruned.enabled_experiments, vec!["coreutils", "checksums"]);
    assert_eq!(pruned.managed_targets, vec!["/usr/bin/ls"]);
}

#[test]
fn test_verify_installed_and_removed() {
    assert!(verify_installed("sudo-rs", true).is_ok());
    let e = verify_installed("sudo-rs", false).unwrap_err();
    assert!(matches!(e, Error::ExecutionFailed(p) if p == "sudo-rs"));
    assert!(verify_removed("sudo-rs", false).is_ok());
    assert!(verify_removed("sudo-rs", true).is_err());
}

#[test]
fn test_log_applets_summary() {
    let applets = vec![
        ("ls".to_string(), "/usr/bin/coreutils".to_string()),
        ("cat".to_string(), "/usr/bin/coreutils".to_string()),
        ("wc".to_string(), "/usr/bin/coreutils".to_string()),
    ];
    let lines = log_applets_summary("coreutils", &applets, 2);
    assert_eq!(lines.len(), 4);
    assert_eq!(lines[0], "Preparing to link 3 applet(s) for coreutils");
    assert_eq!(lines[1], "  [1] /usr/bin/coreutils -> /usr/bin/ls");
    assert_eq!(lines[2], "  [2] /usr/bin/coreutils -> /usr/bin/cat");
    assert_eq!(lines[3], "  (truncated)");

    let all = log_applets_summary("coreutils", &applets, 8);
    assert_eq!(all.len(), 4);
    assert_eq!(all[3], "  [3] /usr/bin/coreutils -> /usr/bin/wc");
}

#[test]
fn test_experiment_names() {
    assert_eq!(CoreutilsExperiment::new().name(), "coreutils");
    assert_eq!(FindutilsExperiment::new().name(), "findutils");
    assert_eq!(SudoRsExperiment::new().name(), "sudo-rs");
    assert_eq!(ChecksumsExperiment::new().name(), "checksums");
}

#[test]
fn test_resolve_usrbin() {
    assert_eq!(resolve_usrbin("ls"), "/usr/bin/ls");
}

#[test]
fn test_pkg_names() {
    assert_eq!(distro_pkg_name(Package::Coreutils), "coreutils");
    assert_eq!(distro_pkg_name(Package::Findutils), "findutils");
    assert_eq!(distro_pkg_name(Package::Sudo), "sudo");
    assert_eq!(replacement_pkg_name(Package::Coreutils), "uutils-coreutils");
    assert_eq!(replacement_pkg_name(Package::Findutils), "uutils-findutils-bin");
    assert_eq!(replacement_pkg_name(Package::Sudo), "sudo-rs");
}

#[test]
fn test_aur_helper_arg() {
    assert_eq!(AurHelperArg::Auto.as_helper_str(), "auto");
    assert_eq!(AurHelperArg::NoHelper.as_helper_str(), "none");
    assert_eq!(AurHelperArg::Paru.as_helper_str(), "paru");
    assert_eq!(AurHelperArg::Yay.as_helper_str(), "yay");
    assert_eq!(AurHelperArg::Trizen.as_helper_str(), "trizen");
    assert_eq!(AurHelperArg::Pamac.as_helper_str(), "pamac");
}

fn worker_with(aur_helper: &str, strict: bool) -> Worker {
    Worker::new(
        aur_helper.to_string(),
        None,
        false,
        None,
        None,
        None,
        None,
        false,
        strict,
        false,
        None,
        None,
        None,
    )
}

#[test]
fn test_is_valid_package_name() {
    assert!(Worker::is_valid_package_name("uutils-coreutils"));
    assert!(Worker::is_valid_package_name("sudo-rs"));
    assert!(Worker::is_valid_package_name("pkg_1.2+x"));
    assert!(!Worker::is_valid_package_name(""));
    assert!(!Worker::is_valid_package_name("-oops"));
    assert!(!Worker::is_valid_package_name("bad name"));
    assert!(!Worker::is_valid_package_name("semi;colon"));
}

#[test]
fn test_aur_helper_candidates() {
    let auto = worker_with("auto", false);
    let c = auto.aur_helper_candidates();
    assert_eq!(c, vec!["paru", "yay", "trizen", "pamac"]);

    let chosen = worker_with("yay", false);
    let c = chosen.aur_helper_candidates();
    assert_eq!(c, vec!["yay", "paru", "yay", "trizen", "pamac"]);
}

#[test]
fn test_verify_owner_for_target() {
    let mut fs = FsState::new();
    fs.add_owned("/usr/bin/ls".to_string());
    let lax = worker_with("auto", false);
    assert!(lax.verify_owner_for_target(&fs, "/usr/bin/unknown").is_ok());
    let strict = worker_with("auto", true);
    assert!(strict.verify_owner_for_target(&fs, "/usr/bin/ls").is_ok());
    assert!(strict.verify_owner_for_target(&fs, "/usr/bin/unknown").is_err());
}

#[test]
fn test_state_set_enabled() {
    let st = State::new();
    let managed = vec!["/usr/bin/find".to_string(), "/usr/bin/xargs".to_string()];
    let st = set_enabled(st, "findutils", true, &managed);
    assert_eq!(st.enabled_experiments, vec!["findutils"]);
    assert_eq!(st.managed_targets, managed);

    // Enabling again changes nothing: names and targets stay unique.
    let st = set_enabled(st, "findutils", true, &managed);
    assert_eq!(st.enabled_experiments, vec!["findutils"]);
    assert_eq!(st.managed_targets, managed);

    let st = set_enabled(st, "findutils", false, &managed);
    assert!(st.enabled_experiments.is_empty());
    assert!(st.managed_targets.is_empty());
}

#[test]
fn test_state_dir_or() {
    assert_eq!(state_dir_or(&None), "/var/lib/oxidizr-arch");
    assert_eq!(state_dir_or(&Some("/tmp/state".to_string())), "/tmp/state");
}

#[test]
fn test_hook() {
    assert_eq!(hook_path(), "/usr/share/libalpm/hooks/oxidizr-arch-relink.hook");
    let body = hook_body();
    assert!(body.starts_with("[Trigger]\n"));
    assert!(body.contains("When = PostTransaction"));
    assert!(body.contains("Exec = /usr/bin/oxidizr-arch relink-managed"));
}

#[test]
fn test_progress_config() {
    let mut cfg = ProgressConfig::new();
    assert!(cfg.symlink_info_enabled());
    cfg.enable_symlink_quiet();
    assert!(!cfg.symlink_info_enabled());
    cfg.disable_symlink_quiet();
    assert!(cfg.symlink_info_enabled());
    assert!(!cfg.is_disabled());
    cfg.set_disabled(true);
    assert!(cfg.is_disabled());
}

fn exec_file(content: &[u8]) -> FsEntry {
    FsEntry::Regular { content: content.to_vec(), mode: 0o755, uid: 0, gid: 0, immutable: false }
}

#[test]
fn test_resolve_source_bin() {
    let mut fs = FsState::new();
    // Nothing installed: falls back to the canonical path.
    assert_eq!(resolve_source_bin(Package::Coreutils, &fs), "/usr/bin/coreutils");
    // The first present candidate wins.
    fs.store("/usr/lib/uutils-coreutils/uutils", exec_file(b"uu"));
    assert_eq!(resolve_source_bin(Package::Coreutils, &fs), "/usr/lib/uutils-coreutils/uutils");
    fs.store("/usr/bin/uutils", exec_file(b"uu"));
    assert_eq!(resolve_source_bin(Package::Coreutils, &fs), "/usr/bin/uutils");
}

#[test]
fn test_resolve_applet_source() {
    let mut fs = FsState::new();
    assert_eq!(
        resolve_applet_source(Package::Coreutils, "/usr/bin/coreutils", "ls", &fs),
        "/usr/bin/coreutils"
    );
    fs.store("/usr/bin/uu-ls", exec_file(b"uu-ls"));
    assert_eq!(
        resolve_applet_source(Package::Coreutils, "/usr/bin/coreutils", "ls", &fs),
        "/usr/bin/uu-ls"
    );
}

#[test]
fn test_guess_artifact_path() {
    let mut fs = FsState::new();
    assert!(guess_artifact_path("/tmp/t1", Package::Sudo, &fs).is_none());
    fs.store("/tmp/t1/opt/sudo-rs/sudo-rs", exec_file(b"s"));
    assert_eq!(
        guess_artifact_path("/tmp/t1", Package::Sudo, &fs).unwrap(),
        "/tmp/t1/opt/sudo-rs/sudo-rs"
    );
}

#[test]
fn test_find_sudors_source() {
    let sudors = SudoRsExperiment::new();
    let mut fs = FsState::new();
    assert!(sudors.find_sudors_source(&fs, "sudo").is_none());
    fs.store("/usr/bin/sudo-rs", exec_file(b"s"));
    assert_eq!(sudors.find_sudors_source(&fs, "sudo").unwrap(), "/usr/bin/sudo-rs");
    fs.store("/usr/lib/cargo/bin/sudo", exec_file(b"s"));
    assert_eq!(sudors.find_sudors_source(&fs, "sudo").unwrap(), "/usr/lib/cargo/bin/sudo");
}

#[test]
fn test_discover_applets_unified() {
    let coreutils = CoreutilsExperiment::new();
    let worker = worker_with("auto", false);
    let mut fs = FsState::new();
    fs.store("/usr/bin/coreutils", exec_file(b"dispatcher"));
    let applets = coreutils.discover_applets(&fs, &worker);
    assert!(!applets.is_empty());
    assert!(applets.iter().all(|(_, src)| src == "/usr/bin/coreutils"));
    assert!(applets.iter().any(|(name, _)| name == "ls"));
}

#[test]
fn test_discover_applets_per_applet() {
    let coreutils = CoreutilsExperiment::new();
    let worker = worker_with("auto", false);
    let mut fs = FsState::new();
    fs.store("/usr/bin/uu-ls", exec_file(b"uu-ls"));
    fs.store("/usr/lib/uutils/coreutils/cat", exec_file(b"uu-cat"));
    let applets = coreutils.discover_applets(&fs, &worker);
    assert_eq!(applets.len(), 2);
    assert!(applets.contains(&("ls".to_string(), "/usr/bin/uu-ls".to_string())));
    assert!(applets.contains(&("cat".to_string(), "/usr/lib/uutils/coreutils/cat".to_string())));
}

#[test]
fn test_discover_present_checksums() {
    let checksums = ChecksumsExperiment::new();
    let worker = worker_with("auto", false);
    let mut fs = FsState::new();
    let (found, skipped) = checksums.discover_present(&fs, &worker);
    assert!(found.is_empty());
    assert_eq!(skipped.len(), 7);
    fs.store("/usr/bin/coreutils", exec_file(b"dispatcher"));
    let (found, skipped) = checksums.discover_present(&fs, &worker);
    assert_eq!(found.len(), 7);
    assert!(skipped.is_empty());
}
