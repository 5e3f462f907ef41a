//! The worker: the run's configuration, plus single-request entry points
//! that bundle the policy checks with one link or restore step against the
//! filesystem model. Shelling out to the package manager and probing `PATH`
//! are the caller's side of the boundary.

use vstd::prelude::*;

use crate::apply::{spec_step_commit, ReqV};
use crate::errors::Error;
use crate::fsmodel::{spec_immutable_blocked, spec_mount_suitable, EntryV, FsState, MountV};
use crate::paths::SafePath;
use crate::policy::{source_trusted, spec_source_trusted};
use crate::preflight::{StopReason, StopV};
use crate::strutil::str_eq;

verus! {

/// Configuration for one run of the worker.
pub struct Worker {
    pub aur_helper: String,
    pub aur_user: Option<String>,
    pub dry_run: bool,
    pub wait_lock_secs: Option<u64>,
    pub package_override: Option<String>,
    pub bin_dir_override: Option<String>,
    pub unified_binary_override: Option<String>,
    pub force_restore_best_effort: bool,
    pub strict_ownership: bool,
    pub force_override_untrusted: bool,
    pub state_dir_override: Option<String>,
    pub log_dir_override: Option<String>,
    pub sudo_smoke_user: Option<String>,
}

impl Worker {
    /// Create a new worker from its configuration values.
    pub fn new(
        aur_helper: String,
        aur_user: Option<String>,
        dry_run: bool,
        wait_lock_secs: Option<u64>,
        package_override: Option<String>,
        bin_dir_override: Option<String>,
        unified_binary_override: Option<String>,
        force_restore_best_effort: bool,
        strict_ownership: bool,
        force_override_untrusted: bool,
        state_dir_override: Option<String>,
        log_dir_override: Option<String>,
        sudo_smoke_user: Option<String>,
    ) -> (r: Worker)
        ensures
            r.aur_helper == aur_helper,
            r.aur_user == aur_user,
            r.dry_run == dry_run,
            r.wait_lock_secs == wait_lock_secs,
            r.package_override == package_override,
            r.bin_dir_override == bin_dir_override,
            r.unified_binary_override == unified_binary_override,
            r.force_restore_best_effort == force_restore_best_effort,
            r.strict_ownership == strict_ownership,
            r.force_override_untrusted == force_override_untrusted,
            r.state_dir_override == state_dir_override,
            r.log_dir_override == log_dir_override,
            r.sudo_smoke_user == sudo_smoke_user,
    {
        Worker {
            aur_helper,
            aur_user,
            dry_run,
            wait_lock_secs,
            package_override,
            bin_dir_override,
            unified_binary_override,
            force_restore_best_effort,
            strict_ownership,
            force_override_untrusted,
            state_dir_override,
            log_dir_override,
            sudo_smoke_user,
        }
    }

    /// A valid package-name character: ASCII alphanumeric, dash, underscore,
    /// plus, or dot.
    pub open spec fn is_pkg_char(c: char) -> bool {
        ||| ('a' <= c && c <= 'z')
        ||| ('A' <= c && c <= 'Z')
        ||| ('0' <= c && c <= '9')
        ||| c == '-'
        ||| c == '_'
        ||| c == '+'
        ||| c == '.'
    }

    /// Whether a name is safe to hand to the package manager: nonempty, not
    /// starting with a dash, and made only of ASCII alphanumerics and
    /// `- _ + .`.
    pub fn is_valid_package_name(name: &str) -> (r: bool)
        ensures
            r == (name@.len() > 0 && name@[0] != '-' && (forall|i: int|
                0 <= i < name@.len() ==> Self::is_pkg_char(#[trigger] name@[i]))),
    {
        let len = name.unicode_len();
        if len == 0 {
            return false;
        }
        if name.get_char(0) == '-' {
            return false;
        }
        let mut i: usize = 0;
        while i < len
            invariant
                i <= len,
                len == name@.len(),
                forall|j: int| 0 <= j < i ==> Self::is_pkg_char(#[trigger] name@[j]),
            decreases len - i,
        {
            let c = name.get_char(i);
            let ok = (('a' <= c && c <= 'z') || ('A' <= c && c <= 'Z') || ('0' <= c && c <= '9')
                || c == '-' || c == '_' || c == '+' || c == '.');
            if !ok {
                return false;
            }
            i += 1;
        }
        true
    }

    /// The AUR helpers to try, in order: an explicitly selected helper comes
    /// first, then the well-known ones.
    pub fn aur_helper_candidates(&self) -> (r: Vec<String>)
        ensures
            ({
                let explicit = self.aur_helper@.len() > 0 && self.aur_helper@ != "auto"@
                    && self.aur_helper@ != "none"@;
                if explicit {
                    r.deep_view() == seq![
                        self.aur_helper@,
                        "paru"@,
                        "yay"@,
                        "trizen"@,
                        "pamac"@,
                    ]
                } else {
                    r.deep_view() == seq!["paru"@, "yay"@, "trizen"@, "pamac"@]
                }
            }),
    {
        let mut out: Vec<String> = Vec::new();
        let explicit = self.aur_helper.as_str().unicode_len() > 0 && !str_eq(
            self.aur_helper.as_str(),
            "auto",
        ) && !str_eq(self.aur_helper.as_str(), "none");
        if explicit {
            out.push(self.aur_helper.clone());
        }
        out.push("paru".to_owned());
        out.push("yay".to_owned());
        out.push("trizen".to_owned());
        out.push("pamac".to_owned());
        proof {
            if explicit {
                assert(out.deep_view() =~= seq![
                    self.aur_helper@,
                    "paru"@,
                    "yay"@,
                    "trizen"@,
                    "pamac"@,
                ]);
            } else {
                assert(out.deep_view() =~= seq!["paru"@, "yay"@, "trizen"@, "pamac"@]);
            }
        }
        out
    }

    /// Enforce the ownership policy for a target: with an owner known to the
    /// oracle, or without strict ownership, the target passes; otherwise the
    /// swap is aborted.
    pub fn verify_owner_for_target(&self, fs: &FsState, target: &str) -> (r: Result<(), Error>)
        ensures
            r is Ok <==> (!self.strict_ownership || fs.owned_view().contains(target@)),
            r matches Err(e) ==> e matches Error::ExecutionFailed(m) && m@ == target@,
    {
        if !self.strict_ownership || fs.is_owned(target) {
            Ok(())
        } else {
            Err(Error::ExecutionFailed(target.to_owned()))
        }
    }
}

/// The first check that refuses one worker-level link, if any: a self-link
/// is a short-circuited no-op before any check runs; otherwise the `/usr`
/// mount, the target's mount, the target's immutability, source trust, and
/// the ownership policy, in that order.
pub open spec fn spec_worker_link_stop(
    m: Map<Seq<char>, EntryV>,
    mounts: Seq<MountV>,
    owned: Seq<Seq<char>>,
    strict_ownership: bool,
    force_untrusted: bool,
    source: Seq<char>,
    target: Seq<char>,
) -> Option<StopV> {
    if source == target {
        Option::None
    } else if !spec_mount_suitable(mounts, "/usr"@) {
        Some(StopV { reason: StopReason::MountUnsuitable, path: "/usr"@ })
    } else if !spec_mount_suitable(mounts, target) {
        Some(StopV { reason: StopReason::MountUnsuitable, path: target })
    } else if spec_immutable_blocked(m, target) {
        Some(StopV { reason: StopReason::TargetImmutable, path: target })
    } else if !spec_source_trusted(source) && !force_untrusted {
        Some(StopV { reason: StopReason::SourceUntrusted, path: source })
    } else if strict_ownership && !owned.contains(target) {
        Some(StopV { reason: StopReason::OwnerUnknown, path: target })
    } else {
        Option::None
    }
}

/// The error that reports one stop.
pub open spec fn stop_error_matches(e: Error, st: StopV) -> bool {
    match st.reason {
        StopReason::MountUnsuitable => e matches Error::FilesystemUnsuitable(s) && s@ == st.path,
        StopReason::TargetImmutable => e matches Error::FilesystemUnsuitable(s) && s@ == st.path,
        StopReason::SourceUntrusted => e matches Error::ExecutionFailed(s) && s@ == st.path,
        StopReason::OwnerUnknown => e matches Error::ExecutionFailed(s) && s@ == st.path,
        StopReason::BackupMissing => e matches Error::RestoreBackupMissing(s) && s@ == st.path,
        _ => false,
    }
}

/// The first check that refuses one worker-level restore, if any: the `/usr`
/// mount, the target's mount, the target's immutability, then the backup's
/// presence (unless restores are best-effort).
pub open spec fn spec_worker_restore_stop(
    m: Map<Seq<char>, EntryV>,
    mounts: Seq<MountV>,
    force_restore_best_effort: bool,
    target: Seq<char>,
) -> Option<StopV> {
    if !spec_mount_suitable(mounts, "/usr"@) {
        Some(StopV { reason: StopReason::MountUnsuitable, path: "/usr"@ })
    } else if !spec_mount_suitable(mounts, target) {
        Some(StopV { reason: StopReason::MountUnsuitable, path: target })
    } else if spec_immutable_blocked(m, target) {
        Some(StopV { reason: StopReason::TargetImmutable, path: target })
    } else if !m.contains_key(crate::paths::spec_backup_path(target))
        && !force_restore_best_effort {
        Some(StopV { reason: StopReason::BackupMissing, path: target })
    } else {
        Option::None
    }
}

impl Worker {
    /// Atomically replace one target with a symlink to `source`, after the
    /// filesystem preflights (mounts, immutability), the source-trust check,
    /// and the ownership policy. In dry-run mode the checks still run and
    /// nothing is mutated. Succeeds exactly when every check passes.
    pub fn replace_file_with_symlink(
        &self,
        fs: &mut FsState,
        source: &SafePath,
        target: &SafePath,
    ) -> (r: Result<(), Error>)
        requires
            old(fs).wf(),
        ensures
            final(fs).wf(),
            final(fs).mounts_view() == old(fs).mounts_view(),
            final(fs).owned_view() == old(fs).owned_view(),
            ({
                let stop = spec_worker_link_stop(
                    old(fs).as_map(),
                    old(fs).mounts_view(),
                    old(fs).owned_view(),
                    self.strict_ownership,
                    self.force_override_untrusted,
                    source@,
                    target@,
                );
                &&& (r is Ok <==> stop is None)
                &&& (r matches Err(e) ==> stop matches Some(st) && stop_error_matches(e, st))
                &&& ((self.dry_run || stop is Some) ==> final(fs).as_map() == old(fs).as_map())
                &&& ((!self.dry_run && stop is None) ==> final(fs).as_map() == spec_step_commit(
                    old(fs).as_map(),
                    old(fs).mounts_view(),
                    self.force_restore_best_effort,
                    ReqV::Link { source: source@, target: target@ },
                ).m)
            }),
    {
        if str_eq(source.as_str(), target.as_str()) {
            proof {
                let st = spec_step_commit(
                    old(fs).as_map(),
                    old(fs).mounts_view(),
                    self.force_restore_best_effort,
                    ReqV::Link { source: source@, target: target@ },
                );
                assert(st.m == old(fs).as_map());
            }
            return Ok(());
        }
        if !fs.mount_suitable("/usr") {
            return Err(Error::FilesystemUnsuitable("/usr".to_owned()));
        }
        if !fs.mount_suitable(target.as_str()) {
            return Err(Error::FilesystemUnsuitable(target.as_str().to_owned()));
        }
        if fs.immutable_blocked(target.as_str()) {
            return Err(Error::FilesystemUnsuitable(target.as_str().to_owned()));
        }
        if !source_trusted(source.as_str()) && !self.force_override_untrusted {
            return Err(Error::ExecutionFailed(source.as_str().to_owned()));
        }
        if self.strict_ownership && !fs.is_owned(target.as_str()) {
            return Err(Error::ExecutionFailed(target.as_str().to_owned()));
        }
        if self.dry_run {
            return Ok(());
        }
        let step = crate::apply::exec_link_step(
            fs,
            source.as_str(),
            target.as_str(),
            self.force_restore_best_effort,
        );
        proof {
            let st = spec_step_commit(
                old(fs).as_map(),
                old(fs).mounts_view(),
                self.force_restore_best_effort,
                ReqV::Link { source: source@, target: target@ },
            );
            assert(st.err is None);
            assert(step.1 is None);
        }
        let _ = step;
        Ok(())
    }

    /// Restore one target from its backup, after the filesystem preflights.
    /// In dry-run mode nothing is mutated, but a missing backup is still an
    /// error unless restores are best-effort. Succeeds exactly when the
    /// checks pass and a backup exists (or best-effort is on).
    pub fn restore_file(&self, fs: &mut FsState, target: &SafePath) -> (r: Result<(), Error>)
        requires
            old(fs).wf(),
        ensures
            final(fs).wf(),
            final(fs).mounts_view() == old(fs).mounts_view(),
            final(fs).owned_view() == old(fs).owned_view(),
            ({
                let m = old(fs).as_map();
                let mounts = old(fs).mounts_view();
                let has_backup = m.contains_key(crate::paths::spec_backup_path(target@));
                let stop = spec_worker_restore_stop(
                    m,
                    mounts,
                    self.force_restore_best_effort,
                    target@,
                );
                &&& (r is Ok <==> stop is None)
                &&& (r matches Err(e) ==> stop matches Some(st) && stop_error_matches(e, st))
                &&& ((self.dry_run || stop is Some || !has_backup) ==> final(fs).as_map() == m)
                &&& ((!self.dry_run && stop is None && has_backup) ==> final(fs).as_map()
                    == spec_step_commit(
                    m,
                    mounts,
                    self.force_restore_best_effort,
                    ReqV::Restore { target: target@ },
                ).m)
            }),
    {
        if !fs.mount_suitable("/usr") {
            return Err(Error::FilesystemUnsuitable("/usr".to_owned()));
        }
        if !fs.mount_suitable(target.as_str()) {
            return Err(Error::FilesystemUnsuitable(target.as_str().to_owned()));
        }
        if fs.immutable_blocked(target.as_str()) {
            return Err(Error::FilesystemUnsuitable(target.as_str().to_owned()));
        }
        let bp = crate::paths::backup_path(target.as_str());
        let has_backup = fs.lookup(bp.as_str()).is_some();
        if !has_backup {
            if self.force_restore_best_effort {
                return Ok(());
            }
            return Err(Error::RestoreBackupMissing(target.as_str().to_owned()));
        }
        if self.dry_run {
            return Ok(());
        }
        let step = crate::apply::exec_restore_step(
            fs,
            target.as_str(),
            self.force_restore_best_effort,
        );
        proof {
            assert(step.1 is None);
        }
        let _ = step;
        Ok(())
    }
}

} // verus!
