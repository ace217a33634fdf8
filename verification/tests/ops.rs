//! The privileged operations, carried out on an in-memory host.

use std::collections::{BTreeMap, BTreeSet};
use std::sync::{Arc, Mutex};

use mayfly_helper::errors::{Error, Result};
use mayfly_helper::ops::run::{read_optional_string, remove_optional};
use mayfly_helper::ops::{
    Action, Dispatch, Event, HelperOps, ManagedDir, ManagedFile, OpRun, OpsConfig, Stage,
};
use mayfly_helper::platform::effective_uid;
use mayfly_helper::protocol::{Operation, Outcome, Request, Response, HELPER_VERSION};
use mayfly_helper::security::{secure_write, Attempt, FileKind, FileMeta, WriteStage, WriteStep};
use mayfly_helper::ssh::sshd_config::render_dropin;
use mayfly_helper::sshd_control::{SshdCheck, SshdControl};

/// A scriptable `SshdControl` that can fail validate/reload/is_active a fixed
/// number of times before succeeding, and records call counts.
struct Sshd {
    validate_fail: Mutex<u32>,
    reload_fail: Mutex<u32>,
    active_fail: Mutex<u32>,
    validates: Mutex<u32>,
    reloads: Mutex<u32>,
}

#[derive(Clone)]
struct MockSshd(Arc<Sshd>);

impl MockSshd {
    fn healthy() -> Self {
        MockSshd(Arc::new(Sshd {
            validate_fail: Mutex::new(0),
            reload_fail: Mutex::new(0),
            active_fail: Mutex::new(0),
            validates: Mutex::new(0),
            reloads: Mutex::new(0),
        }))
    }

    fn validate_fails_once() -> Self {
        let s = Self::healthy();
        *s.0.validate_fail.lock().unwrap() = 1;
        s
    }

    fn reload_fails_once() -> Self {
        let s = Self::healthy();
        *s.0.reload_fail.lock().unwrap() = 1;
        s
    }

    fn never_active() -> Self {
        let s = Self::healthy();
        *s.0.active_fail.lock().unwrap() = 100;
        s
    }

    fn reloads(&self) -> u32 {
        *self.0.reloads.lock().unwrap()
    }

    fn validates(&self) -> u32 {
        *self.0.validates.lock().unwrap()
    }
}

fn take(counter: &Mutex<u32>) -> bool {
    let mut remaining = counter.lock().unwrap();
    if *remaining > 0 {
        *remaining -= 1;
        true // "fail this time"
    } else {
        false
    }
}

impl SshdControl for MockSshd {
    fn validate_config(&self) -> Result<()> {
        *self.0.validates.lock().unwrap() += 1;
        if take(&self.0.validate_fail) {
            Err(Error::SshdValidationFailed)
        } else {
            Ok(())
        }
    }
    fn reload(&self) -> Result<()> {
        *self.0.reloads.lock().unwrap() += 1;
        if take(&self.0.reload_fail) {
            Err(Error::SshdInactive)
        } else {
            Ok(())
        }
    }
    fn is_active(&self) -> Result<()> {
        if take(&self.0.active_fail) {
            Err(Error::SshdInactive)
        } else {
            Ok(())
        }
    }
}

fn io(kind: std::io::ErrorKind) -> std::io::Error {
    std::io::Error::new(kind, "host")
}

/// A host whose files live in memory.
struct Host {
    dirs: BTreeSet<String>,
    files: BTreeMap<String, Vec<u8>>,
    metas: BTreeMap<String, FileMeta>,
    owner: u32,
    /// How many writes from now on fail, and whether those still install.
    failing_writes: u32,
    failing_writes_install: bool,
    unremovable: bool,
    performed: Vec<Action>,
}

impl Host {
    fn new() -> Self {
        Host {
            dirs: BTreeSet::new(),
            files: BTreeMap::new(),
            metas: BTreeMap::new(),
            owner: effective_uid(),
            failing_writes: 0,
            failing_writes_install: false,
            unremovable: false,
            performed: Vec::new(),
        }
    }

    fn write_main_config_with_include(&mut self) {
        self.files.insert(
            config().main_sshd_config,
            b"Port 22\nInclude /etc/ssh/sshd_config.d/*.conf\n".to_vec(),
        );
    }

    fn lstat(&self, path: &str, exists: bool) -> Attempt<FileMeta> {
        if let Some(meta) = self.metas.get(path) {
            Attempt::Done(*meta)
        } else if exists {
            Attempt::Done(FileMeta {
                kind: FileKind::Other,
                uid: self.owner,
                mode: 0o100644,
            })
        } else {
            Attempt::Missing(io(std::io::ErrorKind::NotFound))
        }
    }

    fn perform(&mut self, ops: &HelperOps<MockSshd>, run: &OpRun, action: Action) -> Event {
        self.performed.push(action);
        match action {
            Action::DirExists(d) => Event::Exists(self.dirs.contains(&ops.dir_of(d).unwrap())),
            Action::CreateDirs(d) => {
                self.dirs.insert(ops.dir_of(d).unwrap());
                Event::Done(Attempt::Done(()))
            }
            Action::LstatDir(d) => {
                let path = ops.dir_of(d).unwrap();
                let exists = self.dirs.contains(&path);
                Event::Stat(self.lstat(&path, exists))
            }
            Action::SetDirMode(_, mode) => {
                assert_eq!(mode, 0o755);
                Event::Done(Attempt::Done(()))
            }
            Action::Lstat(f) => {
                let path = ops.path_of(f);
                Event::Stat(self.lstat(path, self.files.contains_key(path)))
            }
            Action::Read(f) => Event::Contents(match self.files.get(ops.path_of(f)) {
                Some(bytes) => Attempt::Done(bytes.clone()),
                None => Attempt::Missing(io(std::io::ErrorKind::NotFound)),
            }),
            Action::Write(f, mode) => {
                assert_eq!(mode, 0o644);
                Event::Wrote(self.write(ops.path_of(f), run.payload(), mode))
            }
            Action::Remove(f) => {
                if self.unremovable {
                    Event::Done(Attempt::Failed(io(std::io::ErrorKind::PermissionDenied)))
                } else if self.files.remove(ops.path_of(f)).is_some() {
                    Event::Done(Attempt::Done(()))
                } else {
                    Event::Done(Attempt::Missing(io(std::io::ErrorKind::NotFound)))
                }
            }
            Action::Sshd(check) => Event::Checked(ops.check(check)),
        }
    }

    /// Follow an atomic write to its end.
    fn write(&mut self, path: &str, contents: &[u8], mode: u32) -> Result<()> {
        let fails = self.failing_writes > 0;
        if fails {
            self.failing_writes -= 1;
        }
        let mut write = secure_write(path, contents, mode);
        loop {
            let attempt = match &write.stage {
                WriteStage::Finished(_) => break,
                WriteStage::At(WriteStep::WriteContents) if fails && !self.failing_writes_install => {
                    Err(io(std::io::ErrorKind::Other))
                }
                WriteStage::At(WriteStep::SyncDir) if fails => Err(io(std::io::ErrorKind::Other)),
                WriteStage::At(WriteStep::Rename) => {
                    assert_eq!(write.target, path);
                    self.files
                        .insert(write.target.clone(), write.contents.clone());
                    Ok(())
                }
                WriteStage::At(_) => Ok(()),
            };
            write = write.step(attempt);
        }
        match write.stage {
            WriteStage::Finished(result) => result,
            WriteStage::At(_) => unreachable!(),
        }
    }

    fn finish(&mut self, ops: &HelperOps<MockSshd>, run: OpRun) -> OpRun {
        let mut run = run;
        while let Some(action) = run.action() {
            let event = self.perform(ops, &run, action);
            run = run.step(event);
        }
        run
    }

    fn drive(&mut self, ops: &HelperOps<MockSshd>, run: OpRun) -> Result<Outcome> {
        match self.finish(ops, run).stage {
            Stage::Finished(result) => result,
            _ => unreachable!(),
        }
    }

    fn dispatch(&mut self, ops: &HelperOps<MockSshd>, request: &Request) -> Response {
        match ops.dispatch(request) {
            Dispatch::Replied(response) => response,
            Dispatch::Running(run) => self.finish(ops, run).response().unwrap(),
        }
    }

    fn wrote(&self) -> bool {
        self.performed
            .iter()
            .any(|a| matches!(a, Action::Write(_, _) | Action::Remove(_)))
    }
}

fn config() -> OpsConfig {
    OpsConfig {
        trusted_ca_path: "/root/etc/ssh/mayfly/trusted_user_ca_keys".to_string(),
        dropin_path: "/root/etc/ssh/sshd_config.d/90-mayfly.conf".to_string(),
        main_sshd_config: "/root/etc/ssh/sshd_config".to_string(),
    }
}

fn ops(sshd: MockSshd) -> HelperOps<MockSshd> {
    HelperOps::new(config(), sshd)
}

/// A structurally valid `ssh-ed25519` line. Validation is structural only
/// (algorithm allow-list + base64 shape), so this need not be a real key.
fn valid_ca_keys() -> String {
    format!("ssh-ed25519 {}\n", "A".repeat(68))
}

#[test]
fn ensure_directories_creates_managed_dirs() {
    let mut h = Host::new();
    let ops = ops(MockSshd::healthy());
    h.drive(&ops, ops.ensure_directories()).unwrap();
    assert!(h.dirs.contains("/root/etc/ssh/mayfly"));
    assert!(h.dirs.contains("/root/etc/ssh/sshd_config.d"));
}

#[test]
fn apply_writes_file_and_reports_applied() {
    let mut h = Host::new();
    let content = valid_ca_keys();
    let ops = ops(MockSshd::healthy());
    let outcome = h.drive(&ops, ops.apply_trusted_ca_keys(&content)).unwrap();
    assert_eq!(outcome, Outcome::Applied);
    assert_eq!(h.files[&config().trusted_ca_path], content.as_bytes());
}

#[test]
fn apply_is_idempotent_for_identical_content() {
    let mut h = Host::new();
    let content = valid_ca_keys();
    let sshd = MockSshd::healthy();
    let ops = ops(sshd.clone());
    h.drive(&ops, ops.apply_trusted_ca_keys(&content)).unwrap();
    let again = h.drive(&ops, ops.apply_trusted_ca_keys(&content)).unwrap();
    assert_eq!(again, Outcome::NotModified);
    // Only the first apply triggered a reload.
    assert_eq!(sshd.reloads(), 1);
}

#[test]
fn apply_rolls_back_on_validation_failure() {
    let mut h = Host::new();
    h.files
        .insert(config().trusted_ca_path, b"PREVIOUS\n".to_vec());

    let content = valid_ca_keys();
    let ops = ops(MockSshd::validate_fails_once());
    let err = h
        .drive(&ops, ops.apply_trusted_ca_keys(&content))
        .unwrap_err();
    assert!(matches!(err, Error::SshdValidationFailed));
    // The previous file was restored.
    assert_eq!(h.files[&config().trusted_ca_path], b"PREVIOUS\n");
}

#[test]
fn apply_rejects_unparseable_content_before_writing() {
    let mut h = Host::new();
    let ops = ops(MockSshd::healthy());
    let err = h
        .drive(
            &ops,
            ops.apply_trusted_ca_keys("ssh-dss AAAAB3NzaC1kc3M= bad-algo\n"),
        )
        .unwrap_err();
    assert!(matches!(err, Error::InvalidTrustedCa(_)));
    assert!(!h.files.contains_key(&config().trusted_ca_path));
    assert!(h.performed.is_empty());
}

#[test]
fn apply_rejects_symlinked_target() {
    let mut h = Host::new();
    h.files.insert(config().trusted_ca_path, b"x".to_vec());
    h.metas.insert(
        config().trusted_ca_path,
        FileMeta {
            kind: FileKind::Symlink,
            uid: h.owner,
            mode: 0o777,
        },
    );

    let ops = ops(MockSshd::healthy());
    let err = h
        .drive(&ops, ops.apply_trusted_ca_keys(&valid_ca_keys()))
        .unwrap_err();
    assert!(matches!(err, Error::UnexpectedSymlink));
}

#[test]
fn install_dropin_writes_and_is_idempotent() {
    let mut h = Host::new();
    h.write_main_config_with_include();
    let ops = ops(MockSshd::healthy());

    assert_eq!(
        h.drive(&ops, ops.install_sshd_dropin()).unwrap(),
        Outcome::Success
    );
    let body = String::from_utf8(h.files[&config().dropin_path].clone()).unwrap();
    assert!(body.contains("TrustedUserCAKeys"));

    // Second call: drop-in already current.
    assert_eq!(
        h.drive(&ops, ops.install_sshd_dropin()).unwrap(),
        Outcome::NotModified
    );
}

#[test]
fn install_dropin_fails_when_include_missing() {
    let mut h = Host::new();
    h.files
        .insert(config().main_sshd_config, b"Port 22\n".to_vec());

    let ops = ops(MockSshd::healthy());
    assert!(matches!(
        h.drive(&ops, ops.install_sshd_dropin()).unwrap_err(),
        Error::SshdValidationFailed
    ));
    assert!(!h.files.contains_key(&config().dropin_path));
}

#[test]
fn verify_state_checks_files_and_sshd() {
    let mut h = Host::new();
    let ops = ops(MockSshd::healthy());
    h.drive(&ops, ops.apply_trusted_ca_keys(&valid_ca_keys()))
        .unwrap();
    h.drive(&ops, ops.verify_state()).unwrap();
}

#[test]
fn dispatch_ping_returns_version() {
    let mut h = Host::new();
    let ops = ops(MockSshd::healthy());
    let resp = h.dispatch(&ops, &Request::new("tok", Operation::Ping));
    assert!(resp.ok);
    assert_eq!(resp.helper_version.as_deref(), Some(HELPER_VERSION));
}

#[test]
fn dispatch_apply_without_content_fails() {
    let mut h = Host::new();
    let ops = ops(MockSshd::healthy());
    let resp = h.dispatch(&ops, &Request::new("tok", Operation::ApplyTrustedCaKeys));
    assert!(!resp.ok);
    assert_eq!(resp.outcome, Outcome::RolledBack);
}

#[test]
fn dispatch_apply_maps_failure_to_rolled_back_response() {
    let mut h = Host::new();
    let ops = ops(MockSshd::validate_fails_once());
    let resp = h.dispatch(&ops, &Request::apply("tok", &valid_ca_keys()));
    assert!(!resp.ok);
    assert_eq!(resp.outcome, Outcome::RolledBack);
    // Detail is the fixed, path-free error message.
    assert_eq!(
        resp.detail.as_deref(),
        Some("sshd configuration validation failed")
    );
}

// --- Rollback ---------------------------------------------------------------

#[test]
fn rollback_removes_a_file_that_was_not_there() {
    let mut h = Host::new();
    let sshd = MockSshd::reload_fails_once();
    let ops = ops(sshd.clone());
    let err = h
        .drive(&ops, ops.apply_trusted_ca_keys(&valid_ca_keys()))
        .unwrap_err();
    assert!(matches!(err, Error::SshdInactive));
    assert!(!h.files.contains_key(&config().trusted_ca_path));
    // Once for the new file, once for the restored state.
    assert_eq!(sshd.validates(), 2);
    assert_eq!(sshd.reloads(), 2);
}

#[test]
fn rollback_follows_a_failed_write() {
    for installs in [false, true] {
        let mut h = Host::new();
        h.files
            .insert(config().trusted_ca_path, b"PREVIOUS\n".to_vec());
        h.failing_writes = 1;
        h.failing_writes_install = installs;
        let sshd = MockSshd::healthy();
        let ops = ops(sshd.clone());
        let err = h
            .drive(&ops, ops.apply_trusted_ca_keys(&valid_ca_keys()))
            .unwrap_err();
        assert!(matches!(err, Error::Io(_)));
        assert_eq!(h.files[&config().trusted_ca_path], b"PREVIOUS\n");
        assert_eq!(sshd.reloads(), 1);
    }
}

#[test]
fn failed_restoration_keeps_the_original_error() {
    let mut h = Host::new();
    h.unremovable = true;
    let sshd = MockSshd::never_active();
    let ops = ops(sshd.clone());
    let err = h
        .drive(&ops, ops.apply_trusted_ca_keys(&valid_ca_keys()))
        .unwrap_err();
    assert!(matches!(err, Error::SshdInactive));
    // Nothing is asked of sshd after a failed restoration.
    assert_eq!(sshd.reloads(), 1);
    assert_eq!(
        h.performed.last(),
        Some(&Action::Remove(ManagedFile::TrustedCa))
    );
    assert_eq!(h.files[&config().trusted_ca_path], valid_ca_keys().as_bytes());
}

#[test]
fn unhealthy_sshd_after_rollback_keeps_the_original_error() {
    let mut h = Host::new();
    h.files
        .insert(config().trusted_ca_path, b"PREVIOUS\n".to_vec());
    let sshd = MockSshd::never_active();
    let ops = ops(sshd.clone());
    let err = h
        .drive(&ops, ops.apply_trusted_ca_keys(&valid_ca_keys()))
        .unwrap_err();
    assert!(matches!(err, Error::SshdInactive));
    assert_eq!(h.files[&config().trusted_ca_path], b"PREVIOUS\n");
    assert_eq!(sshd.reloads(), 2);
}

#[test]
fn rollback_restores_bytes_that_are_no_text() {
    let mut h = Host::new();
    h.files
        .insert(config().trusted_ca_path, vec![0xff, 0x00, 0xfe]);
    let ops = ops(MockSshd::validate_fails_once());
    h.drive(&ops, ops.apply_trusted_ca_keys(&valid_ca_keys()))
        .unwrap_err();
    assert_eq!(h.files[&config().trusted_ca_path], vec![0xff, 0x00, 0xfe]);
}

#[test]
fn unreadable_target_is_left_alone() {
    let ops = ops(MockSshd::healthy());
    let mut run = ops.apply_trusted_ca_keys(&valid_ca_keys());
    let mut h = Host::new();
    while let Some(action) = run.action() {
        let event = match action {
            Action::Read(_) => {
                Event::Contents(Attempt::Failed(io(std::io::ErrorKind::PermissionDenied)))
            }
            _ => h.perform(&ops, &run, action),
        };
        run = run.step(event);
    }
    assert!(matches!(run.stage, Stage::Finished(Err(Error::Io(_)))));
    assert!(!h.wrote());
}

// --- Order of events --------------------------------------------------------

#[test]
fn apply_performs_the_workflow_in_order() {
    let mut h = Host::new();
    let ops = ops(MockSshd::healthy());
    h.drive(&ops, ops.apply_trusted_ca_keys(&valid_ca_keys()))
        .unwrap();
    let ca = ManagedDir::TrustedCa;
    let dropin = ManagedDir::Dropin;
    assert_eq!(
        h.performed,
        vec![
            Action::DirExists(ca),
            Action::CreateDirs(ca),
            Action::LstatDir(ca),
            Action::SetDirMode(ca, 0o755),
            Action::DirExists(dropin),
            Action::CreateDirs(dropin),
            Action::LstatDir(dropin),
            Action::SetDirMode(dropin, 0o755),
            Action::Lstat(ManagedFile::TrustedCa),
            Action::Read(ManagedFile::TrustedCa),
            Action::Write(ManagedFile::TrustedCa, 0o644),
            Action::Sshd(SshdCheck::ValidateConfig),
            Action::Sshd(SshdCheck::Reload),
            Action::Sshd(SshdCheck::IsActive),
        ]
    );
}

#[test]
fn current_content_needs_no_write_and_no_sshd() {
    let mut h = Host::new();
    h.files
        .insert(config().trusted_ca_path, valid_ca_keys().into_bytes());
    let sshd = MockSshd::healthy();
    let ops = ops(sshd.clone());
    assert_eq!(
        h.drive(&ops, ops.apply_trusted_ca_keys(&valid_ca_keys()))
            .unwrap(),
        Outcome::NotModified
    );
    assert!(!h.wrote());
    assert_eq!(sshd.validates(), 0);
}

#[test]
fn verification_never_reloads_or_writes() {
    let mut h = Host::new();
    let sshd = MockSshd::healthy();
    let ops = ops(sshd.clone());
    assert_eq!(
        h.drive(&ops, ops.verify_state()).unwrap(),
        Outcome::Success
    );
    assert_eq!(
        h.performed,
        vec![
            Action::Read(ManagedFile::Dropin),
            Action::Read(ManagedFile::TrustedCa),
            Action::Sshd(SshdCheck::ValidateConfig),
            Action::Sshd(SshdCheck::IsActive),
        ]
    );
    assert_eq!(sshd.reloads(), 0);
}

#[test]
fn stray_events_are_ignored() {
    let ops = ops(MockSshd::healthy());
    let run = ops.ensure_directories();
    let before = run.action();
    let run = run.step(Event::Checked(Ok(())));
    assert_eq!(run.action(), before);
    assert!(run.result().is_none());
    assert!(run.response().is_none());
}

// --- Directories and files that are not safe --------------------------------

#[test]
fn symlinked_directory_is_refused() {
    let mut h = Host::new();
    h.dirs.insert("/root/etc/ssh/mayfly".to_string());
    h.metas.insert(
        "/root/etc/ssh/mayfly".to_string(),
        FileMeta {
            kind: FileKind::Symlink,
            uid: h.owner,
            mode: 0o777,
        },
    );
    let ops = ops(MockSshd::healthy());
    assert!(matches!(
        h.drive(&ops, ops.ensure_directories()).unwrap_err(),
        Error::UnexpectedSymlink
    ));
}

#[test]
fn foreign_directory_is_refused() {
    let mut h = Host::new();
    h.owner = 1234;
    let ops = ops(MockSshd::healthy()).with_owner(0);
    assert!(matches!(
        h.drive(&ops, ops.ensure_directories()).unwrap_err(),
        Error::InsecureOwnership
    ));
    assert!(matches!(
        h.drive(&ops, ops.apply_trusted_ca_keys(&valid_ca_keys()))
            .unwrap_err(),
        Error::InsecureOwnership
    ));
    assert!(!h.wrote());
}

#[test]
fn root_owned_files_are_safe_whoever_runs_the_helper() {
    let mut h = Host::new();
    h.write_main_config_with_include();
    h.owner = 0;
    let ops = ops(MockSshd::healthy()).with_owner(1000);
    h.drive(&ops, ops.ensure_directories()).unwrap();
    h.drive(&ops, ops.install_sshd_dropin()).unwrap();
    h.drive(&ops, ops.apply_trusted_ca_keys(&valid_ca_keys()))
        .unwrap();
    h.drive(&ops, ops.verify_state()).unwrap();
}

#[test]
fn verify_state_rejects_unsafe_files() {
    let sshd = MockSshd::healthy();
    let ops = ops(sshd.clone()).with_owner(0);
    let unsafe_metas = [
        (FileKind::Symlink, 0, 0o777, "unexpected symlink"),
        (FileKind::Other, 0, 0o664, "insecure permissions"),
        (FileKind::Other, 9, 0o664, "insecure permissions"),
        (FileKind::Other, 9, 0o644, "insecure ownership"),
    ];
    for (kind, uid, mode, why) in unsafe_metas {
        let mut h = Host::new();
        h.files
            .insert(config().trusted_ca_path, valid_ca_keys().into_bytes());
        h.metas
            .insert(config().trusted_ca_path, FileMeta { kind, uid, mode });
        let err = h.drive(&ops, ops.verify_state()).unwrap_err();
        assert!(err.to_string().ends_with(why));
    }
    assert_eq!(sshd.validates(), 0);
}

#[test]
fn verify_state_rejects_a_drifted_dropin() {
    let ops = ops(MockSshd::healthy());
    let mut h = Host::new();
    h.files
        .insert(config().dropin_path, b"TrustedUserCAKeys /other\n".to_vec());
    assert!(matches!(
        h.drive(&ops, ops.verify_state()).unwrap_err(),
        Error::SshdValidationFailed
    ));
    h.files.insert(config().dropin_path, vec![0xff]);
    assert!(matches!(
        h.drive(&ops, ops.verify_state()).unwrap_err(),
        Error::HelperProtocol
    ));
    // A difference in trailing newlines is no drift.
    let body = render_dropin(&config().trusted_ca_path);
    for tail in ["", "\n", "\n\n"] {
        h.files.insert(
            config().dropin_path,
            format!("{}{tail}", body.trim_end()).into_bytes(),
        );
        h.drive(&ops, ops.verify_state()).unwrap();
    }
}

#[test]
fn verify_state_reports_unhealthy_sshd() {
    let mut h = Host::new();
    let failing = ops(MockSshd::validate_fails_once());
    assert!(matches!(
        h.drive(&failing, failing.verify_state()).unwrap_err(),
        Error::SshdValidationFailed
    ));
    let inactive = ops(MockSshd::never_active());
    assert!(matches!(
        h.drive(&inactive, inactive.verify_state()).unwrap_err(),
        Error::SshdInactive
    ));
}

// --- Drop-in ----------------------------------------------------------------

#[test]
fn missing_main_config_is_a_validation_failure() {
    let mut h = Host::new();
    let ops = ops(MockSshd::healthy());
    assert!(matches!(
        h.drive(&ops, ops.install_sshd_dropin()).unwrap_err(),
        Error::SshdValidationFailed
    ));
    h.files.insert(config().main_sshd_config, vec![0xc3, 0x28]);
    assert!(matches!(
        h.drive(&ops, ops.install_sshd_dropin()).unwrap_err(),
        Error::HelperProtocol
    ));
}

#[test]
fn install_replaces_a_drifted_dropin() {
    let mut h = Host::new();
    h.write_main_config_with_include();
    h.files.insert(config().dropin_path, b"# old\n".to_vec());
    let sshd = MockSshd::healthy();
    let ops = ops(sshd.clone());
    h.drive(&ops, ops.install_sshd_dropin()).unwrap();
    assert_eq!(
        h.files[&config().dropin_path],
        render_dropin(&config().trusted_ca_path).as_bytes()
    );
    assert_eq!(sshd.reloads(), 1);
}

#[test]
fn failed_install_reports_unhealthy() {
    let mut h = Host::new();
    h.write_main_config_with_include();
    let ops = ops(MockSshd::validate_fails_once());
    let resp = h.dispatch(&ops, &Request::new("tok", Operation::InstallSshdDropin));
    assert!(!resp.ok);
    assert_eq!(resp.outcome, Outcome::Unhealthy);
    assert_eq!(
        resp.detail.as_deref(),
        Some("sshd configuration validation failed")
    );
}

// --- Dispatch ---------------------------------------------------------------

#[test]
fn dispatch_reports_each_outcome() {
    let mut h = Host::new();
    h.write_main_config_with_include();
    let ops = ops(MockSshd::healthy());
    let apply = Request::apply("tok", &valid_ca_keys());
    let install = Request::new("tok", Operation::InstallSshdDropin);
    assert_eq!(h.dispatch(&ops, &apply).outcome, Outcome::Applied);
    assert_eq!(h.dispatch(&ops, &apply).outcome, Outcome::NotModified);
    assert_eq!(h.dispatch(&ops, &install).outcome, Outcome::Success);
    assert_eq!(h.dispatch(&ops, &install).outcome, Outcome::NotModified);
    for op in [Operation::EnsureDirectories, Operation::VerifyState] {
        let resp = h.dispatch(&ops, &Request::new("tok", op));
        assert!(resp.ok);
        assert_eq!(resp.outcome, Outcome::Success);
        assert_eq!(resp.detail, None);
    }
}

#[test]
fn missing_content_is_named() {
    let mut h = Host::new();
    let ops = ops(MockSshd::healthy());
    let resp = h.dispatch(&ops, &Request::new("tok", Operation::ApplyTrustedCaKeys));
    assert_eq!(resp.detail.as_deref(), Some("missing content"));
    assert!(h.performed.is_empty());
}

// --- Configuration ----------------------------------------------------------

#[test]
fn ops_config_defaults_and_overrides() {
    let cfg = OpsConfig::from_env(|_| None);
    assert_eq!(cfg.trusted_ca_path, "/etc/ssh/mayfly/trusted_user_ca_keys");
    assert_eq!(cfg.dropin_path, "/etc/ssh/sshd_config.d/90-mayfly.conf");
    assert_eq!(cfg.main_sshd_config, "/etc/ssh/sshd_config");
    let cfg = OpsConfig::from_env(|k| Some(format!("/x/{k}")));
    assert_eq!(cfg.trusted_ca_path, "/x/MAYFLY_HELPER_TRUSTED_CA_PATH");
    assert_eq!(cfg.dropin_path, "/x/MAYFLY_HELPER_DROPIN_PATH");
    assert_eq!(cfg.main_sshd_config, "/x/MAYFLY_HELPER_MAIN_SSHD_CONFIG");
}

#[test]
fn paths_and_directories_come_from_the_configuration() {
    let ops = ops(MockSshd::healthy());
    assert_eq!(
        ops.path_of(ManagedFile::TrustedCa),
        config().trusted_ca_path
    );
    assert_eq!(ops.path_of(ManagedFile::Dropin), config().dropin_path);
    assert_eq!(
        ops.path_of(ManagedFile::MainConfig),
        config().main_sshd_config
    );
    assert_eq!(
        ops.dir_of(ManagedDir::TrustedCa).as_deref(),
        Some("/root/etc/ssh/mayfly")
    );
    assert_eq!(
        ops.dir_of(ManagedDir::Dropin).as_deref(),
        Some("/root/etc/ssh/sshd_config.d")
    );
}

#[test]
fn paths_without_a_directory_skip_it() {
    let ops = HelperOps::new(
        OpsConfig {
            trusted_ca_path: "/".to_string(),
            dropin_path: "/".to_string(),
            main_sshd_config: "/c".to_string(),
        },
        MockSshd::healthy(),
    );
    let run = ops.ensure_directories();
    assert!(matches!(run.result(), Some(Ok(Outcome::Success))));
}

// --- Reading and removing ---------------------------------------------------

#[test]
fn optional_text_is_trimmed_at_its_end() {
    let text = read_optional_string(Attempt::Done(b"  a b \n\n".to_vec())).unwrap();
    assert_eq!(text.as_deref(), Some("  a b"));
    let text = read_optional_string(Attempt::Done("\u{e9}\u{2028}".as_bytes().to_vec())).unwrap();
    assert_eq!(text.as_deref(), Some("\u{e9}"));
    assert!(matches!(
        read_optional_string(Attempt::Done(vec![0xc3])),
        Err(Error::HelperProtocol)
    ));
    assert!(matches!(
        read_optional_string(Attempt::Missing(io(std::io::ErrorKind::NotFound))),
        Ok(None)
    ));
    assert!(matches!(
        read_optional_string(Attempt::Failed(io(std::io::ErrorKind::Other))),
        Err(Error::Io(_))
    ));
}

#[test]
fn removing_a_missing_file_succeeds() {
    assert!(remove_optional(Attempt::Done(())).is_ok());
    assert!(remove_optional(Attempt::Missing(io(std::io::ErrorKind::NotFound))).is_ok());
    assert!(matches!(
        remove_optional(Attempt::Failed(io(std::io::ErrorKind::Other))),
        Err(Error::Io(_))
    ));
}

// --- Bounds -----------------------------------------------------------------

#[test]
fn no_operation_takes_more_than_nineteen_answers() {
    let mut h = Host::new();
    let ops = ops(MockSshd::never_active());
    h.drive(&ops, ops.apply_trusted_ca_keys(&valid_ca_keys()))
        .unwrap_err();
    assert_eq!(h.performed.len(), 18);
    assert!(h.performed.len() <= 19);
}
