//! The privileged operations performed by `mayfly-helper`.
//!
//! Each operation is explicit and narrow — there is no generic filesystem or
//! command facility. All file mutation goes through the audited
//! [`crate::security`] primitives (atomic write, `fsync`, symlink rejection,
//! perm/owner validation), and all `sshd` interaction goes through the injected
//! [`SshdControl`] seam. An operation is started here and carried out step by
//! step as an [`OpRun`].
//!
//! The headline operation, [`HelperOps::apply_trusted_ca_keys`], implements a
//! rollback-safe reload workflow:
//!
//! ```text
//! validate content → write temp → fsync → atomic rename → sshd -t → reload
//!   → verify active → commit            (success)
//!   → on ANY failure: restore previous file → reload → verify  (rollback)
//! ```
//!
//! It never leaves the host with an SSH configuration `sshd` rejected; see
//! [`laws`].

use vstd::prelude::*;

use crate::errors::Result;
use crate::platform;
use crate::protocol::{self, Operation, Outcome, Request, Response};
use crate::security;
use crate::settings;
use crate::ssh::sshd_config;
use crate::sshd_control::{SshdCheck, SshdControl};

pub mod laws;
pub mod requests;
pub mod run;

pub use run::{Action, Event, Goal, ManagedDir, ManagedFile, OpRun, Stage};

verus! {

/// Filesystem locations the helper manages. Defaults match the agent's
/// configuration defaults; they are configurable so container tests can relocate
/// them under a writable prefix.
#[derive(Debug, Clone)]
pub struct OpsConfig {
    /// The managed `TrustedUserCAKeys` file (e.g. `/etc/ssh/mayfly/trusted_user_ca_keys`).
    pub trusted_ca_path: String,
    /// The managed sshd drop-in file (e.g. `/etc/ssh/sshd_config.d/90-mayfly.conf`).
    pub dropin_path: String,
    /// The main sshd config, read only to detect a missing `Include`.
    pub main_sshd_config: String,
}

impl Default for OpsConfig {
    fn default() -> (r: Self)
        ensures
            r.trusted_ca_path@ == "/etc/ssh/mayfly/trusted_user_ca_keys"@,
            r.dropin_path@ == "/etc/ssh/sshd_config.d/90-mayfly.conf"@,
            r.main_sshd_config@ == "/etc/ssh/sshd_config"@,
    {
        OpsConfig {
            trusted_ca_path: "/etc/ssh/mayfly/trusted_user_ca_keys".to_owned(),
            dropin_path: "/etc/ssh/sshd_config.d/90-mayfly.conf".to_owned(),
            main_sshd_config: "/etc/ssh/sshd_config".to_owned(),
        }
    }
}

impl OpsConfig {
    /// Build from `MAYFLY_HELPER_*` environment variables, falling back to
    /// [`Default`] for each one that is unset.
    pub fn from_env<F>(get_env: F) -> (r: Self) where F: Fn(&str) -> Option<String>
        requires
            call_requires(get_env, ("MAYFLY_HELPER_TRUSTED_CA_PATH",)),
            call_requires(get_env, ("MAYFLY_HELPER_DROPIN_PATH",)),
            call_requires(get_env, ("MAYFLY_HELPER_MAIN_SSHD_CONFIG",)),
        ensures
            settings::configured(
                get_env,
                "MAYFLY_HELPER_TRUSTED_CA_PATH",
                "/etc/ssh/mayfly/trusted_user_ca_keys"@,
                r.trusted_ca_path@,
            ),
            settings::configured(
                get_env,
                "MAYFLY_HELPER_DROPIN_PATH",
                "/etc/ssh/sshd_config.d/90-mayfly.conf"@,
                r.dropin_path@,
            ),
            settings::configured(
                get_env,
                "MAYFLY_HELPER_MAIN_SSHD_CONFIG",
                "/etc/ssh/sshd_config"@,
                r.main_sshd_config@,
            ),
    {
        let default = Self::default();
        OpsConfig {
            trusted_ca_path: settings::setting(
                &get_env,
                "MAYFLY_HELPER_TRUSTED_CA_PATH",
                default.trusted_ca_path.as_str(),
            ),
            dropin_path: settings::setting(
                &get_env,
                "MAYFLY_HELPER_DROPIN_PATH",
                default.dropin_path.as_str(),
            ),
            main_sshd_config: settings::setting(
                &get_env,
                "MAYFLY_HELPER_MAIN_SSHD_CONFIG",
                default.main_sshd_config.as_str(),
            ),
        }
    }
}

/// The privileged operation executor.
pub struct HelperOps<C: SshdControl> {
    config: OpsConfig,
    sshd: C,
    owner: u32,
}

/// What becomes of a request.
#[derive(Debug)]
pub enum Dispatch {
    /// It was answered at once.
    Replied(Response),
    /// It started an operation, whose end gives the answer
    /// ([`OpRun::response`]).
    Running(OpRun),
}

/// What a request's operation is answered with at once, if it is.
pub open spec fn immediate_reply(request: Request) -> Option<protocol::Reply> {
    match (request.op, request.content) {
        (Operation::Ping, _) => Some(protocol::Reply::pong()),
        (Operation::ApplyTrustedCaKeys, None) => Some(
            protocol::Reply::failure(Outcome::RolledBack, "missing content"@),
        ),
        _ => None,
    }
}

impl<C: SshdControl> HelperOps<C> {
    /// The configuration in force.
    pub closed spec fn config(self) -> OpsConfig {
        self.config
    }

    /// The `sshd` control backend.
    pub closed spec fn sshd(self) -> C {
        self.sshd
    }

    /// The uid that, or else root's, must own what the helper manages.
    pub closed spec fn owner(self) -> u32 {
        self.owner
    }

    /// Construct with explicit configuration and an `sshd` control backend. What
    /// the helper manages must belong to root or to the user it runs as, which is
    /// root except in development; see [`HelperOps::with_owner`].
    pub fn new(config: OpsConfig, sshd: C) -> (r: Self)
        ensures
            r.config() == config,
            r.sshd() == sshd,
            call_ensures(platform::effective_uid, (), r.owner()),
    {
        let owner: u32 = platform::effective_uid();
        HelperOps { config, sshd, owner }
    }

    /// Set the uid that, or else root's, must own what the helper manages.
    pub fn with_owner(self, owner: u32) -> (r: Self)
        ensures
            r.config() == self.config(),
            r.sshd() == self.sshd(),
            r.owner() == owner,
    {
        HelperOps { config: self.config, sshd: self.sshd, owner }
    }

    /// The path of a file.
    pub open spec fn path(self, file: ManagedFile) -> Seq<char> {
        match file {
            ManagedFile::TrustedCa => self.config().trusted_ca_path@,
            ManagedFile::Dropin => self.config().dropin_path@,
            ManagedFile::MainConfig => self.config().main_sshd_config@,
        }
    }

    /// The path of a file.
    pub fn path_of(&self, file: ManagedFile) -> (r: &str)
        ensures
            r@ == self.path(file),
    {
        match file {
            ManagedFile::TrustedCa => self.config.trusted_ca_path.as_str(),
            ManagedFile::Dropin => self.config.dropin_path.as_str(),
            ManagedFile::MainConfig => self.config.main_sshd_config.as_str(),
        }
    }

    /// The path of a directory, if its file's path has one.
    pub open spec fn dir(self, dir: ManagedDir) -> Option<Seq<char>> {
        match dir {
            ManagedDir::TrustedCa => security::path_parent(self.config().trusted_ca_path@),
            ManagedDir::Dropin => security::path_parent(self.config().dropin_path@),
        }
    }

    /// The path of a directory, if its file's path has one.
    pub fn dir_of(&self, dir: ManagedDir) -> (r: Option<String>)
        ensures
            protocol::chars_of(r) == self.dir(dir),
    {
        match dir {
            ManagedDir::TrustedCa => security::parent(self.config.trusted_ca_path.as_str()),
            ManagedDir::Dropin => security::parent(self.config.dropin_path.as_str()),
        }
    }

    /// Ask something of `sshd`, through the control backend.
    pub fn check(&self, check: SshdCheck) -> (r: Result<()>)
        ensures
            match check {
                SshdCheck::ValidateConfig => call_ensures(C::validate_config, (&self.sshd(),), r),
                SshdCheck::Reload => call_ensures(C::reload, (&self.sshd(),), r),
                SshdCheck::IsActive => call_ensures(C::is_active, (&self.sshd(),), r),
            },
    {
        match check {
            SshdCheck::ValidateConfig => self.sshd.validate_config(),
            SshdCheck::Reload => self.sshd.reload(),
            SshdCheck::IsActive => self.sshd.is_active(),
        }
    }

    /// Whether `run` is a run of these operations that has just begun.
    pub open spec fn begins(self, run: OpRun, goal: Goal, body: Seq<char>, stage: Stage) -> bool {
        run.begins(
            goal,
            self.owner(),
            self.dir(ManagedDir::TrustedCa) is Some,
            self.dir(ManagedDir::Dropin) is Some,
            body,
            stage,
        )
    }

    /// The stage at which a run of these operations begins.
    pub open spec fn first_stage(self, goal: Goal) -> Stage {
        run::first_stage(
            goal,
            self.dir(ManagedDir::TrustedCa) is Some,
            self.dir(ManagedDir::Dropin) is Some,
        )
    }

    /// Begin a run with the given goal and body.
    fn begin(&self, goal: Goal, body: String) -> (r: OpRun)
        ensures
            self.begins(r, goal, body@, self.first_stage(goal)),
    {
        OpRun::begin(
            goal,
            self.owner,
            self.dir_of(ManagedDir::TrustedCa).is_some(),
            self.dir_of(ManagedDir::Dropin).is_some(),
            body,
        )
    }

    /// Ensure the managed directories exist with safe ownership/permissions.
    pub fn ensure_directories(&self) -> (r: OpRun)
        ensures
            self.begins(
                r,
                Goal::EnsureDirectories,
                Seq::empty(),
                self.first_stage(Goal::EnsureDirectories),
            ),
    {
        let body = String::new();
        assert(body@ == Seq::<char>::empty());
        self.begin(Goal::EnsureDirectories, body)
    }

    /// Install or refresh the sshd drop-in, then validate and reload `sshd`.
    ///
    /// Ends with [`Outcome::NotModified`] when the on-disk drop-in already
    /// matches. Reports (but does not auto-fix) a missing `Include` of the
    /// drop-in directory: without it, the drop-in would be inert, which we must
    /// not silently accept.
    pub fn install_sshd_dropin(&self) -> (r: OpRun)
        ensures
            self.begins(
                r,
                Goal::InstallSshdDropin,
                sshd_config::dropin(self.config().trusted_ca_path@),
                self.first_stage(Goal::InstallSshdDropin),
            ),
    {
        let body = sshd_config::render_dropin(self.config.trusted_ca_path.as_str());
        self.begin(Goal::InstallSshdDropin, body)
    }

    /// Atomically replace `TrustedUserCAKeys` and reload `sshd`, rolling back to
    /// the previous file on any failure.
    pub fn apply_trusted_ca_keys(&self, content: &str) -> (r: OpRun)
        ensures
            self.begins(
                r,
                Goal::ApplyTrustedCaKeys,
                content@,
                OpRun::apply_stage(
                    self.dir(ManagedDir::TrustedCa) is Some,
                    self.dir(ManagedDir::Dropin) is Some,
                    content@,
                ),
            ),
    {
        OpRun::begin_apply(
            self.owner,
            self.dir_of(ManagedDir::TrustedCa).is_some(),
            self.dir_of(ManagedDir::Dropin).is_some(),
            content,
        )
    }

    /// Verify the managed files' ownership/permissions, that an installed drop-in
    /// is current, and that `sshd` is healthy.
    pub fn verify_state(&self) -> (r: OpRun)
        ensures
            self.begins(
                r,
                Goal::VerifyState,
                sshd_config::dropin(self.config().trusted_ca_path@),
                Stage::VerifyReadDropin,
            ),
    {
        let body = sshd_config::render_dropin(self.config.trusted_ca_path.as_str());
        self.begin(Goal::VerifyState, body)
    }

    /// Whether `run` is the run that a request starts.
    pub open spec fn started_by(self, run: OpRun, request: Request) -> bool {
        match (request.op, request.content) {
            (Operation::EnsureDirectories, _) => self.begins(
                run,
                Goal::EnsureDirectories,
                Seq::empty(),
                self.first_stage(Goal::EnsureDirectories),
            ),
            (Operation::InstallSshdDropin, _) => self.begins(
                run,
                Goal::InstallSshdDropin,
                sshd_config::dropin(self.config().trusted_ca_path@),
                self.first_stage(Goal::InstallSshdDropin),
            ),
            (Operation::ApplyTrustedCaKeys, Some(content)) => self.begins(
                run,
                Goal::ApplyTrustedCaKeys,
                content@,
                OpRun::apply_stage(
                    self.dir(ManagedDir::TrustedCa) is Some,
                    self.dir(ManagedDir::Dropin) is Some,
                    content@,
                ),
            ),
            (Operation::VerifyState, _) => self.begins(
                run,
                Goal::VerifyState,
                sshd_config::dropin(self.config().trusted_ca_path@),
                Stage::VerifyReadDropin,
            ),
            _ => false,
        }
    }

    /// Whether `d` is what becomes of a request.
    pub open spec fn dispatched(self, request: Request, d: Dispatch) -> bool {
        match immediate_reply(request) {
            Some(reply) => d matches Dispatch::Replied(response) && response@ == reply,
            None => d matches Dispatch::Running(run) && self.started_by(run, request),
        }
    }

    /// Execute a request: answer it, or start the operation that will. Every
    /// failure is mapped to a fixed, non-sensitive [`Response`] so the server can
    /// always reply. Detail strings come from [`crate::Error`]'s text, which is
    /// guaranteed path- and secret-free.
    pub fn dispatch(&self, request: &Request) -> (r: Dispatch)
        ensures
            self.dispatched(*request, r),
    {
        match request.op {
            Operation::Ping => Dispatch::Replied(Response::pong()),
            Operation::EnsureDirectories => Dispatch::Running(self.ensure_directories()),
            Operation::InstallSshdDropin => Dispatch::Running(self.install_sshd_dropin()),
            Operation::ApplyTrustedCaKeys => match &request.content {
                None => Dispatch::Replied(
                    Response::failure(Outcome::RolledBack, "missing content"),
                ),
                Some(content) => Dispatch::Running(self.apply_trusted_ca_keys(content.as_str())),
            },
            Operation::VerifyState => Dispatch::Running(self.verify_state()),
        }
    }
}

/// Each managed path is what the environment says, or the default where it says
/// nothing.
pub proof fn environment_configures_the_files<F: Fn(&str) -> Option<String>>(
    get_env: F,
    found: spec_fn(Seq<char>) -> Option<Seq<char>>,
    config: OpsConfig,
    default: OpsConfig,
)
    requires
        settings::reads_as(get_env, "MAYFLY_HELPER_TRUSTED_CA_PATH", found),
        settings::reads_as(get_env, "MAYFLY_HELPER_DROPIN_PATH", found),
        settings::reads_as(get_env, "MAYFLY_HELPER_MAIN_SSHD_CONFIG", found),
        call_ensures(OpsConfig::from_env::<F>, (get_env,), config),
        call_ensures(OpsConfig::default, (), default),
    ensures
        config.trusted_ca_path@ == match found("MAYFLY_HELPER_TRUSTED_CA_PATH"@) {
            Some(value) => value,
            None => "/etc/ssh/mayfly/trusted_user_ca_keys"@,
        },
        config.dropin_path@ == match found("MAYFLY_HELPER_DROPIN_PATH"@) {
            Some(value) => value,
            None => "/etc/ssh/sshd_config.d/90-mayfly.conf"@,
        },
        config.main_sshd_config@ == match found("MAYFLY_HELPER_MAIN_SSHD_CONFIG"@) {
            Some(value) => value,
            None => "/etc/ssh/sshd_config"@,
        },
        default.trusted_ca_path@ == "/etc/ssh/mayfly/trusted_user_ca_keys"@,
        default.dropin_path@ == "/etc/ssh/sshd_config.d/90-mayfly.conf"@,
        default.main_sshd_config@ == "/etc/ssh/sshd_config"@,
{
}

} // verus!
