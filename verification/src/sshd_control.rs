//! The `sshd` control seam — the one place that decides which external programs
//! are executed.
//!
//! Validating and reloading `sshd` cannot be done in pure Rust; it requires
//! running `sshd -t` and a service-manager reload. All execution goes through a
//! *fixed allow-list* of absolute binaries with fixed arguments — never `sh -c`,
//! never caller-controlled arguments ([`SystemSshdControl::command`]) — and is
//! hidden behind the [`SshdControl`] trait, so that the privileged
//! [`crate::ops`] can be driven with any stand-in.

use vstd::prelude::*;

use crate::errors::{Error, Result};
use crate::settings;

verus! {

/// Abstraction over validating, reloading, and probing `sshd`.
pub trait SshdControl: Send + Sync {
    /// Validate the effective `sshd` configuration (`sshd -t`).
    ///
    /// # Errors
    ///
    /// Returns [`Error::SshdValidationFailed`] if `sshd` rejects the config or
    /// the validator could not be run.
    fn validate_config(&self) -> Result<()>;

    /// Reload `sshd` so a new configuration takes effect.
    ///
    /// # Errors
    ///
    /// Returns [`Error::SshdInactive`] if the reload command fails.
    fn reload(&self) -> Result<()>;

    /// Verify `sshd` is active.
    ///
    /// # Errors
    ///
    /// Returns [`Error::SshdInactive`] if the service is not active or the query
    /// fails.
    fn is_active(&self) -> Result<()>;
}

/// One of the three things that may be asked of `sshd`.
#[derive(Debug, Clone, Copy, PartialEq, Eq, Structural)]
pub enum SshdCheck {
    /// Validate the effective configuration.
    ValidateConfig,
    /// Reload, so that a new configuration takes effect.
    Reload,
    /// Verify that the service is active.
    IsActive,
}

/// Configuration for [`SystemSshdControl`]: the absolute binary paths and the
/// service unit name. Defaults match a standard Debian/Ubuntu host; they are
/// configurable so container integration tests can point at the binaries and
/// service present in the test image.
#[derive(Debug, Clone)]
pub struct SshdControlConfig {
    /// Absolute path to the `sshd` binary (used as `<sshd> -t`).
    pub sshd_binary: String,
    /// Absolute path to `systemctl`.
    pub systemctl_binary: String,
    /// The `sshd` service/unit name (e.g. `ssh` or `sshd`).
    pub service_name: String,
}

impl Default for SshdControlConfig {
    fn default() -> (r: Self)
        ensures
            r.sshd_binary@ == "/usr/sbin/sshd"@,
            r.systemctl_binary@ == "/usr/bin/systemctl"@,
            r.service_name@ == "ssh"@,
    {
        SshdControlConfig {
            sshd_binary: "/usr/sbin/sshd".to_owned(),
            systemctl_binary: "/usr/bin/systemctl".to_owned(),
            service_name: "ssh".to_owned(),
        }
    }
}

impl SshdControlConfig {
    /// Build from `MAYFLY_HELPER_*` environment variables, falling back to
    /// [`Default`] for each one that is unset.
    pub fn from_env<F>(get_env: F) -> (r: Self) where F: Fn(&str) -> Option<String>
        requires
            call_requires(get_env, ("MAYFLY_HELPER_SSHD_BINARY",)),
            call_requires(get_env, ("MAYFLY_HELPER_SYSTEMCTL_BINARY",)),
            call_requires(get_env, ("MAYFLY_HELPER_SERVICE_NAME",)),
        ensures
            settings::configured(get_env, "MAYFLY_HELPER_SSHD_BINARY", "/usr/sbin/sshd"@, r.sshd_binary@),
            settings::configured(
                get_env,
                "MAYFLY_HELPER_SYSTEMCTL_BINARY",
                "/usr/bin/systemctl"@,
                r.systemctl_binary@,
            ),
            settings::configured(get_env, "MAYFLY_HELPER_SERVICE_NAME", "ssh"@, r.service_name@),
    {
        let default = Self::default();
        SshdControlConfig {
            sshd_binary: settings::setting(
                &get_env,
                "MAYFLY_HELPER_SSHD_BINARY",
                default.sshd_binary.as_str(),
            ),
            systemctl_binary: settings::setting(
                &get_env,
                "MAYFLY_HELPER_SYSTEMCTL_BINARY",
                default.systemctl_binary.as_str(),
            ),
            service_name: settings::setting(
                &get_env,
                "MAYFLY_HELPER_SERVICE_NAME",
                default.service_name.as_str(),
            ),
        }
    }
}

/// A program and its arguments.
#[derive(Debug, Clone, PartialEq, Eq)]
pub struct CommandLine {
    /// Absolute path of the program.
    pub program: String,
    /// Its arguments, in order.
    pub args: Vec<String>,
}

/// The texts of a sequence of strings.
pub open spec fn texts(strings: Seq<String>) -> Seq<Seq<char>> {
    Seq::new(strings.len(), |i: int| strings[i]@)
}

/// What came of running a command.
#[derive(Debug, Clone, Copy, PartialEq, Eq, Structural)]
pub enum Execution {
    /// It ran and exited with success.
    Succeeded,
    /// It ran and reported failure.
    Reported,
    /// It could not be run.
    NotStarted,
}

/// The production control: which fixed-shape command each check runs, and what
/// its exit status means.
///
/// Each check runs exactly one command and inspects only its exit status. No
/// shell is involved and no argument is caller-controlled.
#[derive(Debug, Clone)]
pub struct SystemSshdControl {
    config: SshdControlConfig,
}

impl SystemSshdControl {
    /// The configuration in force.
    pub closed spec fn config(self) -> SshdControlConfig {
        self.config
    }

    /// Construct from explicit configuration.
    pub fn new(config: SshdControlConfig) -> (r: Self)
        ensures
            r.config() == config,
    {
        SystemSshdControl { config }
    }

    /// The program that a check runs.
    pub open spec fn program(self, check: SshdCheck) -> Seq<char> {
        match check {
            SshdCheck::ValidateConfig => self.config().sshd_binary@,
            SshdCheck::Reload => self.config().systemctl_binary@,
            SshdCheck::IsActive => self.config().systemctl_binary@,
        }
    }

    /// The arguments that a check passes to its program.
    pub open spec fn arguments(self, check: SshdCheck) -> Seq<Seq<char>> {
        match check {
            SshdCheck::ValidateConfig => seq!["-t"@],
            SshdCheck::Reload => seq!["reload"@, self.config().service_name@],
            SshdCheck::IsActive => seq!["is-active"@, self.config().service_name@],
        }
    }

    /// The one command that a check runs: `sshd -t` (which validates the
    /// effective configuration, including any drop-ins pulled in via `Include`),
    /// `systemctl reload <service>` or `systemctl is-active <service>`.
    pub fn command(&self, check: SshdCheck) -> (r: CommandLine)
        ensures
            r.program@ == self.program(check),
            texts(r.args@) == self.arguments(check),
    {
        let mut args: Vec<String> = Vec::new();
        let program = match check {
            SshdCheck::ValidateConfig => {
                args.push("-t".to_owned());
                self.config.sshd_binary.clone()
            },
            SshdCheck::Reload => {
                args.push("reload".to_owned());
                args.push(self.config.service_name.clone());
                self.config.systemctl_binary.clone()
            },
            SshdCheck::IsActive => {
                args.push("is-active".to_owned());
                args.push(self.config.service_name.clone());
                self.config.systemctl_binary.clone()
            },
        };
        assert(texts(args@) =~= self.arguments(check));
        CommandLine { program, args }
    }

    /// What came of a check, given what came of its command.
    pub open spec fn check_verdict(check: SshdCheck, execution: Execution) -> Result<()> {
        if execution == Execution::Succeeded {
            Ok(())
        } else if check == SshdCheck::ValidateConfig {
            Err(Error::SshdValidationFailed)
        } else {
            Err(Error::SshdInactive)
        }
    }

    /// The verdict of `sshd -t`.
    ///
    /// # Errors
    ///
    /// Returns [`Error::SshdValidationFailed`] unless the command succeeded.
    pub fn validate_config(&self, execution: Execution) -> (r: Result<()>)
        ensures
            r == Self::check_verdict(SshdCheck::ValidateConfig, execution),
    {
        match execution {
            Execution::Succeeded => Ok(()),
            _ => Err(Error::SshdValidationFailed),
        }
    }

    /// The verdict of `systemctl reload`.
    ///
    /// # Errors
    ///
    /// Returns [`Error::SshdInactive`] unless the command succeeded.
    pub fn reload(&self, execution: Execution) -> (r: Result<()>)
        ensures
            r == Self::check_verdict(SshdCheck::Reload, execution),
    {
        match execution {
            Execution::Succeeded => Ok(()),
            _ => Err(Error::SshdInactive),
        }
    }

    /// The verdict of `systemctl is-active`.
    ///
    /// # Errors
    ///
    /// Returns [`Error::SshdInactive`] unless the command succeeded.
    pub fn is_active(&self, execution: Execution) -> (r: Result<()>)
        ensures
            r == Self::check_verdict(SshdCheck::IsActive, execution),
    {
        match execution {
            Execution::Succeeded => Ok(()),
            _ => Err(Error::SshdInactive),
        }
    }

    /// Whatever is asked, the program is one of the two configured binaries, and
    /// every argument is one of three fixed words or the configured service
    /// name.
    pub proof fn commands_come_from_the_allow_list(self, check: SshdCheck)
        ensures
            self.program(check) == self.config().sshd_binary@ || self.program(check)
                == self.config().systemctl_binary@,
            forall|i: int|
                0 <= i < self.arguments(check).len() ==> {
                    let arg = #[trigger] self.arguments(check)[i];
                    ||| arg == "-t"@
                    ||| arg == "reload"@
                    ||| arg == "is-active"@
                    ||| arg == self.config().service_name@
                },
    {
    }
}

/// The commands, word for word: `sshd -t`, `systemctl reload <service>` and
/// `systemctl is-active <service>`, with the configured programs and service.
pub proof fn commands_are_fixed(
    config: SshdControlConfig,
    control: SystemSshdControl,
    validate: CommandLine,
    reload: CommandLine,
    is_active: CommandLine,
)
    requires
        call_ensures(SystemSshdControl::new, (config,), control),
        call_ensures(SystemSshdControl::command, (&control, SshdCheck::ValidateConfig), validate),
        call_ensures(SystemSshdControl::command, (&control, SshdCheck::Reload), reload),
        call_ensures(SystemSshdControl::command, (&control, SshdCheck::IsActive), is_active),
    ensures
        validate.program@ == config.sshd_binary@,
        validate.args@.len() == 1 && validate.args@[0]@ == "-t"@,
        reload.program@ == config.systemctl_binary@,
        reload.args@.len() == 2 && reload.args@[0]@ == "reload"@ && reload.args@[1]@
            == config.service_name@,
        is_active.program@ == config.systemctl_binary@,
        is_active.args@.len() == 2 && is_active.args@[0]@ == "is-active"@ && is_active.args@[1]@
            == config.service_name@,
{
    assert(texts(validate.args@) == control.arguments(SshdCheck::ValidateConfig));
    assert(texts(reload.args@) == control.arguments(SshdCheck::Reload));
    assert(texts(is_active.args@) == control.arguments(SshdCheck::IsActive));
    assert(texts(validate.args@).len() == 1);
    assert(texts(reload.args@).len() == 2);
    assert(texts(is_active.args@).len() == 2);
    assert(texts(validate.args@)[0] == validate.args@[0]@);
    assert(texts(reload.args@)[0] == reload.args@[0]@);
    assert(texts(reload.args@)[1] == reload.args@[1]@);
    assert(texts(is_active.args@)[0] == is_active.args@[0]@);
    assert(texts(is_active.args@)[1] == is_active.args@[1]@);
}

/// A check passes if and only if its command ran and exited with success; otherwise
/// validation has failed, or `sshd` counts as inactive.
pub proof fn only_successful_commands_pass(
    control: SystemSshdControl,
    execution: Execution,
    validated: Result<()>,
    reloaded: Result<()>,
    active: Result<()>,
)
    requires
        call_ensures(SystemSshdControl::validate_config, (&control, execution), validated),
        call_ensures(SystemSshdControl::reload, (&control, execution), reloaded),
        call_ensures(SystemSshdControl::is_active, (&control, execution), active),
    ensures
        validated is Ok <==> execution == Execution::Succeeded,
        reloaded is Ok <==> execution == Execution::Succeeded,
        active is Ok <==> execution == Execution::Succeeded,
        validated is Err ==> validated == Err::<(), Error>(Error::SshdValidationFailed),
        reloaded is Err ==> reloaded == Err::<(), Error>(Error::SshdInactive),
        active is Err ==> active == Err::<(), Error>(Error::SshdInactive),
{
}

/// Each program and the service are what the environment says, or the defaults
/// where it says nothing.
pub proof fn environment_configures_the_control<F: Fn(&str) -> Option<String>>(
    get_env: F,
    found: spec_fn(Seq<char>) -> Option<Seq<char>>,
    config: SshdControlConfig,
    default: SshdControlConfig,
)
    requires
        settings::reads_as(get_env, "MAYFLY_HELPER_SSHD_BINARY", found),
        settings::reads_as(get_env, "MAYFLY_HELPER_SYSTEMCTL_BINARY", found),
        settings::reads_as(get_env, "MAYFLY_HELPER_SERVICE_NAME", found),
        call_ensures(SshdControlConfig::from_env::<F>, (get_env,), config),
        call_ensures(SshdControlConfig::default, (), default),
    ensures
        config.sshd_binary@ == match found("MAYFLY_HELPER_SSHD_BINARY"@) {
            Some(value) => value,
            None => "/usr/sbin/sshd"@,
        },
        config.systemctl_binary@ == match found("MAYFLY_HELPER_SYSTEMCTL_BINARY"@) {
            Some(value) => value,
            None => "/usr/bin/systemctl"@,
        },
        config.service_name@ == match found("MAYFLY_HELPER_SERVICE_NAME"@) {
            Some(value) => value,
            None => "ssh"@,
        },
        default.sshd_binary@ == "/usr/sbin/sshd"@,
        default.systemctl_binary@ == "/usr/bin/systemctl"@,
        default.service_name@ == "ssh"@,
{
}

} // verus!
