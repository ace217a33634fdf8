//! The `sshd` control seam.

use mayfly_helper::errors::Error;
use mayfly_helper::sshd_control::{Execution, SshdCheck, SshdControlConfig, SystemSshdControl};

fn control_with_missing_binaries() -> SystemSshdControl {
    SystemSshdControl::new(SshdControlConfig {
        sshd_binary: "/nonexistent/sshd".to_string(),
        systemctl_binary: "/nonexistent/systemctl".to_string(),
        service_name: "ssh".to_string(),
    })
}

#[test]
fn validate_config_fails_when_binary_missing() {
    // A missing binary cannot be started.
    assert!(matches!(
        control_with_missing_binaries()
            .validate_config(Execution::NotStarted)
            .unwrap_err(),
        Error::SshdValidationFailed
    ));
}

#[test]
fn reload_and_is_active_fail_when_binary_missing() {
    let c = control_with_missing_binaries();
    assert!(matches!(
        c.reload(Execution::NotStarted).unwrap_err(),
        Error::SshdInactive
    ));
    assert!(matches!(
        c.is_active(Execution::NotStarted).unwrap_err(),
        Error::SshdInactive
    ));
}

#[test]
fn from_env_overrides_defaults() {
    let cfg = SshdControlConfig::from_env(|k| match k {
        "MAYFLY_HELPER_SERVICE_NAME" => Some("sshd".to_string()),
        "MAYFLY_HELPER_SSHD_BINARY" => Some("/usr/local/sbin/sshd".to_string()),
        _ => None,
    });
    assert_eq!(cfg.service_name, "sshd");
    assert_eq!(cfg.sshd_binary, "/usr/local/sbin/sshd");
    assert_eq!(cfg.systemctl_binary, "/usr/bin/systemctl");
}

#[test]
fn defaults_match_a_standard_host() {
    let cfg = SshdControlConfig::from_env(|_| None);
    assert_eq!(cfg.sshd_binary, "/usr/sbin/sshd");
    assert_eq!(cfg.systemctl_binary, "/usr/bin/systemctl");
    assert_eq!(cfg.service_name, "ssh");
}

#[test]
fn commands_are_the_allow_listed_ones() {
    let c = SystemSshdControl::new(SshdControlConfig::default());
    let validate = c.command(SshdCheck::ValidateConfig);
    assert_eq!(validate.program, "/usr/sbin/sshd");
    assert_eq!(validate.args, vec!["-t".to_string()]);
    let reload = c.command(SshdCheck::Reload);
    assert_eq!(reload.program, "/usr/bin/systemctl");
    assert_eq!(reload.args, vec!["reload".to_string(), "ssh".to_string()]);
    let probe = c.command(SshdCheck::IsActive);
    assert_eq!(probe.program, "/usr/bin/systemctl");
    assert_eq!(probe.args, vec!["is-active".to_string(), "ssh".to_string()]);
}

#[test]
fn only_success_is_success() {
    let c = SystemSshdControl::new(SshdControlConfig::default());
    assert!(c.validate_config(Execution::Succeeded).is_ok());
    assert!(c.reload(Execution::Succeeded).is_ok());
    assert!(c.is_active(Execution::Succeeded).is_ok());
    assert!(matches!(
        c.validate_config(Execution::Reported).unwrap_err(),
        Error::SshdValidationFailed
    ));
    assert!(matches!(
        c.reload(Execution::Reported).unwrap_err(),
        Error::SshdInactive
    ));
    assert!(matches!(
        c.is_active(Execution::Reported).unwrap_err(),
        Error::SshdInactive
    ));
}
