//! The error type.

use mayfly_helper::errors::{Error, TrustedCaError};

/// Every error's user-facing message must be free of filesystem paths.
#[test]
fn display_never_contains_paths() {
    let sensitive = "/etc/ssh/mayfly/trusted_user_ca_keys";
    let errors = [
        Error::Io(std::io::Error::new(
            std::io::ErrorKind::PermissionDenied,
            sensitive,
        )),
        Error::UnexpectedSymlink,
        Error::InsecureOwnership,
        Error::InsecurePermissions,
        Error::InvalidPath,
        Error::NotRoot,
        Error::InvalidTrustedCa(TrustedCaError::DisallowedAlgorithm),
        Error::HelperUnavailable,
        Error::HelperProtocol,
        Error::HelperUnauthenticated,
        Error::SshdValidationFailed,
        Error::SshdInactive,
    ];
    for err in errors {
        let shown = err.to_string();
        assert!(
            !shown.contains('/'),
            "error message leaked a path-like value: {shown:?}"
        );
        assert!(
            !shown.contains(sensitive),
            "error message leaked sensitive context: {shown:?}"
        );
    }
}

#[test]
fn trusted_ca_error_messages_are_stable() {
    assert_eq!(TrustedCaError::Empty.to_string(), "entry is empty");
    assert_eq!(
        TrustedCaError::DisallowedAlgorithm.to_string(),
        "key algorithm is not allowed"
    );
}

#[test]
fn io_source_is_preserved_for_diagnostics() {
    let err = Error::Io(std::io::Error::new(
        std::io::ErrorKind::PermissionDenied,
        "denied",
    ));
    assert!(err.source().is_some());
}

#[test]
fn only_io_errors_have_a_source() {
    assert!(Error::InvalidPath.source().is_none());
    assert!(Error::SshdInactive.source().is_none());
}

#[test]
fn every_message_is_fixed() {
    let io = Error::Io(std::io::Error::new(std::io::ErrorKind::Other, "/a/b"));
    assert_eq!(io.to_string(), "filesystem operation failed");
    assert_eq!(
        Error::UnexpectedSymlink.to_string(),
        "path failed security validation: unexpected symlink"
    );
    assert_eq!(
        Error::InsecureOwnership.to_string(),
        "path failed security validation: insecure ownership"
    );
    assert_eq!(
        Error::InsecurePermissions.to_string(),
        "path failed security validation: insecure permissions"
    );
    assert_eq!(
        Error::InvalidPath.to_string(),
        "path failed security validation: invalid path"
    );
    assert_eq!(
        Error::NotRoot.to_string(),
        "insufficient privileges: root is required"
    );
    assert_eq!(
        Error::InvalidTrustedCa(TrustedCaError::InvalidEncoding).to_string(),
        "invalid TrustedUserCAKeys entry: key data is not valid base64"
    );
    assert_eq!(
        Error::HelperUnavailable.to_string(),
        "privileged helper socket is unavailable"
    );
    assert_eq!(Error::HelperProtocol.to_string(), "helper protocol error");
    assert_eq!(
        Error::HelperUnauthenticated.to_string(),
        "helper rejected the request: unauthenticated"
    );
    assert_eq!(
        Error::PeerCredUnavailable.to_string(),
        "peer credentials unavailable"
    );
    assert_eq!(
        Error::SshdValidationFailed.to_string(),
        "sshd configuration validation failed"
    );
    assert_eq!(Error::SshdInactive.to_string(), "sshd is not active");
    assert_eq!(TrustedCaError::Malformed.to_string(), "entry is malformed");
    assert_eq!(
        TrustedCaError::IllegalCharacter.to_string(),
        "entry contains illegal characters"
    );
}
