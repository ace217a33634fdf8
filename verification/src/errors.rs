//! The crate's single error type.
//!
//! ## Security property: no path leakage
//!
//! Error messages **never** contain filesystem paths, file contents, capability
//! tokens, or other sensitive context: each is one of a closed set of fixed
//! texts, none of which holds a path separator
//! ([`Error::message_has_no_path_separator`]). Diagnostic detail such as the
//! offending path belongs in the log at the point of failure. The helper's
//! responses to the agent carry only these fixed, path-free strings.

use vstd::prelude::*;

verus! {

/// An operating-system error, carried for diagnostics and never inspected.
#[verifier::external_type_specification]
#[verifier::external_body]
pub struct ExIoError(std::io::Error);

/// The single, crate-wide result type.
pub type Result<T> = std::result::Result<T, Error>;

/// The single, crate-wide error type.
///
/// Variants are intentionally coarse-grained and path-free.
#[derive(Debug)]
#[non_exhaustive]
pub enum Error {
    /// A filesystem operation failed.
    Io(std::io::Error),
    /// A managed path is a symlink where a regular file or directory is
    /// required.
    UnexpectedSymlink,
    /// A managed file has unsafe ownership (e.g. not owned by root).
    InsecureOwnership,
    /// A managed file has unsafe permission bits (e.g. group/world writable).
    InsecurePermissions,
    /// A required path component was missing (e.g. a file with no parent dir).
    InvalidPath,
    /// The process is not running with the required privileges (root).
    NotRoot,
    /// A trusted-CA-keys entry was malformed or used a disallowed algorithm.
    InvalidTrustedCa(TrustedCaError),
    /// The peer could not be reached over the socket, or the connection dropped.
    HelperUnavailable,
    /// A request or response violated the socket protocol (bad framing,
    /// oversized body, unsupported protocol version, or malformed JSON).
    HelperProtocol,
    /// A request was rejected as unauthenticated (missing or wrong capability
    /// token, an empty token file, or a peer that is not allow-listed).
    HelperUnauthenticated,
    /// The kernel credentials of a connecting peer could not be read.
    PeerCredUnavailable,
    /// `sshd -t` rejected the candidate configuration.
    SshdValidationFailed,
    /// `sshd` was not active after a reload, or the service query failed.
    SshdInactive,
}

/// Fixed, non-sensitive reasons a `TrustedUserCAKeys` entry can be rejected.
///
/// A closed enum (rather than a free-form string) keeps rejection reasons
/// auditable and guarantees no caller-controlled or path data leaks into an
/// error message.
#[derive(Debug, Clone, Copy, PartialEq, Eq, Structural)]
#[non_exhaustive]
pub enum TrustedCaError {
    /// The entry was empty or contained only whitespace.
    Empty,
    /// The entry did not have the expected `<algorithm> <base64>[ comment]`
    /// shape.
    Malformed,
    /// The key algorithm is not in the allow-list.
    DisallowedAlgorithm,
    /// The key blob was not valid base64.
    InvalidEncoding,
    /// The entry contained control characters or a NUL byte.
    IllegalCharacter,
}

impl TrustedCaError {
    /// The fixed text of each reason.
    pub open spec fn text(self) -> Seq<char> {
        match self {
            TrustedCaError::Empty => "entry is empty"@,
            TrustedCaError::Malformed => "entry is malformed"@,
            TrustedCaError::DisallowedAlgorithm => "key algorithm is not allowed"@,
            TrustedCaError::InvalidEncoding => "key data is not valid base64"@,
            TrustedCaError::IllegalCharacter => "entry contains illegal characters"@,
        }
    }

    /// The fixed text of this reason.
    pub fn to_string(&self) -> (r: String)
        ensures
            r@ == self.text(),
    {
        let msg = match self {
            TrustedCaError::Empty => "entry is empty",
            TrustedCaError::Malformed => "entry is malformed",
            TrustedCaError::DisallowedAlgorithm => "key algorithm is not allowed",
            TrustedCaError::InvalidEncoding => "key data is not valid base64",
            TrustedCaError::IllegalCharacter => "entry contains illegal characters",
        };
        msg.to_owned()
    }
}

impl Error {
    /// The fixed text of each error.
    pub open spec fn text(self) -> Seq<char> {
        match self {
            Error::Io(_) => "filesystem operation failed"@,
            Error::UnexpectedSymlink => "path failed security validation: unexpected symlink"@,
            Error::InsecureOwnership => "path failed security validation: insecure ownership"@,
            Error::InsecurePermissions => "path failed security validation: insecure permissions"@,
            Error::InvalidPath => "path failed security validation: invalid path"@,
            Error::NotRoot => "insufficient privileges: root is required"@,
            Error::InvalidTrustedCa(reason) => "invalid TrustedUserCAKeys entry: "@ + reason.text(),
            Error::HelperUnavailable => "privileged helper socket is unavailable"@,
            Error::HelperProtocol => "helper protocol error"@,
            Error::HelperUnauthenticated => "helper rejected the request: unauthenticated"@,
            Error::PeerCredUnavailable => "peer credentials unavailable"@,
            Error::SshdValidationFailed => "sshd configuration validation failed"@,
            Error::SshdInactive => "sshd is not active"@,
        }
    }

    /// The user-facing message: fixed for each variant.
    pub fn to_string(&self) -> (r: String)
        ensures
            r@ == self.text(),
    {
        let msg = match self {
            Error::Io(_) => "filesystem operation failed",
            Error::UnexpectedSymlink => "path failed security validation: unexpected symlink",
            Error::InsecureOwnership => "path failed security validation: insecure ownership",
            Error::InsecurePermissions => "path failed security validation: insecure permissions",
            Error::InvalidPath => "path failed security validation: invalid path",
            Error::NotRoot => "insufficient privileges: root is required",
            Error::InvalidTrustedCa(reason) => {
                let mut out = "invalid TrustedUserCAKeys entry: ".to_owned();
                let why = reason.to_string();
                out.append(why.as_str());
                return out;
            },
            Error::HelperUnavailable => "privileged helper socket is unavailable",
            Error::HelperProtocol => "helper protocol error",
            Error::HelperUnauthenticated => "helper rejected the request: unauthenticated",
            Error::PeerCredUnavailable => "peer credentials unavailable",
            Error::SshdValidationFailed => "sshd configuration validation failed",
            Error::SshdInactive => "sshd is not active",
        };
        msg.to_owned()
    }

    /// The operating-system error behind an [`Error::Io`], kept for diagnostics;
    /// no other variant has one.
    pub fn source(&self) -> (r: Option<&std::io::Error>)
        ensures
            r == (match *self {
                Error::Io(e) => Some(&e),
                _ => None,
            }),
    {
        match self {
            Error::Io(e) => Some(e),
            _ => None,
        }
    }

    /// No error message contains a path separator, whatever the error carries.
    pub proof fn message_has_no_path_separator(self)
        ensures
            !self.text().contains('/'),
    {
        reveal_strlit("filesystem operation failed");
        reveal_strlit("path failed security validation: unexpected symlink");
        reveal_strlit("path failed security validation: insecure ownership");
        reveal_strlit("path failed security validation: insecure permissions");
        reveal_strlit("path failed security validation: invalid path");
        reveal_strlit("insufficient privileges: root is required");
        reveal_strlit("invalid TrustedUserCAKeys entry: ");
        reveal_strlit("privileged helper socket is unavailable");
        reveal_strlit("helper protocol error");
        reveal_strlit("helper rejected the request: unauthenticated");
        reveal_strlit("peer credentials unavailable");
        reveal_strlit("sshd configuration validation failed");
        reveal_strlit("sshd is not active");
        reveal_strlit("entry is empty");
        reveal_strlit("entry is malformed");
        reveal_strlit("key algorithm is not allowed");
        reveal_strlit("key data is not valid base64");
        reveal_strlit("entry contains illegal characters");
    }
}

/// An I/O error keeps the operating system's error, and no other error has one.
pub proof fn only_io_errors_have_a_source(error: Error, source: Option<&std::io::Error>)
    requires
        call_ensures(Error::source, (&error,), source),
    ensures
        error matches Error::Io(e) ==> source == Some(&e),
        !(error is Io) ==> source is None,
{
}

/// The texts of the errors, word for word; that of a rejected entry ends with the
/// reason.
pub proof fn messages_are_fixed(
    error: Error,
    message: String,
    reason: TrustedCaError,
    why: String,
)
    requires
        call_ensures(Error::to_string, (&error,), message),
        call_ensures(TrustedCaError::to_string, (&reason,), why),
    ensures
        error is Io ==> message@ == "filesystem operation failed"@,
        error is UnexpectedSymlink ==> message@
            == "path failed security validation: unexpected symlink"@,
        error is InsecureOwnership ==> message@
            == "path failed security validation: insecure ownership"@,
        error is InsecurePermissions ==> message@
            == "path failed security validation: insecure permissions"@,
        error is InvalidPath ==> message@ == "path failed security validation: invalid path"@,
        error is NotRoot ==> message@ == "insufficient privileges: root is required"@,
        error == Error::InvalidTrustedCa(reason) ==> message@
            == "invalid TrustedUserCAKeys entry: "@ + why@,
        error is HelperUnavailable ==> message@ == "privileged helper socket is unavailable"@,
        error is HelperProtocol ==> message@ == "helper protocol error"@,
        error is HelperUnauthenticated ==> message@
            == "helper rejected the request: unauthenticated"@,
        error is PeerCredUnavailable ==> message@ == "peer credentials unavailable"@,
        error is SshdValidationFailed ==> message@ == "sshd configuration validation failed"@,
        error is SshdInactive ==> message@ == "sshd is not active"@,
        reason is Empty ==> why@ == "entry is empty"@,
        reason is Malformed ==> why@ == "entry is malformed"@,
        reason is DisallowedAlgorithm ==> why@ == "key algorithm is not allowed"@,
        reason is InvalidEncoding ==> why@ == "key data is not valid base64"@,
        reason is IllegalCharacter ==> why@ == "entry contains illegal characters"@,
{
}

} // verus!
