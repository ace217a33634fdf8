//! Start-up configuration: what the `MAYFLY_HELPER_*` environment variables and
//! the capability-token file amount to.
//!
//! The environment is read through a function that the caller supplies, and so
//! is the token file; everything that follows from what they hold is decided
//! here.

use vstd::prelude::*;

use crate::errors::{Error, Result};
use crate::peercred::PeerPolicy;
use crate::security::{self, Attempt, FileMeta};
use crate::text;

verus! {

/// Where the socket is unless configured otherwise.
pub const DEFAULT_SOCKET_PATH: &'static str = "/run/mayfly/helper.sock";

/// Where the capability token is unless configured otherwise.
pub const DEFAULT_TOKEN_PATH: &'static str = "/etc/mayfly-agent/helper.token";

/// Minimum acceptable capability-token length (characters). The installer writes
/// 32 random bytes hex-encoded (64 chars); anything shorter than 32 chars is
/// rejected fail-closed as too weak rather than served.
pub const MIN_TOKEN_LEN: usize = 32;

/// The most permissive mode that the token file may have.
pub const TOKEN_MODE: u32 = 0o640;

// ---------------------------------------------------------------------------
// Environment variables
// ---------------------------------------------------------------------------

/// A found value, or else the default.
pub open spec fn or_default(found: Option<String>, default: Seq<char>) -> Seq<char> {
    match found {
        Some(value) => value@,
        None => default,
    }
}

/// Whether `value` is what the environment gives for `name`: what `get_env`
/// found, or else the default.
pub open spec fn configured<F: Fn(&str) -> Option<String>>(
    get_env: F,
    name: &str,
    default: Seq<char>,
    value: Seq<char>,
) -> bool {
    exists|found: Option<String>|
        #[trigger] call_ensures(get_env, (name,), found) && value == or_default(found, default)
}

/// The value of an environment variable, or else the default.
pub fn setting<F: Fn(&str) -> Option<String>>(
    get_env: &F,
    name: &str,
    default: &str,
) -> (r: String)
    requires
        call_requires(*get_env, (name,)),
    ensures
        configured(*get_env, name, default@, r@),
{
    let found = get_env(name);
    let ghost seen = found;
    assert(call_ensures(*get_env, (name,), seen));
    match found {
        Some(value) => value,
        None => default.to_owned(),
    }
}

/// The socket path.
pub fn socket_path<F: Fn(&str) -> Option<String>>(get_env: F) -> (r: String)
    requires
        call_requires(get_env, ("MAYFLY_HELPER_SOCKET_PATH",)),
    ensures
        configured(get_env, "MAYFLY_HELPER_SOCKET_PATH", DEFAULT_SOCKET_PATH@, r@),
{
    setting(&get_env, "MAYFLY_HELPER_SOCKET_PATH", DEFAULT_SOCKET_PATH)
}

/// The path of the capability-token file.
pub fn token_path<F: Fn(&str) -> Option<String>>(get_env: F) -> (r: String)
    requires
        call_requires(get_env, ("MAYFLY_HELPER_TOKEN_PATH",)),
    ensures
        configured(get_env, "MAYFLY_HELPER_TOKEN_PATH", DEFAULT_TOKEN_PATH@, r@),
{
    setting(&get_env, "MAYFLY_HELPER_TOKEN_PATH", DEFAULT_TOKEN_PATH)
}

/// The number that an optional value denotes, surrounding whitespace aside.
pub open spec fn numeric(value: Option<String>) -> Option<u32> {
    match value {
        Some(v) => text::parsed_u32(text::trimmed(v@)),
        None => None,
    }
}

/// The number that an optional value denotes, surrounding whitespace aside; a
/// value that is no number counts as unset.
pub fn numeric_value(value: Option<String>) -> (r: Option<u32>)
    ensures
        r == numeric(value),
{
    match value {
        Some(v) => {
            let chars = text::to_chars(v.as_str());
            text::parse_u32(text::trim(chars.as_slice()))
        },
        None => None,
    }
}

/// Optional numeric gid to own the socket file (so the agent's group can connect
/// at mode `0660`). The installer passes the `mayfly` group's gid.
pub fn socket_gid<F: Fn(&str) -> Option<String>>(get_env: F) -> (r: Option<u32>)
    requires
        call_requires(get_env, ("MAYFLY_HELPER_SOCKET_GID",)),
    ensures
        exists|found: Option<String>|
            #[trigger] call_ensures(get_env, ("MAYFLY_HELPER_SOCKET_GID",), found) && r == numeric(
                found,
            ),
{
    let found = get_env("MAYFLY_HELPER_SOCKET_GID");
    let ghost seen = found;
    assert(call_ensures(get_env, ("MAYFLY_HELPER_SOCKET_GID",), seen));
    numeric_value(found)
}

/// Whether `policy` pins peers to `uid` and root, or pins nobody if there is no
/// such uid.
pub open spec fn pins(policy: PeerPolicy, uid: Option<u32>) -> bool {
    match uid {
        Some(uid) => policy.pinned() && policy.allow_list() == set![uid, 0u32],
        None => !policy.pinned(),
    }
}

/// The policy for a configured uid: pinned to it and to root, or unenforced if
/// there is none.
pub fn policy_for(uid: Option<u32>) -> (r: PeerPolicy)
    ensures
        pins(r, uid),
{
    match uid {
        Some(uid) => {
            let allowed: Vec<u32> = vec![uid];
            let r = PeerPolicy::enforced(allowed);
            proof {
                assert(allowed@ == seq![uid]);
                assert(allowed@[0] == uid);
                assert(r.allow_list() =~= set![uid, 0u32]);
            }
            r
        },
        None => PeerPolicy::unenforced(),
    }
}

/// Build the kernel peer-credential (`SO_PEERCRED`) policy from
/// `MAYFLY_HELPER_ALLOWED_UID` (the unprivileged agent's uid; root is always
/// implicitly allowed). When unset, uid pinning is disabled — socket perms + the
/// capability token still apply.
pub fn peer_policy<F: Fn(&str) -> Option<String>>(get_env: F) -> (r: PeerPolicy)
    requires
        call_requires(get_env, ("MAYFLY_HELPER_ALLOWED_UID",)),
    ensures
        exists|found: Option<String>|
            #[trigger] call_ensures(get_env, ("MAYFLY_HELPER_ALLOWED_UID",), found) && pins(
                r,
                numeric(found),
            ),
{
    let found = get_env("MAYFLY_HELPER_ALLOWED_UID");
    let ghost seen = found;
    assert(call_ensures(get_env, ("MAYFLY_HELPER_ALLOWED_UID",), seen));
    policy_for(numeric_value(found))
}

// ---------------------------------------------------------------------------
// The capability token
// ---------------------------------------------------------------------------

/// The token that the contents of the token file amount to.
pub open spec fn token_of(contents: Seq<char>) -> Option<Seq<char>> {
    let token = text::trimmed(contents);
    if token.len() < MIN_TOKEN_LEN {
        None
    } else {
        Some(token)
    }
}

/// Whether `r` is the verdict on the token file's contents.
pub open spec fn token_verdict(contents: Seq<char>, r: Result<String>) -> bool {
    match token_of(contents) {
        Some(token) => r matches Ok(t) && t@ == token,
        None => r == Err::<String, Error>(Error::HelperUnauthenticated),
    }
}

/// The token in the contents of the token file: all of them, surrounding
/// whitespace aside.
///
/// # Errors
///
/// Returns [`Error::HelperUnauthenticated`] if the token is empty or shorter
/// than [`MIN_TOKEN_LEN`] characters.
pub fn accept_token(contents: &str) -> (r: Result<String>)
    ensures
        token_verdict(contents@, r),
{
    let chars = text::to_chars(contents);
    let token = text::trim(chars.as_slice());
    if token.len() < MIN_TOKEN_LEN {
        Err(Error::HelperUnauthenticated)
    } else {
        Ok(text::from_chars(token))
    }
}

/// Load the capability token, first verifying that the token file is itself
/// trustworthy, given its `lstat`: not a symlink, owned by root, and not
/// group/other-writable (mode at most [`TOKEN_MODE`]). A tamperable token file
/// is rejected fail-closed: `read` is called only on a trustworthy one.
///
/// # Errors
///
/// Returns the first failing check's error, [`Error::Io`] if the file cannot be
/// read, or what [`accept_token`] makes of its contents.
pub fn load_token<R: FnOnce() -> Attempt<String>>(stat: Attempt<FileMeta>, read: R) -> (r: Result<
    String,
>)
    requires
        security::trusted_file_verdict(stat, TOKEN_MODE) is Ok ==> call_requires(read, ()),
    ensures
        match security::trusted_file_verdict(stat, TOKEN_MODE) {
            Err(e) => r == Err::<String, Error>(e),
            Ok(()) => exists|contents: Attempt<String>|
                #[trigger] call_ensures(read, (), contents) && match security::required(contents) {
                    Err(e) => r == Err::<String, Error>(e),
                    Ok(text) => token_verdict(text@, r),
                },
        },
{
    match security::validate_trusted_file(stat, TOKEN_MODE) {
        Err(e) => {
            return Err(e);
        },
        Ok(()) => {},
    }
    let contents = read();
    let ghost seen = contents;
    assert(call_ensures(read, (), seen));
    match security::require(contents) {
        Err(e) => Err(e),
        Ok(text) => accept_token(text.as_str()),
    }
}

/// A token that the helper accepts is at least [`MIN_TOKEN_LEN`] characters long,
/// none of them surrounding whitespace, and is accepted again as it stands.
pub proof fn accepted_token_is_stable(contents: Seq<char>)
    requires
        token_of(contents) is Some,
    ensures
        token_of(contents)->0.len() >= MIN_TOKEN_LEN,
        token_of(token_of(contents)->0) == token_of(contents),
{
    text::lemma_trimmed(contents);
}

// ---------------------------------------------------------------------------
// What the settings amount to
// ---------------------------------------------------------------------------

/// Whether the environment holds for `name` what `found` says.
pub open spec fn reads_as<F: Fn(&str) -> Option<String>>(
    get_env: F,
    name: &str,
    found: spec_fn(Seq<char>) -> Option<Seq<char>>,
) -> bool {
    forall|value: Option<String>| #[trigger]
        call_ensures(get_env, (name,), value) ==> crate::protocol::chars_of(value) == found(name@)
}

/// The paths are what the environment says, to the letter, or the defaults where
/// it says nothing.
pub proof fn environment_configures_the_paths<F: Fn(&str) -> Option<String>>(
    get_env: F,
    found: spec_fn(Seq<char>) -> Option<Seq<char>>,
    name: &str,
    default: &str,
    value: String,
    socket: String,
    token: String,
)
    requires
        reads_as(get_env, name, found),
        reads_as(get_env, "MAYFLY_HELPER_SOCKET_PATH", found),
        reads_as(get_env, "MAYFLY_HELPER_TOKEN_PATH", found),
        call_ensures(setting::<F>, (&get_env, name, default), value),
        call_ensures(socket_path::<F>, (get_env,), socket),
        call_ensures(token_path::<F>, (get_env,), token),
    ensures
        value@ == match found(name@) {
            Some(v) => v,
            None => default@,
        },
        socket@ == match found("MAYFLY_HELPER_SOCKET_PATH"@) {
            Some(v) => v,
            None => "/run/mayfly/helper.sock"@,
        },
        token@ == match found("MAYFLY_HELPER_TOKEN_PATH"@) {
            Some(v) => v,
            None => "/etc/mayfly-agent/helper.token"@,
        },
{
}

/// A value is the number that is left of it without the whitespace around it; one
/// that is no number, and one that is unset, is none.
pub proof fn numbers_may_be_padded(
    left: Seq<char>,
    digits: &[char],
    right: Seq<char>,
    value: String,
    parsed: Option<u32>,
    padded: Option<u32>,
    unset: Option<u32>,
)
    requires
        text::blank(left),
        text::blank(right),
        digits@.len() > 0,
        !text::whitespace(digits@[0]),
        !text::whitespace(digits@.last()),
        value@ == left + digits@ + right,
        call_ensures(text::parse_u32, (digits,), parsed),
        call_ensures(numeric_value, (Some(value),), padded),
        call_ensures(numeric_value, (None,), unset),
    ensures
        padded == parsed,
        unset is None,
{
    text::trimming_leaves_the_core(left, digits@, right);
}

/// The socket's group and the pinned uid are the numbers that the environment
/// holds under their names.
pub proof fn environment_configures_the_ids<F: Fn(&str) -> Option<String>>(
    get_env: F,
    gid_value: Option<String>,
    uid_value: Option<String>,
    gid: Option<u32>,
    uid: Option<u32>,
    socket_group: Option<u32>,
    policy: PeerPolicy,
    cred: crate::peercred::PeerCred,
    verdict: Result<()>,
)
    requires
        forall|v: Option<String>| #[trigger]
            call_ensures(get_env, ("MAYFLY_HELPER_SOCKET_GID",), v) ==> v == gid_value,
        forall|v: Option<String>| #[trigger]
            call_ensures(get_env, ("MAYFLY_HELPER_ALLOWED_UID",), v) ==> v == uid_value,
        call_ensures(numeric_value, (gid_value,), gid),
        call_ensures(numeric_value, (uid_value,), uid),
        call_ensures(socket_gid::<F>, (get_env,), socket_group),
        call_ensures(peer_policy::<F>, (get_env,), policy),
        call_ensures(PeerPolicy::authorize, (&policy, &cred), verdict),
    ensures
        socket_group == gid,
        verdict is Ok <==> match uid {
            Some(uid) => cred.uid == uid || cred.uid == 0,
            None => true,
        },
{
}

/// A configured uid pins peers to it and to root; without one, nobody is pinned.
pub proof fn configured_uid_is_pinned(
    uid: Option<u32>,
    policy: PeerPolicy,
    active: bool,
    cred: crate::peercred::PeerCred,
    verdict: Result<()>,
)
    requires
        call_ensures(policy_for, (uid,), policy),
        call_ensures(PeerPolicy::is_enforced, (&policy,), active),
        call_ensures(PeerPolicy::authorize, (&policy, &cred), verdict),
    ensures
        active == (uid is Some),
        verdict is Ok <==> match uid {
            Some(uid) => cred.uid == uid || cred.uid == 0,
            None => true,
        },
{
}

/// A token file holds its token with any whitespace around it; the token is
/// accepted if and only if it has at least 32 characters.
pub proof fn tokens_have_a_minimum_length(
    left: Seq<char>,
    token: Seq<char>,
    right: Seq<char>,
    contents: &str,
    r: Result<String>,
)
    requires
        text::blank(left),
        text::blank(right),
        token.len() > 0 ==> !text::whitespace(token[0]) && !text::whitespace(token.last()),
        token.len() == 0 ==> left.len() == 0,
        contents@ == left + token + right,
        call_ensures(accept_token, (contents,), r),
    ensures
        token.len() >= 32 ==> (r matches Ok(t) && t@ == token),
        token.len() < 32 ==> r == Err::<String, Error>(Error::HelperUnauthenticated),
{
    text::trimming_leaves_the_core(left, token, right);
}

/// The token is loaded only from a file that is no symlink, is root's, and grants
/// its group no more than reading and others nothing; the first of these that is
/// not so gives the error. What is loaded is what [`accept_token`] makes of the
/// file's text.
pub proof fn token_file_must_be_trustworthy<R: FnOnce() -> Attempt<String>>(
    stat: Attempt<FileMeta>,
    read: R,
    contents: Attempt<String>,
    loaded: Result<String>,
)
    requires
        call_ensures(load_token::<R>, (stat, read), loaded),
        forall|c: Attempt<String>| #[trigger] call_ensures(read, (), c) ==> c == contents,
    ensures
        !(stat is Done) ==> loaded == Err::<String, Error>(security::io_error(stat)),
        stat matches Attempt::Done(meta) ==> {
            let excess = security::permission_bit(meta.mode, 0) || security::permission_bit(
                meta.mode,
                1,
            ) || security::permission_bit(meta.mode, 2) || security::permission_bit(meta.mode, 3)
                || security::permission_bit(meta.mode, 4) || security::permission_bit(meta.mode, 6);
            if meta.kind is Symlink {
                loaded == Err::<String, Error>(Error::UnexpectedSymlink)
            } else if meta.uid != 0 {
                loaded == Err::<String, Error>(Error::InsecureOwnership)
            } else if excess {
                loaded == Err::<String, Error>(Error::InsecurePermissions)
            } else {
                match contents {
                    Attempt::Done(text) => token_verdict(text@, loaded),
                    _ => loaded == Err::<String, Error>(security::io_error(contents)),
                }
            }
        },
{
    if let Attempt::Done(meta) = stat {
        let mode = meta.mode;
        assert(mode & 0o777 & !0o640u32 == 0 <==> !((mode >> 0u32) & 1 == 1 || (mode >> 1u32) & 1
            == 1 || (mode >> 2u32) & 1 == 1 || (mode >> 3u32) & 1 == 1 || (mode >> 4u32) & 1 == 1
            || (mode >> 6u32) & 1 == 1)) by (bit_vector);
    }
}

} // verus!
