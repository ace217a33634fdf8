//! The agent↔helper socket protocol: message types, framing, and token auth.
//!
//! The module contains no I/O. Messages are length-prefixed (a `u32` big-endian
//! byte count followed by that many bytes of compact JSON), and the body is
//! capped at [`MAX_BODY_BYTES`] *before* allocation to bound a hostile or buggy
//! peer. Every request carries a [`PROTOCOL_VERSION`] and a capability token; the
//! helper compares the token in constant time ([`constant_time_eq`]).
//!
//! Framing is unambiguous: what [`write_frame`] appends is what [`read_frame`]
//! takes off again, whatever follows ([`frame_round_trips`]).

use vstd::prelude::*;
use vstd::slice::slice_subrange;
use vstd::slice::slice_to_vec;

use crate::errors::{Error, Result};

verus! {

/// The socket protocol version. Bumped only on an incompatible change.
pub const PROTOCOL_VERSION: u32 = 1;

/// Maximum accepted body size for a single framed message (1 MiB).
///
/// Checked before allocating, so a malicious length prefix cannot exhaust
/// memory. The largest legitimate message is an `ApplyTrustedCaKeys` body, which
/// is far smaller than this in practice.
pub const MAX_BODY_BYTES: usize = 1024 * 1024;

/// The version the helper reports in answer to a [`Operation::Ping`].
pub const HELPER_VERSION: &'static str = "0.1.0";

// ---------------------------------------------------------------------------
// Messages
// ---------------------------------------------------------------------------

/// An explicit, allow-listed privileged operation.
///
/// There is deliberately no generic filesystem or "run command" variant: every
/// operation maps to one reviewed action in [`crate::ops`].
#[derive(Debug, Clone, Copy, PartialEq, Eq, Structural)]
pub enum Operation {
    /// Liveness probe; the response carries the helper version.
    Ping,
    /// Ensure the managed directories exist with the expected ownership/mode.
    EnsureDirectories,
    /// Install or refresh the sshd drop-in, then validate and reload `sshd`.
    InstallSshdDropin,
    /// Atomically replace `TrustedUserCAKeys` and reload `sshd`, rolling back on
    /// failure. The new file body travels in [`Request::content`].
    ApplyTrustedCaKeys,
    /// Verify the managed files' perms/ownership and that `sshd` is healthy.
    VerifyState,
}

/// A request from the agent to the helper.
#[derive(Debug, Clone, PartialEq, Eq)]
pub struct Request {
    /// Must equal [`PROTOCOL_VERSION`]; the helper rejects any other value.
    pub protocol_version: u32,
    /// Capability token authenticating the caller. Never logged.
    pub token: String,
    /// The operation to perform.
    pub op: Operation,
    /// The rendered `TrustedUserCAKeys` body, required for
    /// [`Operation::ApplyTrustedCaKeys`] and absent otherwise.
    pub content: Option<String>,
}

impl Request {
    /// Build a request with the given token and operation (no content).
    pub fn new(token: &str, op: Operation) -> (r: Self)
        ensures
            r.protocol_version == PROTOCOL_VERSION,
            r.token@ == token@,
            r.op == op,
            r.content is None,
    {
        Request { protocol_version: PROTOCOL_VERSION, token: token.to_owned(), op, content: None }
    }

    /// Build an [`Operation::ApplyTrustedCaKeys`] request carrying `content`.
    pub fn apply(token: &str, content: &str) -> (r: Self)
        ensures
            r.protocol_version == PROTOCOL_VERSION,
            r.token@ == token@,
            r.op == Operation::ApplyTrustedCaKeys,
            r.content matches Some(c) && c@ == content@,
    {
        Request {
            protocol_version: PROTOCOL_VERSION,
            token: token.to_owned(),
            op: Operation::ApplyTrustedCaKeys,
            content: Some(content.to_owned()),
        }
    }
}

/// The result classification carried by a [`Response`].
#[derive(Debug, Clone, Copy, PartialEq, Eq, Structural)]
pub enum Outcome {
    /// The operation completed successfully with no special classification.
    Success,
    /// A new `TrustedUserCAKeys` file was applied and `sshd` reloaded.
    Applied,
    /// An apply failed and the previous file was restored.
    RolledBack,
    /// The candidate content matched what was already installed; no change.
    NotModified,
    /// A verification operation found `sshd`/state unhealthy.
    Unhealthy,
}

/// A response from the helper to the agent.
///
/// `detail` is a fixed, non-sensitive description (never a path, token, or file
/// content), safe to log on the agent side.
#[derive(Debug, Clone, PartialEq, Eq)]
pub struct Response {
    /// Whether the operation succeeded.
    pub ok: bool,
    /// A classification of the result.
    pub outcome: Outcome,
    /// The helper's version, populated for [`Operation::Ping`].
    pub helper_version: Option<String>,
    /// A fixed, non-sensitive detail string.
    pub detail: Option<String>,
}

/// What a [`Response`] says.
#[verifier::ext_equal]
pub struct Reply {
    /// Whether the operation succeeded.
    pub ok: bool,
    /// A classification of the result.
    pub outcome: Outcome,
    /// The reported version, if any.
    pub helper_version: Option<Seq<char>>,
    /// The detail text, if any.
    pub detail: Option<Seq<char>>,
}

/// The characters of an optional string.
pub open spec fn chars_of(s: Option<String>) -> Option<Seq<char>> {
    match s {
        Some(s) => Some(s@),
        None => None,
    }
}

impl View for Response {
    type V = Reply;

    open spec fn view(&self) -> Reply {
        Reply {
            ok: self.ok,
            outcome: self.outcome,
            helper_version: chars_of(self.helper_version),
            detail: chars_of(self.detail),
        }
    }
}

impl Reply {
    /// Success with the given outcome.
    pub open spec fn success(outcome: Outcome) -> Reply {
        Reply { ok: true, outcome, helper_version: None, detail: None }
    }

    /// Failure with the given outcome and detail.
    pub open spec fn failure(outcome: Outcome, detail: Seq<char>) -> Reply {
        Reply { ok: false, outcome, helper_version: None, detail: Some(detail) }
    }

    /// The answer to a liveness probe.
    pub open spec fn pong() -> Reply {
        Reply { ok: true, outcome: Outcome::Success, helper_version: Some(HELPER_VERSION@), detail: None }
    }
}

impl Response {
    /// A successful response with the given outcome.
    pub fn success(outcome: Outcome) -> (r: Self)
        ensures
            r@ == Reply::success(outcome),
    {
        Response { ok: true, outcome, helper_version: None, detail: None }
    }

    /// A failure response carrying a fixed, non-sensitive detail.
    pub fn failure(outcome: Outcome, detail: &str) -> (r: Self)
        ensures
            r@ == Reply::failure(outcome, detail@),
    {
        Response { ok: false, outcome, helper_version: None, detail: Some(detail.to_owned()) }
    }

    /// The answer to a liveness probe: success, with the helper's version.
    pub fn pong() -> (r: Self)
        ensures
            r@ == Reply::pong(),
    {
        Response {
            ok: true,
            outcome: Outcome::Success,
            helper_version: Some(HELPER_VERSION.to_owned()),
            detail: None,
        }
    }
}

// ---------------------------------------------------------------------------
// Framing
// ---------------------------------------------------------------------------

/// The four bytes of `n`, most significant first.
pub open spec fn big_endian(n: nat) -> Seq<u8> {
    seq![
        (n / 0x100_0000 % 0x100) as u8,
        (n / 0x1_0000 % 0x100) as u8,
        (n / 0x100 % 0x100) as u8,
        (n % 0x100) as u8,
    ]
}

/// The number whose four bytes, most significant first, start `s`.
pub open spec fn from_big_endian(s: Seq<u8>) -> nat {
    (s[0] * 0x100_0000 + s[1] * 0x1_0000 + s[2] * 0x100 + s[3]) as nat
}

/// The frame that carries `body`.
pub open spec fn frame(body: Seq<u8>) -> Seq<u8> {
    big_endian(body.len()) + body
}

/// What a reader of `input` gets: the body of the first frame, or why there is
/// none. The declared length is judged before the body is looked at.
pub open spec fn framed_body(input: Seq<u8>) -> Result<Seq<u8>> {
    if input.len() < 4 {
        Err(Error::HelperUnavailable)
    } else if from_big_endian(input) > MAX_BODY_BYTES {
        Err(Error::HelperProtocol)
    } else if input.len() < 4 + from_big_endian(input) {
        Err(Error::HelperUnavailable)
    } else {
        Ok(input.subrange(4, 4 + from_big_endian(input) as int))
    }
}

/// What a reader of `input` has not consumed afterwards: everything behind the
/// frame; behind the prefix, if that was refused; nothing, if the input ended
/// too early.
pub open spec fn after_frame(input: Seq<u8>) -> Seq<u8> {
    match framed_body(input) {
        Ok(body) => input.skip(4 + body.len() as int),
        Err(Error::HelperProtocol) => input.skip(4),
        Err(_) => Seq::empty(),
    }
}

/// Append a length-prefixed frame (`u32` BE length + `body`) to `writer`.
///
/// # Errors
///
/// Returns [`Error::HelperProtocol`], and appends nothing, if `body` exceeds
/// [`MAX_BODY_BYTES`].
pub fn write_frame(writer: &mut Vec<u8>, body: &[u8]) -> (r: Result<()>)
    ensures
        body@.len() <= MAX_BODY_BYTES ==> r is Ok && final(writer)@ == old(writer)@ + frame(body@),
        body@.len() > MAX_BODY_BYTES ==> r == Err::<(), Error>(Error::HelperProtocol)
            && final(writer)@ == old(writer)@,
{
    if body.len() > MAX_BODY_BYTES {
        return Err(Error::HelperProtocol);
    }
    let len: usize = body.len();
    writer.push((len / 0x100_0000 % 0x100) as u8);
    writer.push((len / 0x1_0000 % 0x100) as u8);
    writer.push((len / 0x100 % 0x100) as u8);
    writer.push((len % 0x100) as u8);
    writer.extend_from_slice(body);
    assert(writer@ == old(writer)@ + frame(body@));
    Ok(())
}

/// The body length that the four-byte prefix of a frame declares, judged before
/// any allocation.
///
/// # Errors
///
/// Returns [`Error::HelperProtocol`] if the declared length exceeds
/// [`MAX_BODY_BYTES`].
pub fn declared_len(prefix: [u8; 4]) -> (r: Result<usize>)
    ensures
        from_big_endian(prefix@) <= MAX_BODY_BYTES ==> r == Ok::<usize, Error>(
            from_big_endian(prefix@) as usize,
        ),
        from_big_endian(prefix@) > MAX_BODY_BYTES ==> r == Err::<usize, Error>(
            Error::HelperProtocol,
        ),
{
    let len: u32 = prefix[0] as u32 * 0x100_0000 + prefix[1] as u32 * 0x1_0000 + prefix[2] as u32
        * 0x100 + prefix[3] as u32;
    if len > MAX_BODY_BYTES as u32 {
        return Err(Error::HelperProtocol);
    }
    Ok(len as usize)
}

/// Read a length-prefixed frame off the front of `reader`, returning the body
/// bytes.
///
/// The declared length is validated against [`MAX_BODY_BYTES`] before any
/// allocation.
///
/// # Errors
///
/// Returns [`Error::HelperProtocol`] if the declared length exceeds the cap, or
/// [`Error::HelperUnavailable`] if the input ends inside the frame (e.g. the peer
/// closed the connection mid-frame).
pub fn read_frame(reader: &mut &[u8]) -> (r: Result<Vec<u8>>)
    ensures
        match framed_body(old(reader)@) {
            Ok(body) => r matches Ok(b) && b@ == body,
            Err(e) => r == Err::<Vec<u8>, Error>(e),
        },
        final(reader)@ == after_frame(old(reader)@),
{
    let input: &[u8] = *reader;
    if input.len() < 4 {
        *reader = slice_subrange(input, input.len(), input.len());
        assert(reader@ == Seq::<u8>::empty());
        return Err(Error::HelperUnavailable);
    }
    let prefix: [u8; 4] = [input[0], input[1], input[2], input[3]];
    let len: usize = match declared_len(prefix) {
        Ok(len) => len,
        Err(e) => {
            *reader = slice_subrange(input, 4, input.len());
            return Err(e);
        },
    };
    if input.len() - 4 < len {
        *reader = slice_subrange(input, input.len(), input.len());
        assert(reader@ == Seq::<u8>::empty());
        return Err(Error::HelperUnavailable);
    }
    *reader = slice_subrange(input, 4 + len, input.len());
    Ok(slice_to_vec(slice_subrange(input, 4, 4 + len)))
}

/// Reading what was written gives the body back and leaves what follows it.
pub proof fn frame_round_trips(body: Seq<u8>, rest: Seq<u8>)
    requires
        body.len() <= MAX_BODY_BYTES,
    ensures
        framed_body(frame(body) + rest) == Ok::<Seq<u8>, Error>(body),
        after_frame(frame(body) + rest) == rest,
{
    let input = frame(body) + rest;
    let n = body.len();
    assert(from_big_endian(input) == n);
    assert(input.subrange(4, 4 + n as int) == body);
    assert(input.skip(4 + n as int) == rest);
}

/// Two bodies with the same frame are the same, so no frame can be read as two
/// different messages.
pub proof fn frame_is_injective(a: Seq<u8>, b: Seq<u8>)
    requires
        a.len() <= MAX_BODY_BYTES,
        b.len() <= MAX_BODY_BYTES,
        frame(a) == frame(b),
    ensures
        a == b,
{
    frame_round_trips(a, Seq::empty());
    frame_round_trips(b, Seq::empty());
}

/// Compare two byte slices in constant time with respect to their contents.
///
/// Returns `false` immediately for differing lengths (length is not secret),
/// but for equal lengths every byte is visited and combined without branching
/// on it, so the comparison time does not depend on where the first differing
/// byte is, avoiding a timing side channel on the capability token.
pub fn constant_time_eq(a: &[u8], b: &[u8]) -> (r: bool)
    ensures
        r == (a@ == b@),
{
    if a.len() != b.len() {
        return false;
    }
    let mut diff: u8 = 0;
    let mut i: usize = 0;
    while i < a.len()
        invariant
            i <= a@.len(),
            a@.len() == b@.len(),
            diff == 0 <==> forall|j: int| 0 <= j < i ==> a@[j] == b@[j],
        decreases a@.len() - i,
    {
        let x: u8 = a[i];
        let y: u8 = b[i];
        let ghost before = diff;
        diff = diff | (x ^ y);
        assert(before | (x ^ y) == 0 <==> before == 0 && x == y) by (bit_vector);
        i += 1;
    }
    assert(diff == 0 ==> a@ == b@);
    diff == 0
}

/// The first four bytes of a frame are the body's length, most significant byte
/// first, and the body follows as it is.
pub proof fn frames_begin_with_their_length(body: Seq<u8>)
    requires
        body.len() <= 0x10_0000,
    ensures
        frame(body).len() == 4 + body.len(),
        frame(body)[0] * 0x100_0000 + frame(body)[1] * 0x1_0000 + frame(body)[2] * 0x100 + frame(
            body,
        )[3] == body.len(),
        frame(body).skip(4) == body,
{
}

/// A declared length is the number that the prefix spells, most significant byte
/// first, and is refused if and only if it exceeds one mebibyte.
pub proof fn declared_length_is_big_endian(prefix: [u8; 4], r: Result<usize>)
    requires
        call_ensures(declared_len, (prefix,), r),
    ensures
        ({
            let n = prefix@[0] * 0x100_0000 + prefix@[1] * 0x1_0000 + prefix@[2] * 0x100
                + prefix@[3];
            if n <= 1048576 {
                r matches Ok(len) && len == n
            } else {
                r == Err::<usize, Error>(Error::HelperProtocol)
            }
        }),
{
}

/// A reader gets exactly as many bytes as the prefix declares, and what follows
/// them is left; a length over one mebibyte is refused whatever follows; an input
/// that ends inside the prefix or the body is used up and gives nothing.
pub proof fn frames_are_read_as_declared(
    a: u8,
    b: u8,
    c: u8,
    d: u8,
    following: Seq<u8>,
)
    ensures
        ({
            let n = a * 0x100_0000 + b * 0x1_0000 + c * 0x100 + d;
            let input = seq![a, b, c, d] + following;
            if n > 1048576 {
                &&& framed_body(input) == Err::<Seq<u8>, Error>(Error::HelperProtocol)
                &&& after_frame(input) == following
            } else if following.len() < n {
                &&& framed_body(input) == Err::<Seq<u8>, Error>(Error::HelperUnavailable)
                &&& after_frame(input).len() == 0
            } else {
                &&& framed_body(input) == Ok::<Seq<u8>, Error>(following.take(n))
                &&& after_frame(input) == following.skip(n)
            }
        }),
        following.len() < 4 ==> framed_body(following) == Err::<Seq<u8>, Error>(
            Error::HelperUnavailable,
        ) && after_frame(following).len() == 0,
{
    let n = a * 0x100_0000 + b * 0x1_0000 + c * 0x100 + d;
    let input = seq![a, b, c, d] + following;
    assert(from_big_endian(input) == n);
    assert(input.skip(4) == following);
    if n <= 1048576 && following.len() >= n {
        assert(input.subrange(4, 4 + n) == following.take(n));
        assert(input.skip(4 + n) == following.skip(n));
    }
}

/// Requests carry what they were made from and the protocol version, and an apply
/// its content.
pub proof fn requests_carry_what_they_were_made_from(
    token: &str,
    op: Operation,
    content: &str,
    plain: Request,
    apply: Request,
)
    requires
        call_ensures(Request::new, (token, op), plain),
        call_ensures(Request::apply, (token, content), apply),
    ensures
        plain.protocol_version == 1 && plain.token@ == token@ && plain.op == op && plain.content
            is None,
        apply.protocol_version == 1 && apply.token@ == token@ && apply.op
            == Operation::ApplyTrustedCaKeys,
        apply.content matches Some(c) && c@ == content@,
{
}

/// A response says what it was made to say and nothing else.
pub proof fn responses_say_what_they_were_made_to_say(
    outcome: Outcome,
    detail: &str,
    success: Response,
    failure: Response,
    pong: Response,
)
    requires
        call_ensures(Response::success, (outcome,), success),
        call_ensures(Response::failure, (outcome, detail), failure),
        call_ensures(Response::pong, (), pong),
    ensures
        success.ok && success.outcome == outcome && success.helper_version is None
            && success.detail is None,
        !failure.ok && failure.outcome == outcome && failure.helper_version is None,
        failure.detail matches Some(d) && d@ == detail@,
        pong.ok && pong.outcome == Outcome::Success && pong.detail is None,
        pong.helper_version matches Some(v) && v@ == "0.1.0"@,
{
    assert(success@ == Reply::success(outcome));
    assert(failure@ == Reply::failure(outcome, detail@));
    assert(pong@ == Reply::pong());
}

/// Two byte strings compare as equal if and only if they have the same length and
/// the same byte in every place.
pub proof fn equal_means_equal_in_every_place(a: &[u8], b: &[u8], same: bool)
    requires
        call_ensures(constant_time_eq, (a, b), same),
    ensures
        same <==> a@.len() == b@.len() && forall|i: int|
            0 <= i < a@.len() ==> #[trigger] a@[i] == b@[i],
{
    if a@.len() == b@.len() && forall|i: int| 0 <= i < a@.len() ==> #[trigger] a@[i] == b@[i] {
        assert(a@ =~= b@);
    }
}

/// A body is written if and only if it has at most one mebibyte: its frame is
/// appended to what was there, and nothing is otherwise.
pub proof fn frames_are_appended(writer: &mut Vec<u8>, body: &[u8], written: Result<()>)
    requires
        call_ensures(write_frame, (writer, body), written),
    ensures
        written is Ok <==> body@.len() <= 1048576,
        written is Ok ==> final(writer)@ == old(writer)@ + frame(body@),
        written is Err ==> written == Err::<(), Error>(Error::HelperProtocol) && final(writer)@
            == old(writer)@,
{
}

/// A frame that was written is read back, whatever follows it, and what follows it
/// is left.
pub proof fn written_frames_are_read_back(
    writer: &mut Vec<u8>,
    body: &[u8],
    following: Seq<u8>,
    reader: &mut &[u8],
    r: Result<Vec<u8>>,
)
    requires
        old(writer)@.len() == 0,
        body@.len() <= 1048576,
        call_ensures(write_frame, (writer, body), Ok(())),
        old(reader)@ == final(writer)@ + following,
        call_ensures(read_frame, (reader,), r),
    ensures
        r matches Ok(b) && b@ == body@,
        final(reader)@ == following,
{
    assert(old(writer)@ + frame(body@) == frame(body@));
    frame_round_trips(body@, following);
}

} // verus!
