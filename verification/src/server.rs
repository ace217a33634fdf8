//! The `mayfly-helper` Unix Domain Socket server.
//!
//! Binds a stream socket (restricted to mode `0660`), accepts one request per
//! connection, authenticates it (kernel peer credentials + protocol version +
//! constant-time capability token), dispatches to [`HelperOps`], and replies with
//! a single framed [`Response`]. The accept loop observes a stop flag so the
//! process can shut down cleanly on `SIGTERM`/`SIGINT`.
//!
//! Authentication failures receive an explicit (non-sensitive) response and the
//! connection is closed; the helper never performs an operation for a request it
//! has not authenticated ([`only_authenticated_requests_run`]).
//!
//! The module decides; the caller performs the system calls it names and reports
//! back what they returned.

use vstd::prelude::*;

use crate::errors::{Error, Result};
use crate::ops::{self, Dispatch, HelperOps};
use crate::peercred::{PeerCred, PeerPolicy};
use crate::protocol::{self, Outcome, Request, Response, PROTOCOL_VERSION};
use crate::security::{self, Attempt, FileKind, FileMeta};
use crate::sshd_control::SshdControl;

verus! {

/// Socket file permission bits: owner+group read/write, no access for others.
pub const SOCKET_MODE: u32 = 0o660;

/// How long to nap between accept polls while idle, in milliseconds (keeps
/// shutdown responsive).
pub const ACCEPT_POLL_MILLIS: u64 = 100;

/// Per-connection read/write timeout in seconds, so a stalled peer cannot pin a
/// slot.
pub const IO_TIMEOUT_SECS: u64 = 30;

// ---------------------------------------------------------------------------
// Requests
// ---------------------------------------------------------------------------

/// The privileged socket server.
pub struct HelperServer<C: SshdControl> {
    socket_path: String,
    token: String,
    ops: HelperOps<C>,
    socket_gid: Option<u32>,
    peer_policy: PeerPolicy,
}

/// The credentials behind a reference, if there are any.
pub open spec fn cred_of(peer: Option<&PeerCred>) -> Option<PeerCred> {
    match peer {
        Some(cred) => Some(*cred),
        None => None,
    }
}

/// Why a peer is not served, if it is not: pinning is enforced and its
/// credentials are unreadable or not allow-listed.
pub open spec fn peer_refusal(policy: PeerPolicy, peer: Option<PeerCred>) -> Option<Seq<char>> {
    if !policy.pinned() {
        None
    } else {
        match peer {
            Some(cred) => if policy.admits(cred.uid) {
                None
            } else {
                Some("peer not authorized"@)
            },
            None => Some("peer credentials unavailable"@),
        }
    }
}

/// Why a request is not executed, if it is not.
pub open spec fn request_refusal(token: Seq<char>, request: Request) -> Option<Seq<char>> {
    if request.protocol_version != PROTOCOL_VERSION {
        Some("unsupported protocol version"@)
    } else if request.token@ != token {
        Some("unauthenticated"@)
    } else {
        None
    }
}

/// The reply to a refused peer or request.
pub open spec fn refused(detail: Seq<char>) -> protocol::Reply {
    protocol::Reply::failure(Outcome::Unhealthy, detail)
}

/// Whether a response, if any, is the reply to the given refusal, if any.
pub open spec fn refuses(response: Option<Response>, refusal: Option<Seq<char>>) -> bool {
    match refusal {
        Some(detail) => response matches Some(r) && r@ == refused(detail),
        None => response is None,
    }
}

impl<C: SshdControl> HelperServer<C> {
    /// Where the server listens.
    pub closed spec fn socket(self) -> Seq<char> {
        self.socket_path@
    }

    /// The capability token.
    pub closed spec fn token(self) -> Seq<char> {
        self.token@
    }

    /// The operations on offer.
    pub closed spec fn ops(self) -> HelperOps<C> {
        self.ops
    }

    /// The group that is to own the socket, if one was set.
    pub closed spec fn gid(self) -> Option<u32> {
        self.socket_gid
    }

    /// The peer policy.
    pub closed spec fn policy(self) -> PeerPolicy {
        self.peer_policy
    }

    /// Construct a server that will listen at `socket_path`, authenticate with
    /// `token`, and execute `ops`. Uid pinning is disabled.
    pub fn new(socket_path: String, token: String, ops: HelperOps<C>) -> (r: Self)
        ensures
            r.socket() == socket_path@,
            r.token() == token@,
            r.ops() == ops,
            r.gid() is None,
            !r.policy().pinned(),
    {
        HelperServer {
            socket_path,
            token,
            ops,
            socket_gid: None,
            peer_policy: PeerPolicy::unenforced(),
        }
    }

    /// Set the group (by numeric gid) that should own the socket file so the
    /// unprivileged agent's group can connect (mode `0660`). When unset, the
    /// socket keeps its default group (e.g. set via a setgid `RuntimeDirectory`).
    pub fn with_socket_group(self, gid: Option<u32>) -> (r: Self)
        ensures
            r.socket() == self.socket(),
            r.token() == self.token(),
            r.ops() == self.ops(),
            r.gid() == gid,
            r.policy() == self.policy(),
    {
        HelperServer {
            socket_path: self.socket_path,
            token: self.token,
            ops: self.ops,
            socket_gid: gid,
            peer_policy: self.peer_policy,
        }
    }

    /// Set the peer policy.
    pub fn with_peer_policy(self, policy: PeerPolicy) -> (r: Self)
        ensures
            r.socket() == self.socket(),
            r.token() == self.token(),
            r.ops() == self.ops(),
            r.gid() == self.gid(),
            r.policy() == policy,
    {
        HelperServer {
            socket_path: self.socket_path,
            token: self.token,
            ops: self.ops,
            socket_gid: self.socket_gid,
            peer_policy: policy,
        }
    }

    /// Where the server listens.
    pub fn socket_path(&self) -> (r: &str)
        ensures
            r@ == self.socket(),
    {
        self.socket_path.as_str()
    }

    /// The operations on offer.
    pub fn operations(&self) -> (r: &HelperOps<C>)
        ensures
            *r == self.ops(),
    {
        &self.ops
    }

    /// The response to a peer that is not served, if this one is not. `None` as
    /// a peer stands for unreadable credentials, which are refused if pinning is
    /// enforced (fail-closed).
    pub fn refuse_peer(&self, peer: Option<&PeerCred>) -> (r: Option<Response>)
        ensures
            refuses(r, peer_refusal(self.policy(), cred_of(peer))),
    {
        if !self.peer_policy.is_enforced() {
            return None;
        }
        match peer {
            None => Some(Response::failure(Outcome::Unhealthy, "peer credentials unavailable")),
            Some(cred) => match self.peer_policy.authorize(cred) {
                Ok(()) => None,
                Err(_) => Some(Response::failure(Outcome::Unhealthy, "peer not authorized")),
            },
        }
    }

    /// The response to a request that is not executed, if this one is not.
    pub fn authenticate(&self, request: &Request) -> (r: Option<Response>)
        ensures
            refuses(r, request_refusal(self.token(), *request)),
    {
        if request.protocol_version != PROTOCOL_VERSION {
            return Some(Response::failure(Outcome::Unhealthy, "unsupported protocol version"));
        }
        proof {
            lemma_same_bytes(request.token@, self.token@);
        }
        if !protocol::constant_time_eq(
            request.token.as_str().as_bytes(),
            self.token.as_str().as_bytes(),
        ) {
            return Some(Response::failure(Outcome::Unhealthy, "unauthenticated"));
        }
        None
    }

    /// Whether `d` is what becomes of a request from an admitted peer.
    pub open spec fn served(self, request: Request, d: Dispatch) -> bool {
        match request_refusal(self.token(), request) {
            Some(detail) => d matches Dispatch::Replied(response) && response@ == refused(detail),
            None => self.ops().dispatched(request, d),
        }
    }

    /// Whether `d` is what becomes of a request.
    pub open spec fn evaluated(self, peer: Option<PeerCred>, request: Request, d: Dispatch) -> bool {
        match peer_refusal(self.policy(), peer) {
            Some(detail) => d matches Dispatch::Replied(response) && response@ == refused(detail),
            None => self.served(request, d),
        }
    }

    /// Authenticate a request and, if all is well, execute it: the peer first,
    /// then the protocol version, then the capability token.
    pub fn evaluate(&self, peer: Option<&PeerCred>, request: &Request) -> (r: Dispatch)
        ensures
            self.evaluated(cred_of(peer), *request, r),
    {
        match self.refuse_peer(peer) {
            Some(response) => Dispatch::Replied(response),
            None => self.authenticate_and_dispatch(request),
        }
    }

    /// Authenticate a request from an admitted peer and, if all is well, execute
    /// it.
    fn authenticate_and_dispatch(&self, request: &Request) -> (r: Dispatch)
        ensures
            self.served(*request, r),
    {
        match self.authenticate(request) {
            Some(response) => Dispatch::Replied(response),
            None => self.ops.dispatch(request),
        }
    }

    /// Handle one connection: pin the peer before anything it sent is read, then
    /// read one request with `read`, authenticate and execute it. A request that
    /// cannot be read is answered with a protocol error.
    pub fn handle_connection<R: FnOnce() -> Result<Request>>(
        &self,
        peer: Option<&PeerCred>,
        read: R,
    ) -> (r: Dispatch)
        requires
            peer_refusal(self.policy(), cred_of(peer)) is None ==> call_requires(read, ()),
        ensures
            match peer_refusal(self.policy(), cred_of(peer)) {
                Some(detail) => r matches Dispatch::Replied(response) && response@ == refused(
                    detail,
                ),
                None => exists|request: Result<Request>|
                    #[trigger] call_ensures(read, (), request) && match request {
                        Ok(request) => self.served(request, r),
                        Err(_) => r matches Dispatch::Replied(response) && response@ == refused(
                            "protocol error"@,
                        ),
                    },
            },
    {
        match self.refuse_peer(peer) {
            Some(response) => {
                return Dispatch::Replied(response);
            },
            None => {},
        }
        let request = read();
        let ghost seen = request;
        assert(call_ensures(read, (), seen));
        match request {
            Ok(request) => self.authenticate_and_dispatch(&request),
            Err(_) => Dispatch::Replied(Response::failure(Outcome::Unhealthy, "protocol error")),
        }
    }

    /// Begin to bind the socket.
    ///
    /// A stale socket from a previous run is removed, the socket is created
    /// anew, and its permissions are tightened to [`SOCKET_MODE`] before any
    /// request is accepted. Anything else at the socket's path is left alone and
    /// refused.
    pub fn bind(&self) -> (r: BindRun)
        ensures
            r.begins(security::path_parent(self.socket()), self.gid()),
    {
        BindRun::begin(security::parent(self.socket_path.as_str()), self.socket_gid)
    }

    /// The next step of the accept loop, which serves one connection at a time
    /// until it finds the stop flag set, and naps while there is nothing to
    /// accept.
    pub fn run(&self, event: LoopEvent) -> (r: LoopAction)
        ensures
            r == loop_action(event),
    {
        match event {
            LoopEvent::Listening => LoopAction::ReadStopFlag,
            LoopEvent::StopFlag(stop) => if stop {
                LoopAction::RemoveSocket
            } else {
                LoopAction::Accept
            },
            LoopEvent::Accepted(accepted) => match accepted {
                Accepted::Connection => LoopAction::HandleConnection,
                Accepted::WouldBlock => LoopAction::Nap(ACCEPT_POLL_MILLIS),
                Accepted::Failed => LoopAction::Nap(ACCEPT_POLL_MILLIS),
            },
            LoopEvent::Handled => LoopAction::ReadStopFlag,
            LoopEvent::Napped => LoopAction::ReadStopFlag,
            LoopEvent::SocketRemoved => LoopAction::Return,
        }
    }
}

/// Texts are equal if and only if their encodings are.
proof fn lemma_same_bytes(a: Seq<char>, b: Seq<char>)
    ensures
        a == b <==> vstd::utf8::encode_utf8(a) == vstd::utf8::encode_utf8(b),
{
    broadcast use vstd::utf8::encode_utf8_decode_utf8;

    assert(vstd::utf8::decode_utf8(vstd::utf8::encode_utf8(a)) == a);
    assert(vstd::utf8::decode_utf8(vstd::utf8::encode_utf8(b)) == b);
}

// ---------------------------------------------------------------------------
// The accept loop
// ---------------------------------------------------------------------------

/// What came of polling for a connection.
#[derive(Debug, Clone, Copy, PartialEq, Eq, Structural)]
pub enum Accepted {
    /// There is one.
    Connection,
    /// There is none at the moment.
    WouldBlock,
    /// Polling failed.
    Failed,
}

/// What has happened in the accept loop.
#[derive(Debug, Clone, Copy, PartialEq, Eq, Structural)]
pub enum LoopEvent {
    /// The socket has been bound.
    Listening,
    /// The stop flag was read.
    StopFlag(bool),
    /// A connection was polled for.
    Accepted(Accepted),
    /// A connection was handled.
    Handled,
    /// The nap is over.
    Napped,
    /// The socket file was removed, or could not be.
    SocketRemoved,
}

/// What the accept loop does next.
#[derive(Debug, Clone, Copy, PartialEq, Eq, Structural)]
pub enum LoopAction {
    /// Read the stop flag.
    ReadStopFlag,
    /// Poll for a connection.
    Accept,
    /// Handle the connection.
    HandleConnection,
    /// Sleep for so many milliseconds.
    Nap(u64),
    /// Remove the socket file.
    RemoveSocket,
    /// Leave the loop.
    Return,
}

/// The next step of the accept loop.
pub open spec fn loop_action(event: LoopEvent) -> LoopAction {
    match event {
        LoopEvent::Listening => LoopAction::ReadStopFlag,
        LoopEvent::StopFlag(true) => LoopAction::RemoveSocket,
        LoopEvent::StopFlag(false) => LoopAction::Accept,
        LoopEvent::Accepted(Accepted::Connection) => LoopAction::HandleConnection,
        LoopEvent::Accepted(_) => LoopAction::Nap(ACCEPT_POLL_MILLIS),
        LoopEvent::Handled => LoopAction::ReadStopFlag,
        LoopEvent::Napped => LoopAction::ReadStopFlag,
        LoopEvent::SocketRemoved => LoopAction::Return,
    }
}

/// Once the stop flag is found set, no further connection is accepted: the socket
/// is removed and the loop left. Whatever came of a poll, the flag is read again
/// before the next one.
pub proof fn stop_flag_is_heeded(accepted: Accepted)
    ensures
        loop_action(LoopEvent::StopFlag(true)) == LoopAction::RemoveSocket,
        loop_action(LoopEvent::SocketRemoved) == LoopAction::Return,
        match loop_action(LoopEvent::Accepted(accepted)) {
            LoopAction::HandleConnection => loop_action(LoopEvent::Handled)
                == LoopAction::ReadStopFlag,
            LoopAction::Nap(_) => loop_action(LoopEvent::Napped) == LoopAction::ReadStopFlag,
            _ => false,
        },
{
}

// ---------------------------------------------------------------------------
// Binding
// ---------------------------------------------------------------------------

/// A system call on the way to a bound socket.
#[derive(Debug, Clone, Copy, PartialEq, Eq, Structural)]
pub enum BindAction {
    /// Tell whether the socket's directory exists.
    ParentExists,
    /// Create the socket's directory and its parents.
    CreateParent,
    /// `lstat` the socket's path.
    LstatSocket,
    /// Remove the file at the socket's path.
    RemoveSocket,
    /// Create the socket and listen on it.
    Bind,
    /// Give the socket to this group.
    SetGroup(u32),
    /// Set the socket's permission bits.
    SetMode(u32),
}

/// The answer to a [`BindAction`].
#[derive(Debug)]
pub enum BindEvent {
    /// Answers [`BindAction::ParentExists`].
    Exists(bool),
    /// Answers [`BindAction::LstatSocket`].
    Stat(Attempt<FileMeta>),
    /// Answers all the others.
    Done(Attempt<()>),
}

/// How far binding has come.
#[derive(Debug)]
pub enum BindStage {
    /// The next system call to make.
    At(BindAction),
    /// Nothing is left to do.
    Finished(Result<()>),
}

/// The binding of a socket under way. The caller performs the action at hand and
/// reports its answer to [`BindRun::step`], until binding has finished.
#[derive(Debug)]
pub struct BindRun {
    /// The group that is to own the socket, if any.
    pub gid: Option<u32>,
    /// How far binding has come.
    pub stage: BindStage,
}

/// The verdict on what is found at the socket's path: a stale socket is to be
/// removed, nothing is fine, and anything else is refused.
pub open spec fn stale_socket(stat: Attempt<FileMeta>) -> Result<bool> {
    match stat {
        Attempt::Done(meta) => if meta.kind == FileKind::Socket {
            Ok(true)
        } else {
            Err(Error::InvalidPath)
        },
        Attempt::Missing(_) => Ok(false),
        Attempt::Failed(e) => Err(Error::Io(e)),
    }
}

/// `action` next if all is well, the end otherwise.
pub open spec fn bind_on(verdict: Result<()>, action: BindAction) -> BindStage {
    match verdict {
        Ok(()) => BindStage::At(action),
        Err(e) => BindStage::Finished(Err(e)),
    }
}

impl BindRun {
    /// Whether this is a run that has just begun. A socket's directory without a
    /// name is not looked at.
    pub open spec fn begins(self, parent: Option<Seq<char>>, gid: Option<u32>) -> bool {
        &&& self.gid == gid
        &&& self.stage == BindStage::At(
            if security::parent_verdict(parent) is Ok {
                BindAction::ParentExists
            } else {
                BindAction::LstatSocket
            },
        )
    }

    /// The stage after an answer. One to something else changes nothing.
    pub open spec fn next_stage(self, event: BindEvent) -> BindStage {
        match (self.stage, event) {
            (BindStage::At(BindAction::ParentExists), BindEvent::Exists(exists)) => BindStage::At(
                if exists {
                    BindAction::LstatSocket
                } else {
                    BindAction::CreateParent
                },
            ),
            (BindStage::At(BindAction::CreateParent), BindEvent::Done(attempt)) => bind_on(
                security::required(attempt),
                BindAction::LstatSocket,
            ),
            (BindStage::At(BindAction::LstatSocket), BindEvent::Stat(stat)) => match stale_socket(
                stat,
            ) {
                Ok(true) => BindStage::At(BindAction::RemoveSocket),
                Ok(false) => BindStage::At(BindAction::Bind),
                Err(e) => BindStage::Finished(Err(e)),
            },
            (BindStage::At(BindAction::RemoveSocket), BindEvent::Done(attempt)) => bind_on(
                ops::run::removal(attempt),
                BindAction::Bind,
            ),
            (BindStage::At(BindAction::Bind), BindEvent::Done(attempt)) => bind_on(
                security::required(attempt),
                match self.gid {
                    Some(gid) => BindAction::SetGroup(gid),
                    None => BindAction::SetMode(SOCKET_MODE),
                },
            ),
            (BindStage::At(BindAction::SetGroup(_)), BindEvent::Done(attempt)) => bind_on(
                security::required(attempt),
                BindAction::SetMode(SOCKET_MODE),
            ),
            (BindStage::At(BindAction::SetMode(_)), BindEvent::Done(attempt)) => {
                BindStage::Finished(security::required(attempt))
            },
            _ => self.stage,
        }
    }

    /// The run after an answer.
    pub open spec fn next(self, event: BindEvent) -> BindRun {
        BindRun { gid: self.gid, stage: self.next_stage(event) }
    }

    /// Begin to bind a socket in the given directory.
    pub fn begin(parent: Option<String>, gid: Option<u32>) -> (r: Self)
        ensures
            r.begins(protocol::chars_of(parent), gid),
    {
        let action = match security::usable_parent(parent) {
            Ok(_) => BindAction::ParentExists,
            Err(_) => BindAction::LstatSocket,
        };
        BindRun { gid, stage: BindStage::At(action) }
    }

    /// Take note of the answer to the action at hand.
    pub fn step(self, event: BindEvent) -> (r: Self)
        ensures
            r == self.next(event),
    {
        let gid = self.gid;
        let stage = match (self.stage, event) {
            (BindStage::At(BindAction::ParentExists), BindEvent::Exists(exists)) => if exists {
                BindStage::At(BindAction::LstatSocket)
            } else {
                BindStage::At(BindAction::CreateParent)
            },
            (BindStage::At(BindAction::CreateParent), BindEvent::Done(attempt)) => go_on(
                security::require(attempt),
                BindAction::LstatSocket,
            ),
            (BindStage::At(BindAction::LstatSocket), BindEvent::Stat(stat)) => match stat {
                Attempt::Done(meta) => match meta.kind {
                    FileKind::Socket => BindStage::At(BindAction::RemoveSocket),
                    _ => BindStage::Finished(Err(Error::InvalidPath)),
                },
                Attempt::Missing(_) => BindStage::At(BindAction::Bind),
                Attempt::Failed(e) => BindStage::Finished(Err(Error::Io(e))),
            },
            (BindStage::At(BindAction::RemoveSocket), BindEvent::Done(attempt)) => go_on(
                ops::run::remove_optional(attempt),
                BindAction::Bind,
            ),
            (BindStage::At(BindAction::Bind), BindEvent::Done(attempt)) => go_on(
                security::require(attempt),
                match gid {
                    Some(gid) => BindAction::SetGroup(gid),
                    None => BindAction::SetMode(SOCKET_MODE),
                },
            ),
            (BindStage::At(BindAction::SetGroup(_)), BindEvent::Done(attempt)) => go_on(
                security::require(attempt),
                BindAction::SetMode(SOCKET_MODE),
            ),
            (BindStage::At(BindAction::SetMode(_)), BindEvent::Done(attempt)) => {
                BindStage::Finished(security::require(attempt))
            },
            (stage, _) => stage,
        };
        BindRun { gid, stage }
    }
}

/// `action` if all is well, the end otherwise.
fn go_on(verdict: Result<()>, action: BindAction) -> (r: BindStage)
    ensures
        r == bind_on(verdict, action),
{
    match verdict {
        Ok(()) => BindStage::At(action),
        Err(e) => BindStage::Finished(Err(e)),
    }
}

// ---------------------------------------------------------------------------
// Laws
// ---------------------------------------------------------------------------

/// No operation is started for a request that was not authenticated: the peer's
/// uid is allow-listed if pinning is enforced, the protocol version is the
/// supported one, and the token is the capability token.
pub proof fn only_authenticated_requests_run<C: SshdControl>(
    server: HelperServer<C>,
    peer: Option<PeerCred>,
    request: Request,
    d: Dispatch,
)
    requires
        server.evaluated(peer, request, d),
        d is Running,
    ensures
        server.policy().pinned() ==> (peer matches Some(cred) && server.policy().allow_list().contains(
            cred.uid,
        )),
        request.protocol_version == PROTOCOL_VERSION,
        request.token@ == server.token(),
{
}

/// A refused request is answered as unhealthy, with a detail, and is told
/// nothing else.
pub proof fn refusals_say_why<C: SshdControl>(
    server: HelperServer<C>,
    peer: Option<PeerCred>,
    request: Request,
    d: Dispatch,
)
    requires
        server.evaluated(peer, request, d),
        peer_refusal(server.policy(), peer) is Some || request_refusal(server.token(), request)
            is Some,
    ensures
        d matches Dispatch::Replied(response) && !response@.ok && response@.outcome
            == Outcome::Unhealthy && response@.detail is Some && response@.helper_version is None,
{
}

/// Whatever the request holds, an answer that comes at once holds no text but
/// fixed ones: nothing of the token, of the content, or of a path.
pub proof fn answers_are_fixed<C: SshdControl>(
    server: HelperServer<C>,
    peer: Option<PeerCred>,
    request: Request,
    response: Response,
)
    requires
        server.evaluated(peer, request, Dispatch::Replied(response)),
    ensures
        ops::laws::fixed_reply(response@),
        ops::laws::path_free(response@),
{
    ops::laws::fixed_replies_are_path_free(response@);
}

/// Only the uid of a peer decides whether it is served: its group and process ids
/// are no authorization input.
pub proof fn only_the_uid_matters(policy: PeerPolicy, one: PeerCred, other: PeerCred)
    requires
        one.uid == other.uid,
    ensures
        peer_refusal(policy, Some(one)) == peer_refusal(policy, Some(other)),
{
}

/// A peer that is refused is refused whatever it sends.
pub proof fn peer_comes_first<C: SshdControl>(
    server: HelperServer<C>,
    peer: Option<PeerCred>,
    one: Request,
    other: Request,
    d1: Dispatch,
    d2: Dispatch,
)
    requires
        peer_refusal(server.policy(), peer) is Some,
        server.evaluated(peer, one, d1),
        server.evaluated(peer, other, d2),
    ensures
        d1 matches Dispatch::Replied(r1) && d2 matches Dispatch::Replied(r2) && r1@ == r2@,
{
}

/// The file at the socket's path is removed only if it was found to be a socket.
pub proof fn only_sockets_are_removed(run: BindRun, event: BindEvent)
    requires
        run.stage != BindStage::At(BindAction::RemoveSocket),
        run.next(event).stage == BindStage::At(BindAction::RemoveSocket),
    ensures
        event matches BindEvent::Stat(Attempt::Done(meta)) && meta.kind == FileKind::Socket,
{
}

/// Whether `events`, one after the other, bring a run to a bound socket that has
/// its group, if one was set, and its permission bits, in this order and as the
/// last things done.
pub open spec fn tightens(run: BindRun, events: Seq<BindEvent>) -> bool
    decreases events.len(),
{
    if run.stage == BindStage::At(BindAction::Bind) {
        let bound = run.next(events[0]);
        match run.gid {
            None => {
                &&& events.len() == 2
                &&& bound.stage == BindStage::At(BindAction::SetMode(SOCKET_MODE))
                &&& events[1] matches BindEvent::Done(Attempt::Done(_))
            },
            Some(gid) => {
                let grouped = bound.next(events[1]);
                &&& events.len() == 3
                &&& bound.stage == BindStage::At(BindAction::SetGroup(gid))
                &&& grouped.stage == BindStage::At(BindAction::SetMode(SOCKET_MODE))
                &&& events[2] matches BindEvent::Done(Attempt::Done(_))
            },
        }
    } else {
        events.len() > 0 && tightens(run.next(events[0]), events.skip(1))
    }
}

/// Whether each of `events` answers what is asked for.
pub open spec fn answers(run: BindRun, events: Seq<BindEvent>) -> bool
    decreases events.len(),
{
    events.len() > 0 ==> {
        &&& match run.stage {
            BindStage::At(BindAction::ParentExists) => events[0] is Exists,
            BindStage::At(BindAction::LstatSocket) => events[0] is Stat,
            BindStage::At(_) => events[0] is Done,
            BindStage::Finished(_) => false,
        }
        &&& answers(run.next(events[0]), events.skip(1))
    }
}

/// The run after `events`.
pub open spec fn bind_after(run: BindRun, events: Seq<BindEvent>) -> BindRun
    decreases events.len(),
{
    if events.len() == 0 {
        run
    } else {
        bind_after(run.next(events[0]), events.skip(1))
    }
}

/// The greatest number of answers that binding still takes.
pub open spec fn bind_rank(run: BindRun) -> nat {
    match run.stage {
        BindStage::At(BindAction::ParentExists) => 7,
        BindStage::At(BindAction::CreateParent) => 6,
        BindStage::At(BindAction::LstatSocket) => 5,
        BindStage::At(BindAction::RemoveSocket) => 4,
        BindStage::At(BindAction::Bind) => 3,
        BindStage::At(BindAction::SetGroup(_)) => 2,
        BindStage::At(BindAction::SetMode(_)) => 1,
        BindStage::Finished(_) => 0,
    }
}

/// Binding succeeds only with a socket whose group, if one was set, and whose
/// permission bits have been set after it was created. It takes seven answers at
/// most.
pub proof fn bound_socket_is_tightened(run: BindRun, events: Seq<BindEvent>)
    requires
        bind_rank(run) >= 3,
        answers(run, events),
    ensures
        bind_after(run, events).stage matches BindStage::Finished(Ok(_)) ==> tightens(run, events),
        events.len() <= bind_rank(run) <= 7,
    decreases events.len(),
{
    if events.len() > 0 {
        let next = run.next(events[0]);
        let rest = events.skip(1);
        if bind_rank(next) >= 3 {
            bound_socket_is_tightened(next, rest);
        } else {
            reveal_with_fuel(answers, 2);
            lemma_bind_end(next, rest);
            if rest.len() > 0 {
                assert(rest[0] == events[1]);
                lemma_bind_end(next.next(rest[0]), rest.skip(1));
                if rest.len() > 1 {
                    assert(rest.skip(1)[0] == events[2]);
                }
            }
        }
    }
}

/// The last stages of binding.
proof fn lemma_bind_end(run: BindRun, events: Seq<BindEvent>)
    requires
        bind_rank(run) <= 2,
        answers(run, events),
    ensures
        events.len() <= bind_rank(run),
        bind_after(run, events).stage matches BindStage::Finished(Ok(_)) ==> {
            ||| run.stage matches BindStage::Finished(Ok(_))
            ||| run.stage is At && events.len() == bind_rank(run) && forall|i: int|
                0 <= i < events.len() ==> (#[trigger] events[i] matches BindEvent::Done(
                    Attempt::Done(_),
                ))
        },
    decreases events.len(),
{
    if events.len() > 0 {
        let rest = events.skip(1);
        lemma_bind_end(run.next(events[0]), rest);
        assert forall|i: int| 0 < i < events.len() implies #[trigger] events[i] == rest[i - 1] by {}
    }
}

// ---------------------------------------------------------------------------
// What the server does with a connection
// ---------------------------------------------------------------------------

/// Whether a request was turned away: answered at once as unhealthy, with the
/// given detail and nothing else.
pub open spec fn turned_away(d: Dispatch, detail: Seq<char>) -> bool {
    &&& d matches Dispatch::Replied(response)
    &&& !response@.ok
    &&& response@.outcome == Outcome::Unhealthy
    &&& response@.helper_version is None
    &&& response@.detail == Some(detail)
}

/// A request is turned away for its peer first, then for its protocol version,
/// then for its token; one that has no fault in any of these is carried out.
pub proof fn requests_are_checked_in_order<C: SshdControl>(
    server: HelperServer<C>,
    peer: Option<&PeerCred>,
    request: Request,
    d: Dispatch,
)
    requires
        call_ensures(HelperServer::<C>::evaluate, (&server, peer, &request), d),
    ensures
        if server.policy().pinned() && peer is None {
            turned_away(d, "peer credentials unavailable"@)
        } else if server.policy().pinned() && !server.policy().allow_list().contains(peer->0.uid) {
            turned_away(d, "peer not authorized"@)
        } else if request.protocol_version != 1 {
            turned_away(d, "unsupported protocol version"@)
        } else if request.token@ != server.token() {
            turned_away(d, "unauthenticated"@)
        } else {
            server.ops().dispatched(request, d)
        },
{
}

/// What a peer is turned away with before anything it sent is read, and what a
/// request is turned away with; nothing, if there is no fault.
pub proof fn refusals_are_exact<C: SshdControl>(
    server: HelperServer<C>,
    peer: Option<&PeerCred>,
    request: Request,
    to_peer: Option<Response>,
    to_request: Option<Response>,
)
    requires
        call_ensures(HelperServer::<C>::refuse_peer, (&server, peer), to_peer),
        call_ensures(HelperServer::<C>::authenticate, (&server, &request), to_request),
    ensures
        to_peer is None <==> !server.policy().pinned() || (peer matches Some(cred)
            && server.policy().allow_list().contains(cred.uid)),
        to_peer matches Some(r) ==> turned_away(
            Dispatch::Replied(r),
            if peer is None {
                "peer credentials unavailable"@
            } else {
                "peer not authorized"@
            },
        ),
        to_request is None <==> request.protocol_version == 1 && request.token@ == server.token(),
        to_request matches Some(r) ==> turned_away(
            Dispatch::Replied(r),
            if request.protocol_version != 1 {
                "unsupported protocol version"@
            } else {
                "unauthenticated"@
            },
        ),
{
}

/// One connection: a peer that is refused is turned away unread; a request that
/// cannot be read is turned away as a protocol error; any other is turned away for
/// its version or its token, or carried out.
pub proof fn connections_are_served_one_request<C: SshdControl, R: FnOnce() -> Result<Request>>(
    server: HelperServer<C>,
    peer: Option<&PeerCred>,
    read: R,
    received: Result<Request>,
    d: Dispatch,
)
    requires
        call_ensures(HelperServer::<C>::handle_connection::<R>, (&server, peer, read), d),
        forall|r: Result<Request>| #[trigger] call_ensures(read, (), r) ==> r == received,
    ensures
        if server.policy().pinned() && peer is None {
            turned_away(d, "peer credentials unavailable"@)
        } else if server.policy().pinned() && !server.policy().allow_list().contains(peer->0.uid) {
            turned_away(d, "peer not authorized"@)
        } else {
            match received {
                Err(_) => turned_away(d, "protocol error"@),
                Ok(request) => if request.protocol_version != 1 {
                    turned_away(d, "unsupported protocol version"@)
                } else if request.token@ != server.token() {
                    turned_away(d, "unauthenticated"@)
                } else {
                    server.ops().dispatched(request, d)
                },
            }
        },
{
}

/// A new server has what it was made from, no socket group, and serves every peer;
/// setting the group or the policy changes nothing else.
pub proof fn settings_are_independent<C: SshdControl>(
    socket: String,
    token: String,
    ops: HelperOps<C>,
    made: HelperServer<C>,
    server: HelperServer<C>,
    gid: Option<u32>,
    grouped: HelperServer<C>,
    policy: PeerPolicy,
    pinned: HelperServer<C>,
    path: &str,
    operations: &HelperOps<C>,
)
    requires
        call_ensures(HelperServer::<C>::new, (socket, token, ops), made),
        call_ensures(HelperServer::<C>::with_socket_group, (server, gid), grouped),
        call_ensures(HelperServer::<C>::with_peer_policy, (server, policy), pinned),
        call_ensures(HelperServer::<C>::socket_path, (&server,), path),
        call_ensures(HelperServer::<C>::operations, (&server,), operations),
    ensures
        made.socket() == socket@ && made.token() == token@ && made.ops() == ops,
        made.gid() is None && !made.policy().pinned(),
        grouped.socket() == server.socket() && grouped.token() == server.token() && grouped.ops()
            == server.ops() && grouped.policy() == server.policy(),
        grouped.gid() == gid,
        pinned.socket() == server.socket() && pinned.token() == server.token() && pinned.ops()
            == server.ops() && pinned.gid() == server.gid(),
        pinned.policy() == policy,
        path@ == server.socket(),
        *operations == server.ops(),
{
}

/// The accept loop reads the stop flag before it accepts anything and after every
/// connection and every nap, accepts only while the flag is not set, handles every
/// connection it gets, naps for 100 milliseconds if there is none, and once the
/// flag is set removes the socket and returns.
pub proof fn loop_follows_the_flag<C: SshdControl>(
    server: HelperServer<C>,
    event: LoopEvent,
    action: LoopAction,
)
    requires
        call_ensures(HelperServer::<C>::run, (&server, event), action),
    ensures
        action == LoopAction::Accept <==> event == LoopEvent::StopFlag(false),
        action == LoopAction::RemoveSocket <==> event == LoopEvent::StopFlag(true),
        action == LoopAction::HandleConnection <==> event == LoopEvent::Accepted(
            Accepted::Connection,
        ),
        action is Nap <==> event == LoopEvent::Accepted(Accepted::WouldBlock) || event
            == LoopEvent::Accepted(Accepted::Failed),
        action is Nap ==> action == LoopAction::Nap(100),
        action == LoopAction::ReadStopFlag <==> event == LoopEvent::Listening || event
            == LoopEvent::Handled || event == LoopEvent::Napped,
        action == LoopAction::Return <==> event == LoopEvent::SocketRemoved,
{
}

// ---------------------------------------------------------------------------
// How binding goes
// ---------------------------------------------------------------------------

/// Binding begins with the socket's directory, if that has a name, and with the
/// socket's path otherwise; it is for the group that was set.
pub proof fn binding_begins_with_the_directory<C: SshdControl>(
    server: HelperServer<C>,
    run: BindRun,
    directory: Option<String>,
    gid: Option<u32>,
    begun: BindRun,
)
    requires
        call_ensures(HelperServer::<C>::bind, (&server,), run),
        call_ensures(BindRun::begin, (directory, gid), begun),
    ensures
        run.gid == server.gid(),
        run.stage == BindStage::At(
            match security::path_parent(server.socket()) {
                Some(dir) => if dir.len() > 0 {
                    BindAction::ParentExists
                } else {
                    BindAction::LstatSocket
                },
                None => BindAction::LstatSocket,
            },
        ),
        begun.gid == gid,
        begun.stage == BindStage::At(
            match directory {
                Some(dir) => if dir@.len() > 0 {
                    BindAction::ParentExists
                } else {
                    BindAction::LstatSocket
                },
                None => BindAction::LstatSocket,
            },
        ),
{
}

/// Whether an event answers what is asked for.
pub open spec fn answered(run: BindRun, event: BindEvent) -> bool {
    match run.stage {
        BindStage::At(BindAction::ParentExists) => event is Exists,
        BindStage::At(BindAction::LstatSocket) => event is Stat,
        BindStage::At(_) => event is Done,
        BindStage::Finished(_) => false,
    }
}

/// The error that an answer amounts to, if it is the report of a failure: what the
/// operating system said, or that the path is taken by something that is no
/// socket. A path that is missing is no failure when it is looked at or removed.
pub open spec fn bind_failure(run: BindRun, event: BindEvent) -> Option<Error> {
    match event {
        BindEvent::Exists(_) => None,
        BindEvent::Stat(Attempt::Done(meta)) => if meta.kind is Socket {
            None
        } else {
            Some(Error::InvalidPath)
        },
        BindEvent::Stat(Attempt::Missing(_)) => None,
        BindEvent::Stat(Attempt::Failed(e)) => Some(Error::Io(e)),
        BindEvent::Done(Attempt::Done(_)) => None,
        BindEvent::Done(Attempt::Missing(e)) => if run.stage == BindStage::At(
            BindAction::RemoveSocket,
        ) {
            None
        } else {
            Some(Error::Io(e))
        },
        BindEvent::Done(Attempt::Failed(e)) => Some(Error::Io(e)),
    }
}

/// Binding ends with the first failure and with its error, and with success once
/// the permission bits are set; before that, and only then, it goes on. What does
/// not answer the step at hand changes nothing.
pub proof fn binding_fails_with_the_first_failure(run: BindRun, event: BindEvent, next: BindRun)
    requires
        call_ensures(BindRun::step, (run, event), next),
    ensures
        next == run.next(event),
        next.gid == run.gid,
        !answered(run, event) ==> next == run,
        answered(run, event) ==> match bind_failure(run, event) {
            Some(e) => next.stage == BindStage::Finished(Err(e)),
            None => match run.stage {
                BindStage::At(BindAction::SetMode(_)) => next.stage matches BindStage::Finished(
                    Ok(_),
                ),
                _ => next.stage is At,
            },
        },
{
}

/// On the way to a bound socket: its directory is created if and only if it does
/// not exist; whatever is at its path is looked at before the socket is created,
/// and removed if and only if it is a socket; the new socket gets its group, if
/// one was set, and mode `0660`.
pub proof fn binding_takes_its_steps_in_order(run: BindRun, event: BindEvent)
    requires
        answered(run, event),
        bind_failure(run, event) is None,
    ensures
        run.stage == BindStage::At(BindAction::ParentExists) ==> run.next(event).stage
            == BindStage::At(
            if event == BindEvent::Exists(true) {
                BindAction::LstatSocket
            } else {
                BindAction::CreateParent
            },
        ),
        run.stage == BindStage::At(BindAction::CreateParent) ==> run.next(event).stage
            == BindStage::At(BindAction::LstatSocket),
        run.stage == BindStage::At(BindAction::LstatSocket) ==> run.next(event).stage
            == BindStage::At(
            if event matches BindEvent::Stat(Attempt::Done(_)) {
                BindAction::RemoveSocket
            } else {
                BindAction::Bind
            },
        ),
        run.stage == BindStage::At(BindAction::RemoveSocket) ==> run.next(event).stage
            == BindStage::At(BindAction::Bind),
        run.stage == BindStage::At(BindAction::Bind) ==> run.next(event).stage == BindStage::At(
            match run.gid {
                Some(gid) => BindAction::SetGroup(gid),
                None => BindAction::SetMode(0o660),
            },
        ),
        run.stage matches BindStage::At(BindAction::SetGroup(_)) ==> run.next(event).stage
            == BindStage::At(BindAction::SetMode(0o660)),
{
}

/// Whether all of `events` are answers that report no failure.
pub open spec fn none_fails(run: BindRun, events: Seq<BindEvent>) -> bool
    decreases events.len(),
{
    events.len() > 0 ==> {
        &&& bind_failure(run, events[0]) is None
        &&& none_fails(run.next(events[0]), events.skip(1))
    }
}

/// Binding that has ended without a failure on the way has succeeded.
pub proof fn binding_succeeds_on_a_fit_host(run: BindRun, events: Seq<BindEvent>)
    requires
        run.stage is At,
        answers(run, events),
        none_fails(run, events),
    ensures
        bind_after(run, events).stage matches BindStage::Finished(result) ==> result is Ok,
    decreases events.len(),
{
    if events.len() > 0 {
        let next = run.next(events[0]);
        let rest = events.skip(1);
        if next.stage is At {
            binding_succeeds_on_a_fit_host(next, rest);
        } else {
            assert(answers(next, rest));
            assert(rest.len() == 0);
            assert(bind_after(next, rest) == next);
        }
    }
}

} // verus!
