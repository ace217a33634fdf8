//! Authentication, binding and the accept loop.

use mayfly_helper::errors::{Error, Result};
use mayfly_helper::ops::{Dispatch, HelperOps, OpsConfig};
use mayfly_helper::peercred::{PeerCred, PeerPolicy};
use mayfly_helper::protocol::{
    Operation, Outcome, Request, Response, HELPER_VERSION, PROTOCOL_VERSION,
};
use mayfly_helper::security::{Attempt, FileKind, FileMeta};
use mayfly_helper::server::{
    Accepted, BindAction, BindEvent, BindRun, BindStage, HelperServer, LoopAction, LoopEvent,
    ACCEPT_POLL_MILLIS, IO_TIMEOUT_SECS, SOCKET_MODE,
};
use mayfly_helper::sshd_control::SshdControl;

const TOKEN: &str = "correct-horse-battery-staple";

/// A trivially healthy `SshdControl`.
struct MockSshd;

impl SshdControl for MockSshd {
    fn validate_config(&self) -> Result<()> {
        Ok(())
    }
    fn reload(&self) -> Result<()> {
        Ok(())
    }
    fn is_active(&self) -> Result<()> {
        Ok(())
    }
}

fn server() -> HelperServer<MockSshd> {
    let ops = HelperOps::new(
        OpsConfig {
            trusted_ca_path: "/t/etc/ssh/mayfly/trusted_user_ca_keys".to_string(),
            dropin_path: "/t/etc/ssh/sshd_config.d/90-mayfly.conf".to_string(),
            main_sshd_config: "/t/etc/ssh/sshd_config".to_string(),
        },
        MockSshd,
    );
    HelperServer::new("/t/helper.sock".to_string(), TOKEN.to_string(), ops)
}

fn reply(dispatch: Dispatch) -> Response {
    match dispatch {
        Dispatch::Replied(response) => response,
        Dispatch::Running(_) => panic!("an operation was started"),
    }
}

fn io(kind: std::io::ErrorKind) -> std::io::Error {
    std::io::Error::new(kind, "host")
}

// --- Pure decision (`evaluate`) -------------------------------------------

#[test]
fn evaluate_accepts_valid_ping() {
    let server = server();
    let resp = reply(server.evaluate(None, &Request::new(TOKEN, Operation::Ping)));
    assert!(resp.ok);
}

#[test]
fn evaluate_rejects_unsupported_version() {
    let server = server();
    let mut req = Request::new(TOKEN, Operation::Ping);
    req.protocol_version = PROTOCOL_VERSION + 1;
    let resp = reply(server.evaluate(None, &req));
    assert!(!resp.ok);
    assert_eq!(resp.detail.as_deref(), Some("unsupported protocol version"));
}

#[test]
fn evaluate_rejects_bad_token() {
    let server = server();
    let resp = reply(server.evaluate(None, &Request::new("wrong-token", Operation::Ping)));
    assert!(!resp.ok);
    assert_eq!(resp.detail.as_deref(), Some("unauthenticated"));
}

#[test]
fn evaluate_enforced_rejects_disallowed_peer() {
    let server = server().with_peer_policy(PeerPolicy::enforced(vec![1000]));
    let intruder = PeerCred {
        uid: 1234,
        gid: 1234,
        pid: 9,
    };
    let resp = reply(server.evaluate(Some(&intruder), &Request::new(TOKEN, Operation::Ping)));
    assert!(!resp.ok);
    assert_eq!(resp.detail.as_deref(), Some("peer not authorized"));
}

#[test]
fn evaluate_enforced_admits_allowed_peer() {
    let server = server().with_peer_policy(PeerPolicy::enforced(vec![1000]));
    let agent = PeerCred {
        uid: 1000,
        gid: 1000,
        pid: 9,
    };
    let resp = reply(server.evaluate(Some(&agent), &Request::new(TOKEN, Operation::Ping)));
    assert!(resp.ok);
}

#[test]
fn evaluate_enforced_fails_closed_without_peer_cred() {
    let server = server().with_peer_policy(PeerPolicy::enforced(vec![1000]));
    // Pinning required but credentials unreadable -> reject.
    let resp = reply(server.evaluate(None, &Request::new(TOKEN, Operation::Ping)));
    assert!(!resp.ok);
    assert_eq!(resp.detail.as_deref(), Some("peer credentials unavailable"));
}

#[test]
fn evaluate_unenforced_admits_without_peer_cred() {
    let server = server(); // unenforced by default
    let resp = reply(server.evaluate(None, &Request::new(TOKEN, Operation::Ping)));
    assert!(resp.ok);
}

#[test]
fn round_trip_ping_returns_version() {
    let server = server();
    let resp = reply(
        server.handle_connection(None, || Ok(Request::new(TOKEN, Operation::Ping))),
    );
    assert!(resp.ok);
    assert_eq!(resp.helper_version.as_deref(), Some(HELPER_VERSION));
}

#[test]
fn round_trip_rejects_bad_token_over_socket() {
    let server = server();
    let resp = reply(
        server.handle_connection(None, || Ok(Request::new("nope", Operation::Ping))),
    );
    assert!(!resp.ok);
    assert_eq!(resp.detail.as_deref(), Some("unauthenticated"));
}

#[test]
fn malformed_frame_gets_protocol_error_response() {
    let server = server();
    let resp = reply(server.handle_connection(None, || Err(Error::HelperProtocol)));
    assert!(!resp.ok);
    assert_eq!(resp.outcome, Outcome::Unhealthy);
    assert_eq!(resp.detail.as_deref(), Some("protocol error"));
}

#[test]
fn refused_peer_is_not_read_from() {
    let server = server().with_peer_policy(PeerPolicy::enforced(vec![1000]));
    let resp = reply(server.handle_connection(None, || panic!("read")));
    assert_eq!(resp.detail.as_deref(), Some("peer credentials unavailable"));
}

#[test]
fn version_is_checked_before_the_token() {
    let server = server();
    let mut req = Request::new("wrong", Operation::VerifyState);
    req.protocol_version = 0;
    let resp = reply(server.evaluate(None, &req));
    assert_eq!(resp.detail.as_deref(), Some("unsupported protocol version"));
    assert_eq!(resp.outcome, Outcome::Unhealthy);
}

#[test]
fn authenticated_operation_is_started() {
    let server = server();
    let d = server.evaluate(None, &Request::new(TOKEN, Operation::VerifyState));
    assert!(matches!(d, Dispatch::Running(_)));
    for (token, version) in [("", PROTOCOL_VERSION), (TOKEN, 2)] {
        let mut req = Request::new(token, Operation::VerifyState);
        req.protocol_version = version;
        assert!(matches!(server.evaluate(None, &req), Dispatch::Replied(_)));
    }
}

#[test]
fn token_prefix_is_not_enough() {
    let server = server();
    for token in [&TOKEN[..TOKEN.len() - 1], "Correct-horse-battery-staple"] {
        let resp = reply(server.evaluate(None, &Request::new(token, Operation::Ping)));
        assert_eq!(resp.detail.as_deref(), Some("unauthenticated"));
    }
}

// --- Socket lifecycle ------------------------------------------------------

/// Follow a binding on a host where the socket's path stats as `stat`; returns
/// the result and the actions performed.
fn bind(run: BindRun, stat: Attempt<FileMeta>) -> (Result<()>, Vec<BindAction>) {
    let mut run = run;
    let mut stat = Some(stat);
    let mut performed = Vec::new();
    loop {
        let action = match run.stage {
            BindStage::At(action) => action,
            BindStage::Finished(result) => return (result, performed),
        };
        performed.push(action);
        let event = match action {
            BindAction::ParentExists => BindEvent::Exists(false),
            BindAction::LstatSocket => BindEvent::Stat(stat.take().unwrap()),
            _ => BindEvent::Done(Attempt::Done(())),
        };
        run = BindRun {
            gid: run.gid,
            stage: BindStage::At(action),
        }
        .step(event);
    }
}

fn of_kind(kind: FileKind) -> Attempt<FileMeta> {
    Attempt::Done(FileMeta {
        kind,
        uid: 0,
        mode: 0o660,
    })
}

#[test]
fn bind_refuses_non_socket_path() {
    // Anything but a socket where the socket should go; bind must refuse it
    // rather than delete it.
    for kind in [FileKind::Other, FileKind::Symlink] {
        let (result, performed) = bind(server().bind(), of_kind(kind));
        assert!(matches!(result.unwrap_err(), Error::InvalidPath));
        assert!(!performed.contains(&BindAction::RemoveSocket));
    }
}

#[test]
fn bind_replaces_stale_socket() {
    let (result, performed) = bind(server().bind(), of_kind(FileKind::Socket));
    result.unwrap();
    assert_eq!(
        performed,
        vec![
            BindAction::ParentExists,
            BindAction::CreateParent,
            BindAction::LstatSocket,
            BindAction::RemoveSocket,
            BindAction::Bind,
            BindAction::SetMode(0o660),
        ]
    );
}

#[test]
fn bind_sets_group_before_mode() {
    let gone = Attempt::Missing(io(std::io::ErrorKind::NotFound));
    let (result, performed) = bind(server().with_socket_group(Some(42)).bind(), gone);
    result.unwrap();
    assert_eq!(
        performed,
        vec![
            BindAction::ParentExists,
            BindAction::CreateParent,
            BindAction::LstatSocket,
            BindAction::Bind,
            BindAction::SetGroup(42),
            BindAction::SetMode(SOCKET_MODE),
        ]
    );
}

#[test]
fn bind_reports_io_errors() {
    let denied = Attempt::Failed(io(std::io::ErrorKind::PermissionDenied));
    let (result, _) = bind(server().bind(), denied);
    assert!(matches!(result.unwrap_err(), Error::Io(_)));
    let run = BindRun {
        gid: None,
        stage: BindStage::At(BindAction::Bind),
    };
    let run = run.step(BindEvent::Done(Attempt::Failed(io(
        std::io::ErrorKind::AddrInUse,
    ))));
    assert!(matches!(
        run.stage,
        BindStage::Finished(Err(Error::Io(_)))
    ));
}

#[test]
fn bind_skips_a_directory_without_a_name() {
    let run = BindRun::begin(Some(String::new()), None);
    assert!(matches!(
        run.stage,
        BindStage::At(BindAction::LstatSocket)
    ));
    let run = BindRun::begin(Some("/run".to_string()), None);
    assert!(matches!(
        run.stage,
        BindStage::At(BindAction::ParentExists)
    ));
}

#[test]
fn existing_directory_is_not_created() {
    let run = server().bind().step(BindEvent::Exists(true));
    assert!(matches!(
        run.stage,
        BindStage::At(BindAction::LstatSocket)
    ));
}

#[test]
fn accept_loop_serves_until_stopped() {
    let server = server();
    assert_eq!(server.socket_path(), "/t/helper.sock");
    assert_eq!(server.run(LoopEvent::Listening), LoopAction::ReadStopFlag);
    assert_eq!(server.run(LoopEvent::StopFlag(false)), LoopAction::Accept);
    assert_eq!(
        server.run(LoopEvent::Accepted(Accepted::Connection)),
        LoopAction::HandleConnection
    );
    assert_eq!(server.run(LoopEvent::Handled), LoopAction::ReadStopFlag);
    for idle in [Accepted::WouldBlock, Accepted::Failed] {
        assert_eq!(
            server.run(LoopEvent::Accepted(idle)),
            LoopAction::Nap(ACCEPT_POLL_MILLIS)
        );
    }
    assert_eq!(server.run(LoopEvent::Napped), LoopAction::ReadStopFlag);
    assert_eq!(
        server.run(LoopEvent::StopFlag(true)),
        LoopAction::RemoveSocket
    );
    assert_eq!(server.run(LoopEvent::SocketRemoved), LoopAction::Return);
    assert_eq!(ACCEPT_POLL_MILLIS, 100);
    assert_eq!(IO_TIMEOUT_SECS, 30);
}

#[test]
fn group_and_process_ids_do_not_matter() {
    let server = server().with_peer_policy(PeerPolicy::enforced(vec![1000]));
    for (uid, served) in [(1000, true), (7, false)] {
        for (gid, pid) in [(0, 1), (1000, 1000), (55, 2)] {
            let peer = PeerCred { uid, gid, pid };
            assert_eq!(server.refuse_peer(Some(&peer)).is_none(), served);
        }
    }
}

#[test]
fn refused_peer_is_answered_the_same_whatever_it_sends() {
    let server = server().with_peer_policy(PeerPolicy::enforced(vec![1000]));
    let one = reply(server.evaluate(None, &Request::new(TOKEN, Operation::VerifyState)));
    let other = reply(server.evaluate(None, &Request::apply("nope", "x")));
    assert_eq!(one, other);
    assert_eq!(one.outcome, Outcome::Unhealthy);
    assert_eq!(one.helper_version, None);
}
