//! Start-up configuration and the capability token.

use mayfly_helper::errors::Error;
use mayfly_helper::peercred::PeerCred;
use mayfly_helper::security::{Attempt, FileKind, FileMeta};
use mayfly_helper::settings::{
    accept_token, load_token, numeric_value, peer_policy, policy_for, setting, socket_gid,
    socket_path, token_path, MIN_TOKEN_LEN,
};

fn cred(uid: u32) -> PeerCred {
    PeerCred {
        uid,
        gid: uid,
        pid: 1,
    }
}

fn token_file(mode: u32) -> Attempt<FileMeta> {
    Attempt::Done(FileMeta {
        kind: FileKind::Other,
        uid: 0,
        mode,
    })
}

#[test]
fn paths_have_defaults() {
    assert_eq!(socket_path(|_| None), "/run/mayfly/helper.sock");
    assert_eq!(token_path(|_| None), "/etc/mayfly-agent/helper.token");
    let get = |name: &str| Some(format!("/x/{name}"));
    assert_eq!(socket_path(get), "/x/MAYFLY_HELPER_SOCKET_PATH");
    assert_eq!(token_path(get), "/x/MAYFLY_HELPER_TOKEN_PATH");
    assert_eq!(setting(&get, "A", "b"), "/x/A");
}

#[test]
fn numbers_are_trimmed_decimals() {
    let value = |v: &str| numeric_value(Some(v.to_string()));
    assert_eq!(numeric_value(None), None);
    assert_eq!(value("0"), Some(0));
    assert_eq!(value(" 1000\n"), Some(1000));
    assert_eq!(value("+7"), Some(7));
    assert_eq!(value("007"), Some(7));
    assert_eq!(value("4294967295"), Some(u32::MAX));
    assert_eq!(value("4294967296"), None);
    assert_eq!(value("99999999999999999999999"), None);
    for bad in ["", " ", "+", "-1", "++1", "1 2", "0x10", "1.0", "\u{661}"] {
        assert_eq!(value(bad), None, "{bad:?}");
    }
}

#[test]
fn numbers_agree_with_the_standard_parser() {
    for text in [
        "0", "+0", "12", "+", "", "a", "4294967295", "4294967296", "42949672950", "00000000001",
        "-0", "1a", "a1",
    ] {
        assert_eq!(
            numeric_value(Some(text.to_string())),
            text.trim().parse::<u32>().ok()
        );
    }
}

#[test]
fn socket_gid_is_optional() {
    assert_eq!(socket_gid(|_| None), None);
    assert_eq!(socket_gid(|_| Some("12".to_string())), Some(12));
    assert_eq!(socket_gid(|_| Some("mayfly".to_string())), None);
}

#[test]
fn peer_policy_pins_the_configured_uid_and_root() {
    let policy = peer_policy(|k| match k {
        "MAYFLY_HELPER_ALLOWED_UID" => Some(" 1000 ".to_string()),
        _ => None,
    });
    assert!(policy.is_enforced());
    assert!(policy.authorize(&cred(1000)).is_ok());
    assert!(policy.authorize(&cred(0)).is_ok());
    assert!(policy.authorize(&cred(1001)).is_err());
    assert!(!peer_policy(|_| None).is_enforced());
    assert!(!peer_policy(|_| Some("nobody".to_string())).is_enforced());
    assert!(policy_for(Some(5)).is_enforced());
}

#[test]
fn token_is_trimmed_and_long_enough() {
    let token = "t".repeat(32);
    assert_eq!(MIN_TOKEN_LEN, 32);
    assert_eq!(accept_token(&format!(" {token}\n")).unwrap(), token);
    for weak in ["", "  \n", "short", &"t".repeat(31)] {
        assert!(matches!(
            accept_token(weak).unwrap_err(),
            Error::HelperUnauthenticated
        ));
    }
    // Characters are counted, not bytes.
    assert!(accept_token(&"\u{e9}".repeat(31)).is_err());
    assert!(accept_token(&"\u{e9}".repeat(32)).is_ok());
}

#[test]
fn trustworthy_token_file_is_loaded() {
    let token = "0123456789abcdef".repeat(4);
    let contents = format!("{token}\n");
    assert_eq!(
        load_token(token_file(0o640), || Attempt::Done(contents)).unwrap(),
        token
    );
}

#[test]
fn tamperable_token_file_is_never_read() {
    let untouched = || -> Attempt<String> { panic!("read") };
    assert!(matches!(
        load_token(token_file(0o660), untouched).unwrap_err(),
        Error::InsecurePermissions
    ));
    let foreign = FileMeta {
        kind: FileKind::Other,
        uid: 1000,
        mode: 0o640,
    };
    assert!(matches!(
        load_token(Attempt::Done(foreign), untouched).unwrap_err(),
        Error::InsecureOwnership
    ));
    let link = FileMeta {
        kind: FileKind::Symlink,
        uid: 0,
        mode: 0o777,
    };
    assert!(matches!(
        load_token(Attempt::Done(link), untouched).unwrap_err(),
        Error::UnexpectedSymlink
    ));
    let gone = std::io::Error::new(std::io::ErrorKind::NotFound, "gone");
    assert!(matches!(
        load_token(Attempt::Missing(gone), untouched).unwrap_err(),
        Error::Io(_)
    ));
}

#[test]
fn unreadable_or_weak_token_is_refused() {
    let denied = std::io::Error::new(std::io::ErrorKind::PermissionDenied, "denied");
    assert!(matches!(
        load_token(token_file(0o600), || Attempt::Failed(denied)).unwrap_err(),
        Error::Io(_)
    ));
    assert!(matches!(
        load_token(token_file(0o600), || Attempt::Done("weak".to_string())).unwrap_err(),
        Error::HelperUnauthenticated
    ));
}

#[test]
fn accepted_token_is_accepted_again() {
    let once = accept_token(&format!("\t{} {}\n", "a".repeat(20), "b".repeat(20))).unwrap();
    assert_eq!(accept_token(&once).unwrap(), once);
    assert!(once.chars().count() >= MIN_TOKEN_LEN);
}
