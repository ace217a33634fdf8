//! The kernel peer-credential policy.

use mayfly_helper::errors::Error;
use mayfly_helper::peercred::{PeerCred, PeerPolicy};

fn cred(uid: u32) -> PeerCred {
    PeerCred {
        uid,
        gid: uid,
        pid: 4242,
    }
}

#[test]
fn enforced_policy_admits_allowed_uid() {
    let policy = PeerPolicy::enforced(vec![1000]);
    assert!(policy.is_enforced());
    assert!(policy.authorize(&cred(1000)).is_ok());
}

#[test]
fn enforced_policy_rejects_other_uid() {
    let policy = PeerPolicy::enforced(vec![1000]);
    assert!(matches!(
        policy.authorize(&cred(1234)).unwrap_err(),
        Error::HelperUnauthenticated
    ));
}

#[test]
fn enforced_policy_always_admits_root() {
    // Root is implicitly allowed even when not listed.
    let policy = PeerPolicy::enforced(vec![1000]);
    assert!(policy.authorize(&cred(0)).is_ok());
}

#[test]
fn unenforced_policy_admits_anyone() {
    let policy = PeerPolicy::unenforced();
    assert!(!policy.is_enforced());
    assert!(policy.authorize(&cred(31337)).is_ok());
}

#[test]
fn empty_allow_list_admits_only_root() {
    let policy = PeerPolicy::enforced(Vec::new());
    assert!(policy.is_enforced());
    assert!(policy.authorize(&cred(0)).is_ok());
    assert!(policy.authorize(&cred(1)).is_err());
    assert!(policy.authorize(&cred(u32::MAX)).is_err());
}

#[test]
fn every_listed_uid_is_admitted() {
    let policy = PeerPolicy::enforced(vec![7, 0, 9, 7]);
    for uid in [0, 7, 9] {
        assert!(policy.authorize(&cred(uid)).is_ok());
    }
    assert!(policy.authorize(&cred(8)).is_err());
}

#[test]
fn default_policy_is_unenforced() {
    assert!(!PeerPolicy::default().is_enforced());
}
