//! Kernel peer-credential authentication for the control socket (`SO_PEERCRED`).
//!
//! Socket file permissions (`0660 root:mayfly`) already restrict *who* can
//! connect to root and the `mayfly` group, and the capability token proves the
//! caller possesses a shared secret. Peer-credential pinning adds a third,
//! independent factor that the kernel — not the caller — supplies: the
//! connecting process's real **uid** (and gid/pid for the audit log). The
//! helper pins the uid to an allow-list (the unprivileged agent's uid plus
//! root), so even another member of the `mayfly` group that can read the token
//! cannot drive privileged `sshd` changes.
//!
//! Reading the credentials is the caller's business; the *authorization
//! decision* ([`PeerPolicy::authorize`]) is pure and platform-independent.

use vstd::prelude::*;

use crate::errors::{Error, Result};

verus! {

/// The kernel-reported credentials of a socket peer at connect time.
#[derive(Debug, Clone, Copy, PartialEq, Eq, Structural)]
pub struct PeerCred {
    /// Peer process real user id.
    pub uid: u32,
    /// Peer process real group id.
    pub gid: u32,
    /// Peer process id (for the audit log; never an authorization input).
    pub pid: i32,
}

/// Which connecting uids the helper will serve.
///
/// Built once at start-up. When pinning is not enforced (no allow-list
/// configured) the helper falls back to socket perms + token only; when it is, a
/// peer whose uid is not allow-listed is rejected, and an unreadable credential
/// is treated as a failure (fail-closed).
#[derive(Debug, Clone)]
pub struct PeerPolicy {
    allowed_uids: Vec<u32>,
    enforced: bool,
}

impl PeerPolicy {
    /// Whether uid pinning is active.
    pub closed spec fn pinned(self) -> bool {
        self.enforced
    }

    /// The allow-listed uids; of no consequence unless pinning is active.
    pub closed spec fn allow_list(self) -> Set<u32> {
        self.allowed_uids@.to_set()
    }

    /// Whether a peer with this uid may be served.
    pub open spec fn admits(self, uid: u32) -> bool {
        !self.pinned() || self.allow_list().contains(uid)
    }

    /// Enforce uid pinning against the given allow-list.
    ///
    /// Root (uid 0) is always implicitly allowed: it can already perform any
    /// host operation directly, so admitting it over the socket grants nothing
    /// extra and keeps operator/debug access working.
    pub fn enforced(allowed_uids: Vec<u32>) -> (r: Self)
        ensures
            r.pinned(),
            r.allow_list() == allowed_uids@.to_set().insert(0u32),
    {
        let ghost given = allowed_uids@;
        let mut allowed_uids = allowed_uids;
        if !contains_uid(&allowed_uids, 0) {
            allowed_uids.push(0);
            proof {
                assert(allowed_uids@.last() == 0u32);
                assert forall|u: u32| given.contains(u) implies allowed_uids@.contains(u) by {
                    let i = choose|i: int| 0 <= i < given.len() && given[i] == u;
                    assert(allowed_uids@[i] == u);
                }
            }
        }
        let r = PeerPolicy { allowed_uids, enforced: true };
        assert(r.allow_list() =~= given.to_set().insert(0u32));
        r
    }

    /// Disable uid pinning (backward-compatible fallback). The helper still
    /// authenticates with socket perms + the capability token.
    pub fn unenforced() -> (r: Self)
        ensures
            !r.pinned(),
            r.allow_list() == Set::<u32>::empty(),
    {
        let r = PeerPolicy { allowed_uids: Vec::new(), enforced: false };
        assert(r.allow_list() =~= Set::<u32>::empty());
        r
    }

    /// Whether uid pinning is active.
    pub fn is_enforced(&self) -> (r: bool)
        ensures
            r == self.pinned(),
    {
        self.enforced
    }

    /// Decide whether a peer with the given credentials may be served.
    ///
    /// # Errors
    ///
    /// Returns [`Error::HelperUnauthenticated`] if pinning is enforced and the
    /// peer's uid is not allow-listed. Always `Ok` when pinning is disabled.
    pub fn authorize(&self, cred: &PeerCred) -> (r: Result<()>)
        ensures
            r == (if self.admits(cred.uid) {
                Ok::<(), Error>(())
            } else {
                Err::<(), Error>(Error::HelperUnauthenticated)
            }),
    {
        if !self.enforced || contains_uid(&self.allowed_uids, cred.uid) {
            Ok(())
        } else {
            Err(Error::HelperUnauthenticated)
        }
    }
}

impl Default for PeerPolicy {
    /// Pinning disabled.
    fn default() -> (r: Self)
        ensures
            !r.pinned(),
            r.allow_list() == Set::<u32>::empty(),
    {
        PeerPolicy::unenforced()
    }
}

/// Whether `uids` holds `uid`.
fn contains_uid(uids: &Vec<u32>, uid: u32) -> (r: bool)
    ensures
        r == uids@.contains(uid),
{
    let mut i: usize = 0;
    while i < uids.len()
        invariant
            i <= uids@.len(),
            forall|j: int| 0 <= j < i ==> uids@[j] != uid,
        decreases uids@.len() - i,
    {
        if uids[i] == uid {
            return true;
        }
        i += 1;
    }
    false
}

/// Under a policy with an allow-list exactly the listed uids and root are served,
/// whatever the peer's group and process ids are.
pub proof fn only_listed_uids_and_root_are_served(
    listed: Vec<u32>,
    policy: PeerPolicy,
    cred: PeerCred,
    verdict: Result<()>,
    active: bool,
)
    requires
        call_ensures(PeerPolicy::enforced, (listed,), policy),
        call_ensures(PeerPolicy::authorize, (&policy, &cred), verdict),
        call_ensures(PeerPolicy::is_enforced, (&policy,), active),
    ensures
        active,
        verdict is Ok <==> cred.uid == 0 || listed@.contains(cred.uid),
        verdict is Err ==> verdict == Err::<(), Error>(Error::HelperUnauthenticated),
{
}

/// Without an allow-list every peer is served.
pub proof fn everyone_is_served_without_an_allow_list(
    policy: PeerPolicy,
    cred: PeerCred,
    verdict: Result<()>,
    active: bool,
)
    requires
        call_ensures(PeerPolicy::unenforced, (), policy) || call_ensures(
            PeerPolicy::default,
            (),
            policy,
        ),
        call_ensures(PeerPolicy::authorize, (&policy, &cred), verdict),
        call_ensures(PeerPolicy::is_enforced, (&policy,), active),
    ensures
        !active,
        verdict is Ok,
{
}

} // verus!
