//! Privilege checks for the running process.
//!
//! The helper must run as root. These are read-only inspections of the current
//! process; they never mutate system state.

use vstd::prelude::*;

use crate::errors::{Error, Result};

verus! {

/// Return the effective user id of the current process.
///
/// Calls `rustix::process::geteuid`. Nothing is claimed of the result: it is a
/// property of the running process.
#[verifier::external_body]
pub fn effective_uid() -> (r: u32)
{
    rustix::process::geteuid().as_raw()
}

/// Whether an effective user id is acceptable: root's is, no other.
///
/// # Errors
///
/// Returns [`Error::NotRoot`] if `euid` is not 0.
pub fn require_root(euid: u32) -> (r: Result<()>)
    ensures
        r == (if euid == 0 {
            Ok::<(), Error>(())
        } else {
            Err::<(), Error>(Error::NotRoot)
        }),
{
    if euid == 0 {
        Ok(())
    } else {
        Err(Error::NotRoot)
    }
}

/// Validate that the process is running as root (effective uid 0): the verdict
/// of [`require_root`] on the effective user id.
///
/// # Errors
///
/// Returns [`Error::NotRoot`] if the effective uid is not 0.
pub fn validate_root() -> (r: Result<()>)
    ensures
        exists|euid: u32| call_ensures(effective_uid, (), euid) && call_ensures(require_root, (euid,), r),
        r is Ok || r == Err::<(), Error>(Error::NotRoot),
{
    let euid: u32 = effective_uid();
    let r = require_root(euid);
    assert(call_ensures(effective_uid, (), euid));
    r
}

/// Root is accepted, and no other user is.
pub proof fn only_root_is_accepted(euid: u32, r: Result<()>)
    requires
        call_ensures(require_root, (euid,), r),
    ensures
        r is Ok <==> euid == 0,
        r is Err ==> r == Err::<(), Error>(Error::NotRoot),
{
}

/// The process is accepted only if it was found to run as root, and refused only if
/// it was found to run as someone else.
pub proof fn process_is_judged_by_its_effective_uid(r: Result<()>)
    requires
        call_ensures(validate_root, (), r),
    ensures
        r is Ok ==> call_ensures(effective_uid, (), 0u32),
        r is Err ==> r == Err::<(), Error>(Error::NotRoot) && exists|euid: u32|
            euid != 0 && #[trigger] call_ensures(effective_uid, (), euid),
{
    let euid = choose|euid: u32|
        call_ensures(effective_uid, (), euid) && call_ensures(require_root, (euid,), r);
    assert(call_ensures(effective_uid, (), euid) && call_ensures(require_root, (euid,), r));
    only_root_is_accepted(euid, r);
}

} // verus!
