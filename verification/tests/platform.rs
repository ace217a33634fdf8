//! Privilege checks.

use mayfly_helper::errors::Error;
use mayfly_helper::platform::{effective_uid, require_root, validate_root};

#[test]
fn effective_uid_matches_validate_root() {
    let euid = effective_uid();
    let result = validate_root();
    if euid == 0 {
        assert!(result.is_ok());
    } else {
        assert!(matches!(result.unwrap_err(), Error::NotRoot));
    }
}

#[test]
fn effective_uid_is_that_of_the_process() {
    assert_eq!(effective_uid(), rustix::process::geteuid().as_raw());
}

#[test]
fn only_root_is_acceptable() {
    assert!(require_root(0).is_ok());
    assert!(matches!(require_root(1).unwrap_err(), Error::NotRoot));
    assert!(matches!(
        require_root(u32::MAX).unwrap_err(),
        Error::NotRoot
    ));
}
