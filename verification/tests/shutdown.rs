//! Graceful shutdown.

use std::sync::atomic::Ordering;

use mayfly_helper::shutdown::{install_signal_handlers, registered, Shutdown, SIGINT, SIGTERM};
use mayfly_helper::Error;

#[test]
fn flag_round_trips() {
    let s = Shutdown::new();
    assert!(!s.is_requested());
    s.request();
    assert!(s.is_requested());
    // Clones share the same flag.
    let c = s.clone();
    assert!(c.is_requested());
}

#[test]
fn installing_handlers_succeeds() {
    // Registering handlers must not error; we do not raise signals here to
    // avoid disturbing the test process.
    let shutdown = Shutdown::new();
    install_signal_handlers(&shutdown).unwrap();
}

#[test]
fn default_flag_is_unrequested_and_shared() {
    let s = Shutdown::default();
    let c = s.clone();
    assert!(!c.is_requested());
    c.request();
    assert!(s.is_requested());
}

#[test]
fn flag_hands_out_the_shared_flag() {
    let s = Shutdown::new();
    let flag = s.flag();
    flag.store(true, Ordering::SeqCst);
    assert!(s.is_requested());
}

#[test]
fn signal_numbers_are_the_platform_ones() {
    assert_eq!(SIGINT, signal_hook::consts::SIGINT);
    assert_eq!(SIGTERM, signal_hook::consts::SIGTERM);
}

#[test]
fn raised_signal_sets_the_flag() {
    let shutdown = Shutdown::new();
    install_signal_handlers(&shutdown).unwrap();
    assert!(!shutdown.is_requested());
    signal_hook::low_level::raise(SIGTERM).unwrap();
    assert!(shutdown.is_requested());
}

#[test]
fn failed_registration_is_an_io_error() {
    let denied = std::io::Error::new(std::io::ErrorKind::PermissionDenied, "denied");
    assert!(matches!(
        registered(Err(denied)).unwrap_err(),
        Error::Io(_)
    ));
}
