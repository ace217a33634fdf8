//! Graceful-shutdown signalling.
//!
//! The helper must stop promptly on `SIGINT`/`SIGTERM` (systemd sends `SIGTERM`
//! and waits a bounded grace period before `SIGKILL`). Shutdown is modelled as a
//! shared [`AtomicBool`]: the signal handler, which only stores `true`
//! (async-signal-safe), flips the flag, and the accept loop observes it between
//! polls.

use std::sync::atomic::{AtomicBool, Ordering};
use std::sync::Arc;

use vstd::prelude::*;

use crate::errors::{Error, Result};

verus! {

/// The signal number of `SIGINT`, the same on every Unix.
pub const SIGINT: i32 = 2;

/// The signal number of `SIGTERM`, the same on every Unix.
pub const SIGTERM: i32 = 15;

/// A shared, cheaply-cloneable shutdown flag.
#[derive(Debug)]
pub struct Shutdown {
    flag: Arc<AtomicBool>,
}

impl Shutdown {
    /// The shared flag itself, by identity.
    pub closed spec fn shared(self) -> Arc<AtomicBool> {
        self.flag
    }

    /// Create a fresh, un-requested shutdown flag: one made from `false`.
    pub fn new() -> (r: Self)
        ensures
            call_ensures(AtomicBool::new, (false,), *r.shared()),
    {
        let flag = AtomicBool::new(false);
        assert(call_ensures(AtomicBool::new, (false,), flag));
        Shutdown { flag: Arc::new(flag) }
    }

    /// Whether shutdown has been requested: what the shared flag reads. A signal
    /// handler may write it at any time, so the contract says what is read, not
    /// which value that gives.
    pub fn is_requested(&self) -> (r: bool)
        ensures
            call_ensures(AtomicBool::load, (&*self.shared(), Ordering::SeqCst), r),
    {
        self.flag.load(Ordering::SeqCst)
    }

    /// Request shutdown (used by tests and by an in-process trigger): write
    /// `true` to the shared flag.
    pub fn request(&self)
        ensures
            call_ensures(AtomicBool::store, (&*self.shared(), true, Ordering::SeqCst), ()),
    {
        self.flag.store(true, Ordering::SeqCst);
    }

    /// The underlying flag, for registering OS signal handlers against it.
    pub fn flag(&self) -> (r: Arc<AtomicBool>)
        ensures
            r == self.shared(),
    {
        Arc::clone(&self.flag)
    }
}

impl Clone for Shutdown {
    /// Another handle on the same flag.
    fn clone(&self) -> (r: Self)
        ensures
            r.shared() == self.shared(),
    {
        Shutdown { flag: self.flag() }
    }
}

impl Default for Shutdown {
    /// A fresh, un-requested shutdown flag.
    fn default() -> (r: Self)
        ensures
            call_ensures(AtomicBool::new, (false,), *r.shared()),
    {
        Shutdown::new()
    }
}

/// The id of a registered signal action, never inspected.
#[verifier::external_type_specification]
#[verifier::external_body]
pub struct ExSigId(signal_hook::SigId);

/// `signal_hook::flag::register` arranges for `flag` to be set to `true` whenever
/// `signal` arrives.
///
/// It panics on the signals that must not be caught; the two that the helper
/// uses are not among them. Whether registration succeeds is up to the operating
/// system, so nothing is claimed of the result.
pub assume_specification[ signal_hook::flag::register ](
    signal: i32,
    flag: Arc<AtomicBool>,
) -> (r: std::result::Result<signal_hook::SigId, std::io::Error>)
    requires
        signal == SIGINT || signal == SIGTERM,
;

/// What one attempt to register a handler amounts to.
pub open spec fn registration(
    attempt: std::result::Result<signal_hook::SigId, std::io::Error>,
) -> Result<()> {
    match attempt {
        Ok(_) => Ok(()),
        Err(e) => Err(Error::Io(e)),
    }
}

/// The verdict on one attempt to register a handler.
///
/// # Errors
///
/// Returns [`Error::Io`] with the operating system's error if it failed.
pub fn registered(
    attempt: std::result::Result<signal_hook::SigId, std::io::Error>,
) -> (r: Result<()>)
    ensures
        r == registration(attempt),
{
    match attempt {
        Ok(_) => Ok(()),
        Err(e) => Err(Error::Io(e)),
    }
}

/// Install `SIGINT` and `SIGTERM` handlers that set `shutdown`'s flag.
///
/// The handlers are async-signal-safe (they only store into an [`AtomicBool`]);
/// no allocation, locking, or logging happens inside them. `SIGTERM` is
/// registered first, `SIGINT` only if that succeeded, both against the shared
/// flag.
///
/// # Errors
///
/// Returns [`Error::Io`] if a handler cannot be registered.
pub fn install_signal_handlers(shutdown: &Shutdown) -> (r: Result<()>)
    ensures
        exists|terminate: std::result::Result<signal_hook::SigId, std::io::Error>|
            {
                &&& #[trigger] call_ensures(
                    signal_hook::flag::register,
                    (SIGTERM, shutdown.shared()),
                    terminate,
                )
                &&& terminate is Err ==> r == registration(terminate)
                &&& terminate is Ok ==> exists|
                    interrupt: std::result::Result<signal_hook::SigId, std::io::Error>,
                |
                    {
                        &&& #[trigger] call_ensures(
                            signal_hook::flag::register,
                            (SIGINT, shutdown.shared()),
                            interrupt,
                        )
                        &&& r == registration(interrupt)
                    }
            },
{
    let terminate = signal_hook::flag::register(SIGTERM, shutdown.flag());
    let ghost first = terminate;
    assert(call_ensures(signal_hook::flag::register, (SIGTERM, shutdown.shared()), first));
    match registered(terminate) {
        Err(e) => {
            return Err(e);
        },
        Ok(()) => {},
    }
    let interrupt = signal_hook::flag::register(SIGINT, shutdown.flag());
    let ghost second = interrupt;
    assert(call_ensures(signal_hook::flag::register, (SIGINT, shutdown.shared()), second));
    registered(interrupt)
}

/// Whether an attempt to register a handler for `signal` on the flag of `shutdown`
/// came out as `attempt`.
pub open spec fn registers(
    shutdown: Shutdown,
    signal: i32,
    attempt: std::result::Result<signal_hook::SigId, std::io::Error>,
) -> bool {
    call_ensures(signal_hook::flag::register, (signal, shutdown.shared()), attempt)
}

/// Handlers are installed only if both signals, the one that a service manager
/// stops the helper with and the one that a terminal does, were registered on the
/// flag; a failure is that of the registration that failed.
pub proof fn both_signals_are_handled(shutdown: Shutdown, r: Result<()>)
    requires
        call_ensures(install_signal_handlers, (&shutdown,), r),
    ensures
        r is Ok ==> exists|id| #[trigger] registers(shutdown, 15, Ok(id)),
        r is Ok ==> exists|id| #[trigger] registers(shutdown, 2, Ok(id)),
        r matches Err(error) ==> {
            &&& error matches Error::Io(e)
            &&& registers(shutdown, 15, Err(e)) || registers(shutdown, 2, Err(e))
        },
{
    let terminate = choose|terminate: std::result::Result<signal_hook::SigId, std::io::Error>|
        {
            &&& #[trigger] call_ensures(
                signal_hook::flag::register,
                (SIGTERM, shutdown.shared()),
                terminate,
            )
            &&& terminate is Err ==> r == registration(terminate)
            &&& terminate is Ok ==> exists|
                interrupt: std::result::Result<signal_hook::SigId, std::io::Error>,
            |
                {
                    &&& #[trigger] call_ensures(
                        signal_hook::flag::register,
                        (SIGINT, shutdown.shared()),
                        interrupt,
                    )
                    &&& r == registration(interrupt)
                }
        };
    assert(registers(shutdown, 15, terminate));
    if terminate is Ok {
        let interrupt = choose|interrupt: std::result::Result<signal_hook::SigId, std::io::Error>|
            {
                &&& #[trigger] call_ensures(
                    signal_hook::flag::register,
                    (SIGINT, shutdown.shared()),
                    interrupt,
                )
                &&& r == registration(interrupt)
            };
        assert(registers(shutdown, 2, interrupt));
        if interrupt is Ok {
            assert(registers(shutdown, 15, Ok(terminate->Ok_0)));
            assert(registers(shutdown, 2, Ok(interrupt->Ok_0)));
        }
    }
}

/// A registration succeeds or fails as the operating system says, and every handle
/// on a flag shares it.
pub proof fn handles_share_the_flag(
    attempt: std::result::Result<signal_hook::SigId, std::io::Error>,
    verdict: Result<()>,
    shutdown: Shutdown,
    other: Shutdown,
    flag: Arc<AtomicBool>,
)
    requires
        call_ensures(registered, (attempt,), verdict),
        call_ensures(Shutdown::clone, (&shutdown,), other),
        call_ensures(Shutdown::flag, (&shutdown,), flag),
    ensures
        verdict is Ok <==> attempt is Ok,
        attempt matches Err(e) ==> verdict == Err::<(), Error>(Error::Io(e)),
        other.shared() == shutdown.shared(),
        flag == shutdown.shared(),
{
}

/// A fresh flag is made from `false`, a request writes `true` to it, and what is
/// read is that same flag.
pub proof fn requests_set_the_flag_that_is_read(
    fresh: Shutdown,
    default: Shutdown,
    shutdown: Shutdown,
    requested: bool,
)
    requires
        call_ensures(Shutdown::new, (), fresh),
        call_ensures(Shutdown::default, (), default),
        call_ensures(Shutdown::request, (&shutdown,), ()),
        call_ensures(Shutdown::is_requested, (&shutdown,), requested),
    ensures
        call_ensures(AtomicBool::new, (false,), *fresh.shared()),
        call_ensures(AtomicBool::new, (false,), *default.shared()),
        call_ensures(AtomicBool::store, (&*shutdown.shared(), true, Ordering::SeqCst), ()),
        call_ensures(AtomicBool::load, (&*shutdown.shared(), Ordering::SeqCst), requested),
{
}

} // verus!
