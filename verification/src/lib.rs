//! # mayfly-helper
//!
//! The **privileged** half of the Mayfly host integration. `mayfly-helper` runs
//! as **root** and does nothing but serve a small, explicit set of privileged
//! host operations over an authenticated Unix Domain Socket. Its only intended
//! client is the unprivileged `mayfly-agent`.
//!
//! This library is the helper's logic, and all of it is verified: what it
//! accepts, what it refuses, which system calls it asks for, in which order, and
//! what it makes of their answers. It performs none of them itself. The program
//! around it carries them out and reports back, so nothing here touches a file, a
//! socket or a process.
//!
//! ## Operations (the entire allow-list)
//!
//! Every request maps 1:1 to one reviewed action — there is no generic
//! filesystem facility and no "run command" variant:
//!
//! * atomically replace `TrustedUserCAKeys` (rollback-safe);
//! * install/refresh the `sshd` drop-in (`/etc/ssh/sshd_config.d/90-mayfly.conf`);
//! * validate the `sshd` configuration (`sshd -t`);
//! * reload `sshd` and verify it is active;
//! * create the managed directories with safe ownership/permissions;
//! * verify the managed files' permissions/ownership.
//!
//! ## Modules
//!
//! * [`protocol`] — the agent↔helper wire types, length-prefixed framing, and
//!   constant-time token comparison;
//! * [`sshd_control`] — the `SshdControl` seam: the fixed allow-list of external
//!   programs (`sshd -t`, `systemctl`);
//! * [`ops`] — the privileged operations, built on [`security`] and an injected
//!   [`sshd_control::SshdControl`], and what they guarantee ([`ops::laws`],
//!   [`ops::requests`]);
//! * [`server`] — binding, the accept loop, authentication, and dispatch;
//! * [`peercred`] — the kernel peer-credential policy;
//! * [`security`] — hardened filesystem primitives (atomic write, `fsync`,
//!   symlink rejection, perm/owner validation);
//! * [`ssh`] — `TrustedUserCAKeys` parsing and `sshd` drop-in rendering;
//! * [`settings`] — start-up configuration and the capability token;
//! * [`platform`] — root-privilege validation;
//! * [`shutdown`] — graceful-shutdown signalling;
//! * [`errors`] — a single, path-free error type;
//! * [`text`] — character-level primitives for the parsers.

pub mod errors;
pub mod ops;
pub mod peercred;
pub mod platform;
pub mod protocol;
pub mod security;
pub mod server;
pub mod settings;
pub mod shutdown;
pub mod ssh;
pub mod sshd_control;
pub mod text;

pub use errors::{Error, Result};
pub use ops::{HelperOps, OpsConfig};
pub use protocol::{Operation, Outcome, Request, Response, MAX_BODY_BYTES, PROTOCOL_VERSION};
pub use server::HelperServer;
pub use sshd_control::{SshdControl, SshdControlConfig, SystemSshdControl};
