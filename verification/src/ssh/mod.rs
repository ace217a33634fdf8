//! SSH-facing data models.
//!
//! Pure, read-only parsing and validation for the two SSH artifacts the helper
//! manages:
//!
//! * [`trusted_ca`] — the `TrustedUserCAKeys` file (a list of CA public keys);
//! * [`sshd_config`] — inspection and rendering of the `TrustedUserCAKeys`
//!   directive for the sshd drop-in.
//!
//! Nothing here performs I/O; the privileged writing, validation and reload
//! built on top is decided in [`crate::ops`].

pub mod trusted_ca;
pub mod sshd_config;
