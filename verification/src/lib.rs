//! An authenticated TOTP secret-lifecycle service library.
//!
//! The library issues and verifies time-based one-time-password (TOTP)
//! secrets for callers identified by a logical name (an "ident"), guarded by a
//! per-caller API key:
//!
//! * [`store`] holds the credential store: API-key bindings and secret
//!   records, with their uniqueness invariants.
//! * [`base32`] encodes freshly generated secret bytes for storage and
//!   display.
//! * [`totp`] derives and checks 6-digit codes against a shared secret with a
//!   configurable tolerance of adjacent 30-second windows.
//! * [`qr`] assembles QR snapshots (SVG or chart URL) of a stored secret.
//! * [`auth`] validates an inbound API key before anything else runs, and
//!   issues new keys.
//! * [`config`] validates the externally supplied settings once at startup.
//! * [`handler`] composes authorization, store and engine into one
//!   authorize-then-execute entry point per request.
//! * [`laws`] states and proves the library-wide properties that relate
//!   several operations.

pub mod auth;
pub mod base32;
pub mod config;
pub mod error;
pub mod handler;
pub mod laws;
pub mod qr;
pub mod store;
pub mod totp;
