//! A small library for declaring an arbitrary command as a managed,
//! restart-on-failure background service under a systemd-style init system.
//!
//! The library itself performs no I/O: it synthesizes complete service
//! definitions from user overrides and built-in defaults, renders and parses
//! unit files, maps user-facing service names to managed-unit identifiers and
//! back, builds the exact argument vectors for the external service manager,
//! and reconstructs the inventory of managed services from the text output of
//! two external queries. A thin unverified front end performs the actual
//! process invocations and file writes.

pub mod names;
pub mod text;
pub mod unit_file;
pub mod synth;
pub mod systemd;
pub mod inventory;
pub mod commands;
