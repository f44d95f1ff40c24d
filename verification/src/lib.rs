//! A verified core for a TCP port scanner.
//!
//! The library models the scanner's logic: expanding a target (a single
//! address or an address block) into the sequence of addresses to scan,
//! validating the configured port range, enumerating every probe in a fixed
//! order, and formatting the output lines. The surrounding binary performs
//! the actual connection attempts and I/O.

pub mod addr;
pub mod config;
pub mod report;
pub mod schedule;
pub mod source;
pub mod text;
