//! Disk usage by owning user.
//!
//! The library takes a flat description of the regular files found under a
//! directory (owner UID, byte size, entry kind), accumulates the total bytes
//! owned by each UID, orders the totals ascending, and renders each total
//! according to a configurable size mode. Walking the filesystem, reading
//! metadata and printing are left to the binary around the library.

pub mod aggregate;
pub mod config;
pub mod format;
pub mod report;
