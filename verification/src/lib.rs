//! Verified core of a single game-server orchestrator.
//!
//! The crate covers the logic of four components: a remote-console client
//! (packet framing, response trimming, status interpretation), a lifecycle
//! controller that gates destructive operations on the player count and
//! retries saves a bounded number of times, a backup manager that snapshots a
//! data directory into rotating archives, and a rollback engine that restores
//! an archive while refusing entries that would escape the target directory.
//!
//! All network, process and filesystem traffic stays outside this crate; the
//! functions here take the observed values (console replies, directory
//! listings, archive bytes) as arguments and return decisions and data with
//! proved contracts.

pub mod archive;
pub mod args;
pub mod backup;
pub mod clock;
pub mod console;
pub mod exclude;
pub mod lifecycle;
pub mod packet;
pub mod paths;
pub mod restore;
pub mod retention;
