//! A verified core for `btrfs-lsattr`, a drop-in `lsattr` with a btrfs-aware
//! fast path for `--has` filters.

pub mod ascii;
pub mod btrfs;
pub mod bytes;
pub mod cli;
pub mod errors;
pub mod flags;
pub mod format;
pub mod ioctl;
pub mod list;
pub mod parity;
pub mod paths;
pub mod replies;
pub mod report;
pub mod scan;
pub mod scan_laws;
pub mod scan_steps;
pub mod session;
pub mod session_steps;
pub mod sweep;
pub mod sweep_laws;
pub mod sweep_steps;
pub mod walk;
pub mod walk_laws;
pub mod walk_steps;
