//! Bookkeeping and decision logic for attaching kernel hook programs to
//! cgroup control points.
//!
//! The library holds no kernel resource itself. It keeps a ledger of the
//! control-point nodes, programs and attachments a controller process has
//! created, decides whether a requested operation may be issued, and records
//! the outcome that the caller reports back after issuing the kernel call.
pub mod error;
pub mod path;
pub mod model;
pub mod ledger;
pub mod laws;
