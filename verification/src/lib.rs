//! Control plane for NVMe-over-Fabrics subsystems.
//!
//! Each subsystem exports one backing block device to remote initiators.
//! This crate models the subsystem lifecycle (create, configure, listen,
//! start, pause, resume, stop, destroy), the process-wide registry keyed
//! by NQN, the allowed-host access-control list, the busy-retry state
//! change engine, host event dispatch, and the completion status
//! interceptors for nexus and replica targets.

pub mod acl;
pub mod config;
pub mod digest;
pub mod engine;
pub mod error;
pub mod events;
pub mod naming;
pub mod registry;
pub mod status;
pub mod strings;
pub mod subsystem;
pub mod target;
pub mod transport;

use vstd::prelude::*;

verus! {

} // verus!
