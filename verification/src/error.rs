//! Error taxonomy of the control plane, and the errno values its
//! contracts speak about.
//!
//! Foreign status codes are carried as plain `i32` errno values: an
//! initiation return code is negated before it is inspected, so a
//! positive value is an errno.

use vstd::prelude::*;

verus! {

/// Device or resource busy.
pub const EBUSY: i32 = 16;

/// File exists; reported when a subsystem NQN is already registered.
pub const EEXIST: i32 = 17;

/// Invalid argument.
pub const EINVAL: i32 = 22;

/// Operation already in progress; reported on double destruction.
pub const EALREADY: i32 = 114;

/// An error produced by a control-plane operation.
#[derive(Debug)]
pub enum Error {
    /// The target could not create the subsystem, e.g. because the backing
    /// device is already claimed by another consumer.
    CreateTarget { msg: String },
    /// A call on a subsystem failed with an errno.
    Subsystem { source: i32, nqn: String, msg: String },
    /// A state transition was still busy after every retry.
    SubsystemBusy { nqn: String, op: String },
    /// Adding a namespace failed.
    Namespace { bdev: String, msg: String },
    /// A host NQN contained an interior NUL byte.
    HostCstrNul { host: String },
    /// Adding a listener failed.
    Transport { source: i32, msg: String },
    /// The named listener was not found on the subsystem.
    Listener { nqn: String, trid: String },
}

impl Error {
    /// True when the error reports a busy state transition.
    pub fn is_subsystem_busy(&self) -> (r: bool)
        ensures
            r == (self is SubsystemBusy),
    {
        match self {
            Error::SubsystemBusy { .. } => true,
            _ => false,
        }
    }
}

} // verus!
