//! Completion status interception. On the I/O path the fabric target hands
//! the control plane each error completion; depending on the kind of the
//! backing device the status fields are rewritten in place. Both rewrites
//! are branch-and-assign only: constant-time and allocation-free.

use vstd::prelude::*;

verus! {

/// Status Code Type: generic command status.
pub const SCT_GENERIC: u8 = 0;

/// Status Code Type: vendor specific status.
pub const SCT_VENDOR_SPECIFIC: u8 = 7;

/// Generic status code: capacity exceeded.
pub const SC_CAPACITY_EXCEEDED: u8 = 0x81;

/// Generic status code: reservation conflict.
pub const SC_RESERVATION_CONFLICT: u8 = 0x83;

/// Vendor status code carrying the no-space errno of the thin pool.
pub const SC_VENDOR_NO_SPACE: u8 = 28;

/// The status field of an NVMe completion, split into its bit fields.
#[derive(Clone, Copy, Debug, PartialEq, Eq, Structural)]
pub struct CplStatus {
    /// Phase tag.
    pub p: bool,
    /// Status code.
    pub sc: u8,
    /// Status code type; three bits.
    pub sct: u8,
    /// Command retry delay index; two bits.
    pub crd: u8,
    /// More information available.
    pub m: bool,
    /// Do not retry.
    pub dnr: bool,
}

impl CplStatus {
    /// The bit-field widths of the packed status word.
    pub open spec fn wf(&self) -> bool {
        self.sct < 8 && self.crd < 4
    }

    /// The vendor-specific no-space status a thin-provisioned replica
    /// reports when its pool runs out of space.
    pub open spec fn spec_is_no_space(&self) -> bool {
        self.sct == SCT_VENDOR_SPECIFIC && self.sc == SC_VENDOR_NO_SPACE
    }

    /// True when the status is the vendor-specific no-space error.
    pub fn is_no_space(&self) -> (r: bool)
        ensures
            r == self.spec_is_no_space(),
    {
        self.sct == SCT_VENDOR_SPECIFIC && self.sc == SC_VENDOR_NO_SPACE
    }
}

/// The rewrite the nexus interceptor applies: a completion that asks for no
/// retry delay is left alone; a reservation conflict or capacity-exceeded
/// generic status is moved to retry-delay slot 2.
pub open spec fn spec_nexus_rewrite(s: CplStatus) -> CplStatus {
    if s.crd == 0 {
        s
    } else if s.sct == SCT_GENERIC && (s.sc == SC_RESERVATION_CONFLICT || s.sc
        == SC_CAPACITY_EXCEEDED) {
        CplStatus { crd: 2, ..s }
    } else {
        s
    }
}

/// Completion error callback for nexuses: rewrites the status in place.
/// A completion whose CRD is zero is never mutated.
pub fn nexus_cpl_error_cb(status: &mut CplStatus)
    requires
        old(status).wf(),
    ensures
        *final(status) == spec_nexus_rewrite(*old(status)),
        old(status).crd == 0 ==> *final(status) == *old(status),
        final(status).wf(),
{
    if status.crd == 0 {
        return ;
    }
    if status.sct == SCT_GENERIC && (status.sc == SC_RESERVATION_CONFLICT || status.sc
        == SC_CAPACITY_EXCEEDED) {
        status.crd = 2;
    }
}

/// The rewrite the replica interceptor applies: retry-delay slot 1 is moved
/// to slot 3, and the vendor-specific no-space status is corrected to the
/// generic capacity-exceeded status.
pub open spec fn spec_replica_rewrite(s: CplStatus) -> CplStatus {
    let c = if s.crd == 1 {
        CplStatus { crd: 3, ..s }
    } else {
        s
    };
    if s.spec_is_no_space() {
        CplStatus { sct: SCT_GENERIC, sc: SC_CAPACITY_EXCEEDED, ..c }
    } else {
        c
    }
}

/// Completion error callback for replicas: rewrites the status in place.
/// Any status that reports no-space leaves as the generic
/// capacity-exceeded status.
pub fn replica_cpl_error_cb(status: &mut CplStatus)
    requires
        old(status).wf(),
    ensures
        *final(status) == spec_replica_rewrite(*old(status)),
        old(status).spec_is_no_space() ==> final(status).sct == SCT_GENERIC && final(status).sc
            == SC_CAPACITY_EXCEEDED,
        final(status).wf(),
{
    let no_space = status.is_no_space();
    if status.crd == 1 {
        status.crd = 3;
    }
    if no_space {
        status.sct = SCT_GENERIC;
        status.sc = SC_CAPACITY_EXCEEDED;
    }
}

} // verus!
