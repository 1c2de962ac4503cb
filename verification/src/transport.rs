//! Transport endpoints. A transport ID names the endpoint a subsystem
//! listens on; equality is structural.

use vstd::prelude::*;
use vstd::string::*;
use crate::strings::{dec_rep, u16_to_dec};

verus! {

/// The address every listener binds on.
pub open spec fn spec_any_addr() -> Seq<char> {
    "0.0.0.0"@
}

/// A transport endpoint: TCP, an address, and a service ID (the port).
pub struct TransportId {
    /// Transport address.
    pub traddr: String,
    /// Transport service ID: the TCP port.
    pub trsvcid: u16,
}

impl PartialEq for TransportId {
    fn eq(&self, other: &Self) -> bool {
        self.traddr == other.traddr && self.trsvcid == other.trsvcid
    }
}

impl vstd::std_specs::cmp::PartialEqSpecImpl for TransportId {
    open spec fn obeys_eq_spec() -> bool {
        true
    }

    open spec fn eq_spec(&self, other: &Self) -> bool {
        self.traddr@ == other.traddr@ && self.trsvcid == other.trsvcid
    }
}

/// The URI of an endpoint: `nvmf://<address>:<port>`.
pub open spec fn spec_trid_uri(traddr: Seq<char>, trsvcid: u16) -> Seq<char> {
    "nvmf://"@ + traddr + seq![':'] + dec_rep(trsvcid as nat)
}

impl TransportId {
    /// A TCP endpoint on the given port, bound on every address.
    pub fn new(port: u16) -> (r: TransportId)
        ensures
            r.traddr@ == spec_any_addr(),
            r.trsvcid == port,
    {
        TransportId { traddr: String::from_str("0.0.0.0"), trsvcid: port }
    }

    /// True when the two IDs name the same endpoint.
    pub fn same_endpoint(&self, other: &TransportId) -> (r: bool)
        ensures
            r == (self.traddr@ == other.traddr@ && self.trsvcid == other.trsvcid),
    {
        self.traddr == other.traddr && self.trsvcid == other.trsvcid
    }

    /// A copy of this endpoint ID.
    pub fn duplicate(&self) -> (r: TransportId)
        ensures
            r.traddr@ == self.traddr@,
            r.trsvcid == self.trsvcid,
    {
        TransportId { traddr: self.traddr.clone(), trsvcid: self.trsvcid }
    }

    /// Formats the endpoint as a URI.
    pub fn uri(&self) -> (r: String)
        ensures
            r@ == spec_trid_uri(self.traddr@, self.trsvcid),
    {
        let mut r = String::from_str("nvmf://");
        r.append(self.traddr.as_str());
        r.append(":");
        let port = u16_to_dec(self.trsvcid);
        r.append(port.as_str());
        proof {
            reveal_strlit(":");
            assert(r@ =~= spec_trid_uri(self.traddr@, self.trsvcid));
        }
        r
    }
}

} // verus!
