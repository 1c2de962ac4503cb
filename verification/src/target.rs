//! NQN target classification. An NQN names either a nexus device, a
//! replica (a logical volume), or nothing: the suffix after the fixed
//! prefix is looked up in the block-device registry, materialized here as
//! a list of device descriptions.

use vstd::prelude::*;
use vstd::string::*;
use crate::naming::spec_parse_nqn;
use crate::naming::parse_nqn;
use crate::strings::{contains_char, str_eq};

verus! {

/// What the control plane reads of a block device: its name, the driver
/// module that owns it, its UUID bytes, and whether another consumer has
/// already claimed it.
pub struct BdevInfo {
    pub name: String,
    pub driver: String,
    pub uuid: Vec<u8>,
    pub claimed: bool,
}

/// The driver module name of nexus devices.
pub fn nexus_module_name() -> (r: &'static str)
    ensures
        r@ == "NEXUS_CS_MODULE"@,
{
    "NEXUS_CS_MODULE"
}

/// The driver module name of logical volumes.
pub fn lvol_module_name() -> (r: &'static str)
    ensures
        r@ == "lvol"@,
{
    "lvol"
}

/// The device name an NQN refers to: the suffix after the fixed prefix,
/// provided the name splits at exactly one colon.
pub open spec fn spec_nqn_device_name(nqn: Seq<char>) -> Option<Seq<char>> {
    match spec_parse_nqn(nqn) {
        Some(name) => if !name.contains(':') {
            Some(name)
        } else {
            None
        },
        None => None,
    }
}

/// The first device whose driver is the nexus module or the lvol module
/// and whose name matches, searching from index `i`.
pub open spec fn spec_target_idx_from(name: Seq<char>, bdevs: Seq<BdevInfo>, i: int) -> Option<int>
    decreases bdevs.len() - i,
{
    if i < 0 || i >= bdevs.len() {
        None
    } else if (bdevs[i].driver@ == "NEXUS_CS_MODULE"@ || bdevs[i].driver@ == "lvol"@)
        && bdevs[i].name@ == name {
        Some(i)
    } else {
        spec_target_idx_from(name, bdevs, i + 1)
    }
}

/// The classification of an NQN against a device list.
pub ghost enum NqnTargetV {
    Nexus(Seq<char>),
    Replica(Seq<char>),
    NotFound,
}

/// What looking an NQN up in a device list yields.
pub open spec fn spec_classify(nqn: Seq<char>, bdevs: Seq<BdevInfo>) -> NqnTargetV {
    if bdevs.len() == 0 {
        NqnTargetV::NotFound
    } else {
        match spec_nqn_device_name(nqn) {
            Some(name) => match spec_target_idx_from(name, bdevs, 0) {
                Some(i) => if bdevs[i].driver@ == "NEXUS_CS_MODULE"@ {
                    NqnTargetV::Nexus(bdevs[i].name@)
                } else {
                    NqnTargetV::Replica(bdevs[i].name@)
                },
                None => NqnTargetV::NotFound,
            },
            None => NqnTargetV::NotFound,
        }
    }
}

/// The target an NQN names: a nexus, a replica, or nothing. The payload is
/// the matched device name.
pub enum NqnTarget {
    Nexus(String),
    Replica(String),
    NotFound,
}

impl View for NqnTarget {
    type V = NqnTargetV;

    open spec fn view(&self) -> NqnTargetV {
        match self {
            NqnTarget::Nexus(n) => NqnTargetV::Nexus(n@),
            NqnTarget::Replica(n) => NqnTargetV::Replica(n@),
            NqnTarget::NotFound => NqnTargetV::NotFound,
        }
    }
}

impl NqnTarget {
    /// Classifies an NQN: parses it as `<prefix>:<name>` and scans the
    /// device list for a nexus or lvol device of that name.
    pub fn lookup(nqn: &str, bdevs: &Vec<BdevInfo>) -> (r: NqnTarget)
        ensures
            r@ == spec_classify(nqn@, bdevs@),
    {
        if bdevs.len() == 0 {
            return NqnTarget::NotFound;
        }
        let name = match parse_nqn(nqn) {
            Some(n) => n,
            None => {
                return NqnTarget::NotFound;
            },
        };
        if contains_char(name.as_str(), ':') {
            return NqnTarget::NotFound;
        }
        let mut i: usize = 0;
        while i < bdevs.len()
            invariant
                i <= bdevs@.len(),
                spec_nqn_device_name(nqn@) == Some(name@),
                spec_target_idx_from(name@, bdevs@, 0) == spec_target_idx_from(
                    name@,
                    bdevs@,
                    i as int,
                ),
            decreases bdevs@.len() - i,
        {
            let b = &bdevs[i];
            if str_eq(b.name.as_str(), name.as_str()) {
                if str_eq(b.driver.as_str(), nexus_module_name()) {
                    proof {
                        assert(spec_target_idx_from(name@, bdevs@, i as int) == Some(i as int));
                    }
                    return NqnTarget::Nexus(b.name.clone());
                }
                if str_eq(b.driver.as_str(), lvol_module_name()) {
                    proof {
                        assert(spec_target_idx_from(name@, bdevs@, i as int) == Some(i as int));
                    }
                    return NqnTarget::Replica(b.name.clone());
                }
            }
            i += 1;
        }
        NqnTarget::NotFound
    }
}

} // verus!
