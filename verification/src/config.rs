//! Configuration the control plane consumes: the replica listener port and
//! the ANA gating flag. Both are read at the process edge and carried here
//! as plain values.

use vstd::prelude::*;
use crate::strings::str_eq;

verus! {

/// Control-plane configuration.
pub struct Config {
    /// TCP port of the replica-port listener.
    pub replica_port: u16,
    /// The value of the ANA enable environment variable, if it was set.
    pub ana_env: Option<String>,
}

impl Config {
    /// ANA reporting calls take effect only when the environment flag was
    /// set exactly to "1".
    pub open spec fn spec_ana_enabled(&self) -> bool {
        match self.ana_env {
            Some(v) => v@ == "1"@,
            None => false,
        }
    }

    pub fn new(replica_port: u16, ana_env: Option<String>) -> (r: Config)
        ensures
            r.replica_port == replica_port,
            r.ana_env == ana_env,
    {
        Config { replica_port, ana_env }
    }

    /// True when ANA reporting changes are enabled for this process.
    pub fn ana_enabled(&self) -> (r: bool)
        ensures
            r == self.spec_ana_enabled(),
    {
        match &self.ana_env {
            Some(v) => str_eq(v.as_str(), "1"),
            None => false,
        }
    }
}

} // verus!
