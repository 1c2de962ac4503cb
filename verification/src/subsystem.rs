//! The subsystem object: per-subsystem lifecycle, namespace binding, ANA,
//! the controller-ID range, and listeners.
//!
//! Operations that await a foreign completion take the foreign layer's
//! answers as plain arguments (an initiation code sequence `rcs` and a
//! callback status), and the contracts say what holds for every answer.

use vstd::prelude::*;
use vstd::string::*;
use crate::config::Config;
use crate::engine::{
    run_state_change, spec_outcome, StateChangeOp, StateChangeOutcome,
};
use crate::error::{Error, EALREADY, EINVAL};
use crate::strings::has_nul;
use crate::target::BdevInfo;
use crate::transport::{spec_any_addr, spec_trid_uri, TransportId};

verus! {

/// The kind of a subsystem.
#[derive(Clone, Copy, Debug, PartialEq, Eq, Structural)]
pub enum SubType {
    Nvme,
    Discovery,
}

/// The lifecycle state of a subsystem.
#[derive(Clone, Copy, Debug, PartialEq, Eq, Structural)]
pub enum SubsystemState {
    Inactive,
    Active,
    Paused,
    Destroying,
}

/// ANA state: the path is optimized.
pub const ANA_OPTIMIZED: u32 = 1;

/// ANA state: the path works but is not optimized.
pub const ANA_NON_OPTIMIZED: u32 = 2;

/// ANA state: the path is inaccessible.
pub const ANA_INACCESSIBLE: u32 = 3;

/// Default lower bound of the controller-ID range.
pub const CNTLID_MIN_DEFAULT: u16 = 1;

/// Default upper bound of the controller-ID range.
pub const CNTLID_MAX_DEFAULT: u16 = 0xffef;

/// The single namespace a subsystem may carry. Its NSID is always 1 and
/// its globally unique identifier is the backing device's UUID bytes.
pub struct Namespace {
    pub nsid: u32,
    pub bdev_name: String,
    pub nguid: Vec<u8>,
    pub ptpl: Option<String>,
}

/// A listener bound to the subsystem, with its per-listener ANA state.
pub struct Listener {
    pub trid: TransportId,
    pub ana_state: u32,
}

/// A live NVMe-oF subsystem.
pub struct NvmfSubsystem {
    /// The canonical NVMe Qualified Name.
    pub nqn: String,
    /// NVMe or Discovery.
    pub subtype: SubType,
    /// The serial, set once at construction and stable thereafter.
    pub serial: String,
    /// The fixed vendor model string.
    pub model: String,
    /// The lifecycle state.
    pub state: SubsystemState,
    /// Whether destruction has started; destruction is terminal.
    pub destroying: bool,
    /// Whether any host may connect.
    pub allow_any_host: bool,
    /// Whether ANA reporting is enabled.
    pub ana_reporting: bool,
    /// At most one namespace.
    pub namespace: Option<Namespace>,
    /// The listeners currently bound, distinct by endpoint.
    pub listeners: Vec<Listener>,
    /// The allowed-host ACL: host NQNs, NUL-free and without duplicates.
    pub allowed_hosts: Vec<String>,
    /// Inclusive lower bound of the controller-ID range.
    pub cntlid_min: u16,
    /// Inclusive upper bound of the controller-ID range.
    pub cntlid_max: u16,
}

/// There is a listener on the given endpoint.
pub open spec fn spec_has_listener(ls: Seq<Listener>, traddr: Seq<char>, port: u16) -> bool {
    exists|i: int|
        0 <= i < ls.len() && ls[i].trid.traddr@ == traddr && ls[i].trid.trsvcid == port
}

/// The index of the listener on the given endpoint.
pub open spec fn spec_listener_idx(ls: Seq<Listener>, traddr: Seq<char>, port: u16) -> int {
    choose|i: int|
        0 <= i < ls.len() && ls[i].trid.traddr@ == traddr && ls[i].trid.trsvcid == port
}

/// The URI a listener exports for a subsystem: the endpoint URI, a slash,
/// the NQN.
pub open spec fn spec_endpoint_uri(traddr: Seq<char>, port: u16, nqn: Seq<char>) -> Seq<char> {
    spec_trid_uri(traddr, port) + seq!['/'] + nqn
}

/// A well-formed ACL: NUL-free host names, no duplicates.
pub open spec fn spec_acl_wf(acl: Seq<Seq<char>>) -> bool {
    &&& (forall|i: int| 0 <= i < acl.len() ==> !has_nul(#[trigger] acl[i]))
    &&& (forall|i: int, j: int| 0 <= i < j < acl.len() ==> acl[i] != acl[j])
}

/// A well-formed listener set: pairwise distinct endpoints.
pub open spec fn spec_listeners_wf(ls: Seq<Listener>) -> bool {
    forall|i: int, j: int|
        0 <= i < j < ls.len() ==> !(ls[i].trid.traddr@ == ls[j].trid.traddr@
            && ls[i].trid.trsvcid == ls[j].trid.trsvcid)
}

impl NvmfSubsystem {
    /// The ACL as a sequence of host-NQN character sequences.
    pub open spec fn acl(self) -> Seq<Seq<char>> {
        self.allowed_hosts.deep_view()
    }

    /// Well-formedness: the ACL holds NUL-free names without duplicates,
    /// the sole namespace has NSID 1, the destroying flag mirrors the
    /// Destroying state, the controller-ID range is ordered, and listeners
    /// are distinct by endpoint.
    pub open spec fn wf(self) -> bool {
        &&& spec_acl_wf(self.acl())
        &&& (match self.namespace {
            Some(ns) => ns.nsid == 1,
            None => true,
        })
        &&& (self.destroying <==> self.state is Destroying)
        &&& self.cntlid_min <= self.cntlid_max
        &&& spec_listeners_wf(self.listeners@)
    }

    /// All fields but the ACL agree.
    pub open spec fn eq_except_acl(self, b: NvmfSubsystem) -> bool {
        &&& b.nqn == self.nqn
        &&& b.subtype == self.subtype
        &&& b.serial == self.serial
        &&& b.model == self.model
        &&& b.state == self.state
        &&& b.destroying == self.destroying
        &&& b.allow_any_host == self.allow_any_host
        &&& b.ana_reporting == self.ana_reporting
        &&& b.namespace == self.namespace
        &&& b.listeners == self.listeners
        &&& b.cntlid_min == self.cntlid_min
        &&& b.cntlid_max == self.cntlid_max
    }

    /// All fields but the listeners agree.
    pub open spec fn eq_except_listeners(self, b: NvmfSubsystem) -> bool {
        &&& b.nqn == self.nqn
        &&& b.subtype == self.subtype
        &&& b.serial == self.serial
        &&& b.model == self.model
        &&& b.state == self.state
        &&& b.destroying == self.destroying
        &&& b.allow_any_host == self.allow_any_host
        &&& b.ana_reporting == self.ana_reporting
        &&& b.namespace == self.namespace
        &&& b.allowed_hosts == self.allowed_hosts
        &&& b.cntlid_min == self.cntlid_min
        &&& b.cntlid_max == self.cntlid_max
    }

    /// The subsystem's NQN.
    pub fn get_nqn(&self) -> (r: String)
        ensures
            r@ == self.nqn@,
    {
        self.nqn.clone()
    }

    /// The subsystem's kind.
    pub fn subtype(&self) -> (r: SubType)
        ensures
            r == self.subtype,
    {
        self.subtype
    }

    /// Allows or forbids any host to connect.
    pub fn allow_any(&mut self, enable: bool)
        ensures
            (*final(self) == NvmfSubsystem { allow_any_host: enable, ..*old(self) }),
    {
        self.allow_any_host = enable;
    }

    /// Attaches the backing device as the sole namespace, NSID 1. The
    /// namespace GUID is the device's UUID bytes; an optional
    /// persist-through-power-loss file path is forwarded. Fails when a
    /// namespace is already bound.
    pub fn add_namespace(&mut self, bdev: &BdevInfo, ptpl: Option<&String>) -> (r: Result<
        (),
        Error,
    >)
        requires
            old(self).wf(),
        ensures
            final(self).wf(),
            (r is Ok) == (old(self).namespace is None),
            r is Ok ==> match final(self).namespace {
                Some(ns) => {
                    &&& *final(self) == NvmfSubsystem {
                        namespace: final(self).namespace,
                        ..*old(self)
                    }
                    &&& ns.nsid == 1
                    &&& ns.bdev_name@ == bdev.name@
                    &&& ns.nguid@ == bdev.uuid@
                    &&& match (ns.ptpl, ptpl) {
                        (Some(p), Some(q)) => p@ == q@,
                        (None, None) => true,
                        _ => false,
                    }
                },
                None => false,
            },
            r is Err ==> *final(self) == *old(self) && (match r {
                Err(Error::Namespace { bdev: b, .. }) => b@ == bdev.name@,
                _ => false,
            }),
    {
        if self.namespace.is_some() {
            return Err(
                Error::Namespace {
                    bdev: bdev.name.clone(),
                    msg: String::from_str("failed to add namespace ID"),
                },
            );
        }
        let nguid = clone_bytes(&bdev.uuid);
        let ptpl_owned = match ptpl {
            Some(p) => Some(p.clone()),
            None => None,
        };
        self.namespace = Some(
            Namespace { nsid: 1, bdev_name: bdev.name.clone(), nguid, ptpl: ptpl_owned },
        );
        Ok(())
    }

    /// The name of the backing device of the sole namespace, if one is
    /// bound.
    pub fn bdev(&self) -> (r: Option<String>)
        ensures
            match (r, self.namespace) {
                (Some(n), Some(ns)) => n@ == ns.bdev_name@,
                (None, None) => true,
                _ => false,
            },
    {
        match &self.namespace {
            Some(ns) => Some(ns.bdev_name.clone()),
            None => None,
        }
    }

    /// Starts destruction. Destruction is legal only when the subsystem is
    /// inactive or paused; a second call reports that destruction has
    /// already begun.
    pub fn destroy_unsafe(&mut self) -> (r: i32)
        requires
            old(self).wf(),
            old(self).state is Inactive || old(self).state is Paused || old(
                self,
            ).state is Destroying,
        ensures
            final(self).wf(),
            (r, *final(self)) == spec_destroy(*old(self)),
            old(self).destroying ==> r == -EALREADY && *final(self) == *old(self),
    {
        if self.destroying {
            return -EALREADY;
        }
        self.destroying = true;
        self.state = SubsystemState::Destroying;
        0
    }

    /// Removes the namespace, then starts destruction. Legal only when the
    /// subsystem is inactive or paused.
    pub fn shutdown_unsafe(&mut self) -> (r: i32)
        requires
            old(self).wf(),
            old(self).state is Inactive || old(self).state is Paused,
        ensures
            final(self).wf(),
            r == 0,
            (*final(self) == NvmfSubsystem {
                namespace: None,
                state: SubsystemState::Destroying,
                destroying: true,
                ..*old(self)
            }),
    {
        self.namespace = None;
        let r = self.destroy_unsafe();
        r
    }

    /// Enables or disables ANA reporting. The call takes effect only when
    /// the configuration's environment flag was set exactly to "1";
    /// otherwise it is a successful no-op.
    pub fn set_ana_reporting(&mut self, cfg: &Config, enable: bool) -> (r: Result<(), Error>)
        requires
            old(self).wf(),
        ensures
            final(self).wf(),
            r is Ok,
            cfg.spec_ana_enabled() ==> (*final(self) == NvmfSubsystem {
                ana_reporting: enable,
                ..*old(self)
            }),
            !cfg.spec_ana_enabled() ==> *final(self) == *old(self),
    {
        if cfg.ana_enabled() {
            self.ana_reporting = enable;
        }
        Ok(())
    }

    /// Sets the inclusive controller-ID range. An inverted range is
    /// rejected with an invalid-argument error.
    pub fn set_cntlid_range(&mut self, cntlid_min: u16, cntlid_max: u16) -> (r: Result<(), Error>)
        requires
            old(self).wf(),
        ensures
            final(self).wf(),
            (r is Ok) == (cntlid_min <= cntlid_max),
            r is Ok ==> (*final(self) == NvmfSubsystem { cntlid_min, cntlid_max, ..*old(self) }),
            r is Err ==> *final(self) == *old(self) && (match r {
                Err(Error::Subsystem { source, nqn, .. }) => source == EINVAL && nqn@ == old(
                    self,
                ).nqn@,
                _ => false,
            }),
    {
        if cntlid_min > cntlid_max {
            return Err(
                Error::Subsystem {
                    source: EINVAL,
                    nqn: self.nqn.clone(),
                    msg: String::from_str("failed to set controller ID range"),
                },
            );
        }
        self.cntlid_min = cntlid_min;
        self.cntlid_max = cntlid_max;
        Ok(())
    }

    /// Binds the replica-port listener. `status` is what the foreign
    /// completion callback delivered: zero on success. Re-adding an
    /// existing endpoint leaves the listener set unchanged.
    pub fn add_listener(&mut self, cfg: &Config, status: i32) -> (r: Result<(), Error>)
        requires
            old(self).wf(),
        ensures
            final(self).wf(),
            (r is Ok) == (status == 0),
            r is Err ==> *final(self) == *old(self) && (match r {
                Err(Error::Transport { source, .. }) => source == status,
                _ => false,
            }),
            r is Ok ==> old(self).eq_except_listeners(*final(self)),
            r is Ok && spec_has_listener(old(self).listeners@, spec_any_addr(), cfg.replica_port)
                ==> *final(self) == *old(self),
            r is Ok && !spec_has_listener(old(self).listeners@, spec_any_addr(), cfg.replica_port)
                ==> {
                &&& final(self).listeners@.len() == old(self).listeners@.len() + 1
                &&& final(self).listeners@.take(old(self).listeners@.len() as int) == old(
                    self,
                ).listeners@
                &&& final(self).listeners@.last().trid.traddr@ == spec_any_addr()
                &&& final(self).listeners@.last().trid.trsvcid == cfg.replica_port
                &&& final(self).listeners@.last().ana_state == ANA_OPTIMIZED
            },
    {
        if status != 0 {
            return Err(
                Error::Transport {
                    source: status,
                    msg: String::from_str("Failed to add listener"),
                },
            );
        }
        let trid = TransportId::new(cfg.replica_port);
        let mut i: usize = 0;
        while i < self.listeners.len()
            invariant
                i <= self.listeners@.len(),
                *self == *old(self),
                old(self).wf(),
                status == 0,
                trid.traddr@ == spec_any_addr(),
                trid.trsvcid == cfg.replica_port,
                forall|j: int|
                    0 <= j < i ==> !(self.listeners@[j].trid.traddr@ == spec_any_addr()
                        && self.listeners@[j].trid.trsvcid == cfg.replica_port),
            decreases self.listeners@.len() - i,
        {
            if self.listeners[i].trid.same_endpoint(&trid) {
                return Ok(());
            }
            i += 1;
        }
        proof {
            assert(!spec_has_listener(self.listeners@, spec_any_addr(), cfg.replica_port));
        }
        self.listeners.push(Listener { trid, ana_state: ANA_OPTIMIZED });
        proof {
            assert(final(self).listeners@.take(old(self).listeners@.len() as int) =~= old(
                self,
            ).listeners@);
        }
        Ok(())
    }

    /// All bound listener endpoints, or `None` when there is none.
    pub fn listeners_to_vec(&self) -> (r: Option<Vec<TransportId>>)
        ensures
            match r {
                Some(v) => self.listeners@.len() > 0 && v@.len() == self.listeners@.len() && (
                forall|i: int|
                    0 <= i < v@.len() ==> #[trigger] v@[i].traddr@
                        == self.listeners@[i].trid.traddr@ && v@[i].trsvcid
                        == self.listeners@[i].trid.trsvcid),
                None => self.listeners@.len() == 0,
            },
    {
        if self.listeners.len() == 0 {
            return None;
        }
        let mut out: Vec<TransportId> = Vec::new();
        let mut i: usize = 0;
        while i < self.listeners.len()
            invariant
                i <= self.listeners@.len(),
                out@.len() == i,
                forall|j: int|
                    0 <= j < i ==> #[trigger] out@[j].traddr@ == self.listeners@[j].trid.traddr@
                        && out@[j].trsvcid == self.listeners@[j].trid.trsvcid,
            decreases self.listeners@.len() - i,
        {
            out.push(self.listeners[i].trid.duplicate());
            i += 1;
        }
        Some(out)
    }

    /// The URIs this subsystem is listening on, each as
    /// `<endpoint-uri>/<nqn>`, or `None` when nothing is bound.
    pub fn uri_endpoints(&self) -> (r: Option<Vec<String>>)
        ensures
            match r {
                Some(v) => self.listeners@.len() > 0 && v.deep_view().len()
                    == self.listeners@.len() && (forall|i: int|
                    0 <= i < v.deep_view().len() ==> #[trigger] v.deep_view()[i]
                        == spec_endpoint_uri(
                        self.listeners@[i].trid.traddr@,
                        self.listeners@[i].trid.trsvcid,
                        self.nqn@,
                    )),
                None => self.listeners@.len() == 0,
            },
    {
        if self.listeners.len() == 0 {
            return None;
        }
        let mut out: Vec<String> = Vec::new();
        let mut i: usize = 0;
        while i < self.listeners.len()
            invariant
                i <= self.listeners@.len(),
                out@.len() == i,
                forall|j: int|
                    0 <= j < i ==> #[trigger] out@[j]@ == spec_endpoint_uri(
                        self.listeners@[j].trid.traddr@,
                        self.listeners@[j].trid.trsvcid,
                        self.nqn@,
                    ),
            decreases self.listeners@.len() - i,
        {
            let mut uri = self.listeners[i].trid.uri();
            uri.append("/");
            uri.append(self.nqn.as_str());
            proof {
                reveal_strlit("/");
                assert(uri@ =~= spec_endpoint_uri(
                    self.listeners@[i as int].trid.traddr@,
                    self.listeners@[i as int].trid.trsvcid,
                    self.nqn@,
                ));
            }
            out.push(uri);
            i += 1;
        }
        proof {
            assert forall|j: int| 0 <= j < out.deep_view().len() implies #[trigger] out.deep_view()[j]
                == spec_endpoint_uri(
                self.listeners@[j].trid.traddr@,
                self.listeners@[j].trid.trsvcid,
                self.nqn@,
            ) by {
                assert(out.deep_view()[j] == out@[j]@);
            }
        }
        Some(out)
    }

    /// The ANA state of the replica-port listener; an error naming the
    /// endpoint when no such listener is bound.
    pub fn get_ana_state(&self, cfg: &Config) -> (r: Result<u32, Error>)
        requires
            self.wf(),
        ensures
            (r is Ok) == spec_has_listener(self.listeners@, spec_any_addr(), cfg.replica_port),
            match r {
                Ok(v) => v == self.listeners@[spec_listener_idx(
                    self.listeners@,
                    spec_any_addr(),
                    cfg.replica_port,
                )].ana_state,
                Err(Error::Listener { nqn, trid }) => nqn@ == self.nqn@ && trid@ == spec_trid_uri(
                    spec_any_addr(),
                    cfg.replica_port,
                ),
                Err(_) => false,
            },
    {
        let trid = TransportId::new(cfg.replica_port);
        let mut i: usize = 0;
        while i < self.listeners.len()
            invariant
                i <= self.listeners@.len(),
                self.wf(),
                trid.traddr@ == spec_any_addr(),
                trid.trsvcid == cfg.replica_port,
                forall|j: int|
                    0 <= j < i ==> !(self.listeners@[j].trid.traddr@ == spec_any_addr()
                        && self.listeners@[j].trid.trsvcid == cfg.replica_port),
            decreases self.listeners@.len() - i,
        {
            if self.listeners[i].trid.same_endpoint(&trid) {
                proof {
                    let k = spec_listener_idx(self.listeners@, spec_any_addr(), cfg.replica_port);
                    assert(spec_has_listener(self.listeners@, spec_any_addr(), cfg.replica_port));
                    assert(k == i as int);
                }
                return Ok(self.listeners[i].ana_state);
            }
            i += 1;
        }
        Err(Error::Listener { nqn: self.nqn.clone(), trid: trid.uri() })
    }

    /// Sets the ANA state of the replica-port listener. Legal only while
    /// the subsystem is paused or inactive. `status` is what the foreign
    /// completion callback delivered: zero on success.
    pub fn set_ana_state(&mut self, cfg: &Config, ana_state: u32, status: i32) -> (r: Result<
        (),
        Error,
    >)
        requires
            old(self).wf(),
            old(self).state is Inactive || old(self).state is Paused,
        ensures
            final(self).wf(),
            (r is Ok) == (spec_has_listener(old(self).listeners@, spec_any_addr(), cfg.replica_port)
                && status == 0),
            r is Err ==> *final(self) == *old(self),
            match r {
                Ok(_) => old(self).eq_except_listeners(*final(self)) && final(self).listeners@
                    == old(self).listeners@.update(
                    spec_listener_idx(old(self).listeners@, spec_any_addr(), cfg.replica_port),
                    Listener {
                        trid: old(self).listeners@[spec_listener_idx(
                            old(self).listeners@,
                            spec_any_addr(),
                            cfg.replica_port,
                        )].trid,
                        ana_state,
                    },
                ),
                Err(Error::Listener { nqn, trid }) => !spec_has_listener(
                    old(self).listeners@,
                    spec_any_addr(),
                    cfg.replica_port,
                ) && nqn@ == old(self).nqn@ && trid@ == spec_trid_uri(
                    spec_any_addr(),
                    cfg.replica_port,
                ),
                Err(Error::Subsystem { source, nqn, .. }) => spec_has_listener(
                    old(self).listeners@,
                    spec_any_addr(),
                    cfg.replica_port,
                ) && status != 0 && source == status && nqn@ == old(self).nqn@,
                Err(_) => false,
            },
    {
        let trid = TransportId::new(cfg.replica_port);
        let mut i: usize = 0;
        let n = self.listeners.len();
        while i < n
            invariant
                i <= n,
                n == self.listeners@.len(),
                *self == *old(self),
                old(self).wf(),
                trid.traddr@ == spec_any_addr(),
                trid.trsvcid == cfg.replica_port,
                forall|j: int|
                    0 <= j < i ==> !(self.listeners@[j].trid.traddr@ == spec_any_addr()
                        && self.listeners@[j].trid.trsvcid == cfg.replica_port),
            decreases n - i,
        {
            if self.listeners[i].trid.same_endpoint(&trid) {
                if status != 0 {
                    return Err(
                        Error::Subsystem {
                            source: status,
                            nqn: self.nqn.clone(),
                            msg: String::from_str("failed to set_ana_state of the subsystem"),
                        },
                    );
                }
                proof {
                    let k = spec_listener_idx(
                        old(self).listeners@,
                        spec_any_addr(),
                        cfg.replica_port,
                    );
                    assert(spec_has_listener(
                        old(self).listeners@,
                        spec_any_addr(),
                        cfg.replica_port,
                    ));
                    assert(k == i as int);
                }
                let mut l = self.listeners.remove(i);
                l.ana_state = ana_state;
                self.listeners.insert(i, l);
                proof {
                    assert(final(self).listeners@ =~= old(self).listeners@.update(
                        i as int,
                        Listener { trid: old(self).listeners@[i as int].trid, ana_state },
                    ));
                }
                return Ok(());
            }
            i += 1;
        }
        proof {
            assert(!spec_has_listener(self.listeners@, spec_any_addr(), cfg.replica_port));
        }
        Err(Error::Listener { nqn: self.nqn.clone(), trid: trid.uri() })
    }

    /// Drives one lifecycle transition through the state-change engine.
    /// On success the state moves to `target`; on any failure the
    /// subsystem is left in its pre-call state.
    pub(crate) fn change_state(
        &mut self,
        op: StateChangeOp,
        target: SubsystemState,
        rcs: &Vec<i32>,
        cb_status: i32,
    ) -> (r: Result<(), Error>)
        requires
            old(self).wf(),
            rcs@.len() >= 4,
            !(target is Destroying),
            !(old(self).state is Destroying),
        ensures
            final(self).wf(),
            (r is Ok) == (spec_outcome(rcs@, cb_status) is Completed),
            r is Ok ==> (*final(self) == NvmfSubsystem { state: target, ..*old(self) }),
            r is Err ==> *final(self) == *old(self) && (match r {
                Err(e) => spec_change_error(e, spec_outcome(rcs@, cb_status), old(self).nqn@, op),
                Ok(_) => false,
            }),
    {
        let report = run_state_change(rcs, cb_status);
        match report.outcome {
            StateChangeOutcome::Completed => {
                self.state = target;
                Ok(())
            },
            StateChangeOutcome::Busy => Err(
                Error::SubsystemBusy { nqn: self.nqn.clone(), op: String::from_str(op.name()) },
            ),
            StateChangeOutcome::InitiationFailed(rc) => {
                let mut msg = String::from_str("failed to initiate ");
                msg.append(op.name());
                proof {
                    reveal_strlit("failed to initiate ");
                }
                Err(Error::Subsystem { source: rc, nqn: self.nqn.clone(), msg })
            },
            StateChangeOutcome::OpFailed(st) => {
                let mut msg = String::from_str(op.name());
                msg.append(" failed");
                proof {
                    reveal_strlit(" failed");
                }
                Err(Error::Subsystem { source: st, nqn: self.nqn.clone(), msg })
            },
        }
    }

    /// Stops the subsystem: Active or Paused moves to Inactive.
    pub fn stop(&mut self, rcs: &Vec<i32>, cb_status: i32) -> (r: Result<(), Error>)
        requires
            old(self).wf(),
            rcs@.len() >= 4,
            old(self).state is Active || old(self).state is Paused,
        ensures
            final(self).wf(),
            (r is Ok) == (spec_outcome(rcs@, cb_status) is Completed),
            r is Ok ==> (*final(self) == NvmfSubsystem {
                state: SubsystemState::Inactive,
                ..*old(self)
            }),
            r is Err ==> *final(self) == *old(self) && (match r {
                Err(e) => spec_change_error(
                    e,
                    spec_outcome(rcs@, cb_status),
                    old(self).nqn@,
                    StateChangeOp::Stop,
                ),
                Ok(_) => false,
            }),
    {
        self.change_state(StateChangeOp::Stop, SubsystemState::Inactive, rcs, cb_status)
    }

    /// Pauses the subsystem: Active moves to Paused.
    pub fn pause(&mut self, rcs: &Vec<i32>, cb_status: i32) -> (r: Result<(), Error>)
        requires
            old(self).wf(),
            rcs@.len() >= 4,
            old(self).state is Active,
        ensures
            final(self).wf(),
            (r is Ok) == (spec_outcome(rcs@, cb_status) is Completed),
            r is Ok ==> (*final(self) == NvmfSubsystem {
                state: SubsystemState::Paused,
                ..*old(self)
            }),
            r is Err ==> *final(self) == *old(self) && (match r {
                Err(e) => spec_change_error(
                    e,
                    spec_outcome(rcs@, cb_status),
                    old(self).nqn@,
                    StateChangeOp::Pause,
                ),
                Ok(_) => false,
            }),
    {
        self.change_state(StateChangeOp::Pause, SubsystemState::Paused, rcs, cb_status)
    }

    /// Resumes the subsystem: Paused moves back to Active.
    pub fn resume(&mut self, rcs: &Vec<i32>, cb_status: i32) -> (r: Result<(), Error>)
        requires
            old(self).wf(),
            rcs@.len() >= 4,
            old(self).state is Paused,
        ensures
            final(self).wf(),
            (r is Ok) == (spec_outcome(rcs@, cb_status) is Completed),
            r is Ok ==> (*final(self) == NvmfSubsystem {
                state: SubsystemState::Active,
                ..*old(self)
            }),
            r is Err ==> *final(self) == *old(self) && (match r {
                Err(e) => spec_change_error(
                    e,
                    spec_outcome(rcs@, cb_status),
                    old(self).nqn@,
                    StateChangeOp::Resume,
                ),
                Ok(_) => false,
            }),
    {
        self.change_state(StateChangeOp::Resume, SubsystemState::Active, rcs, cb_status)
    }
}

/// The effect of starting destruction: already-destroying reports the
/// sentinel and changes nothing; otherwise the state becomes Destroying.
pub open spec fn spec_destroy(s: NvmfSubsystem) -> (i32, NvmfSubsystem) {
    if s.destroying {
        ((-EALREADY) as i32, s)
    } else {
        (0 as i32, NvmfSubsystem { state: SubsystemState::Destroying, destroying: true, ..s })
    }
}

/// Destruction is idempotent: after one call has started it, a second
/// call reports the already-destroying sentinel and changes nothing.
pub proof fn lemma_destroy_idempotent(s: NvmfSubsystem)
    ensures
        spec_destroy(spec_destroy(s).1).0 == (-EALREADY) as i32,
        spec_destroy(spec_destroy(s).1).1 == spec_destroy(s).1,
{
}

/// The error a failed state change carries, for each engine outcome.
pub open spec fn spec_change_error(
    e: Error,
    outcome: StateChangeOutcome,
    nqn: Seq<char>,
    op: StateChangeOp,
) -> bool {
    match (outcome, e) {
        (StateChangeOutcome::Busy, Error::SubsystemBusy { nqn: n, op: o }) => n@ == nqn && o@
            == op.spec_name(),
        (
            StateChangeOutcome::InitiationFailed(rc),
            Error::Subsystem { source, nqn: n, msg },
        ) => source == rc && n@ == nqn && msg@ == "failed to initiate "@ + op.spec_name(),
        (StateChangeOutcome::OpFailed(st), Error::Subsystem { source, nqn: n, msg }) => source == st
            && n@ == nqn && msg@ == op.spec_name() + " failed"@,
        _ => false,
    }
}

/// A byte-for-byte copy.
pub fn clone_bytes(v: &Vec<u8>) -> (r: Vec<u8>)
    ensures
        r@ == v@,
{
    let mut out: Vec<u8> = Vec::new();
    let mut i: usize = 0;
    while i < v.len()
        invariant
            i <= v@.len(),
            out@ =~= v@.take(i as int),
        decreases v@.len() - i,
    {
        out.push(v[i]);
        proof {
            assert(out@ =~= v@.take(i as int + 1));
        }
        i += 1;
    }
    proof {
        assert(v@.take(v@.len() as int) =~= v@);
    }
    out
}

} // verus!
