//! The subsystem registry: the process-wide set of live subsystems, kept
//! unique by NQN. Creation registers a subsystem; a failed start destroys
//! it and removes it again.

use vstd::prelude::*;
use vstd::string::*;
use vstd::utf8::encode_utf8;
use crate::config::Config;
use crate::digest::{make_subsystem_serial, serial_of};
use crate::engine::{spec_outcome, StateChangeOp};
use crate::error::{Error, EEXIST};
use crate::naming::{make_nqn, nvme_controller_model_id, spec_make_nqn};
use crate::strings::str_eq;
use crate::subsystem::{
    spec_change_error, spec_has_listener, NvmfSubsystem, SubType, SubsystemState,
    CNTLID_MAX_DEFAULT, CNTLID_MIN_DEFAULT,
};
use crate::transport::spec_any_addr;
use crate::target::BdevInfo;

verus! {

/// The first device with the given name.
pub open spec fn spec_bdev_idx_from(bdevs: Seq<BdevInfo>, name: Seq<char>, i: int) -> Option<int>
    decreases bdevs.len() - i,
{
    if i < 0 || i >= bdevs.len() {
        None
    } else if bdevs[i].name@ == name {
        Some(i)
    } else {
        spec_bdev_idx_from(bdevs, name, i + 1)
    }
}

/// The serial a new subsystem gets: derived from the UUID bytes of the
/// like-named device when there is one, else from the UUID string itself.
pub open spec fn spec_new_serial(bdevs: Seq<BdevInfo>, uuid: Seq<char>) -> Seq<char> {
    match spec_bdev_idx_from(bdevs, uuid, 0) {
        Some(i) => serial_of(bdevs[i].uuid@),
        None => serial_of(encode_utf8(uuid)),
    }
}

/// A freshly created subsystem: NQN from the UUID, NVMe type, serial and
/// model installed, inactive, closed to any-host, without namespace,
/// listeners or allowed hosts, default controller-ID range.
pub open spec fn spec_fresh_subsystem(
    s: NvmfSubsystem,
    bdevs: Seq<BdevInfo>,
    uuid: Seq<char>,
) -> bool {
    &&& s.wf()
    &&& s.nqn@ == spec_make_nqn(uuid)
    &&& s.subtype == SubType::Nvme
    &&& s.serial@ == spec_new_serial(bdevs, uuid)
    &&& s.model@ == "Mayastor NVMe controller"@
    &&& s.state == SubsystemState::Inactive
    &&& s.destroying == false
    &&& s.allow_any_host == false
    &&& s.ana_reporting == false
    &&& s.namespace is None
    &&& s.listeners@.len() == 0
    &&& s.acl().len() == 0
    &&& s.cntlid_min == CNTLID_MIN_DEFAULT
    &&& s.cntlid_max == CNTLID_MAX_DEFAULT
}

/// Some registered subsystem carries this NQN.
pub open spec fn spec_contains_nqn(subs: Seq<NvmfSubsystem>, nqn: Seq<char>) -> bool {
    exists|i: int| 0 <= i < subs.len() && subs[i].nqn@ == nqn
}

/// A well-formed registry: every subsystem well-formed, NQNs pairwise
/// distinct.
pub open spec fn spec_registry_wf(subs: Seq<NvmfSubsystem>) -> bool {
    &&& (forall|i: int| 0 <= i < subs.len() ==> (#[trigger] subs[i]).wf())
    &&& (forall|i: int, j: int| 0 <= i < j < subs.len() ==> subs[i].nqn@ != subs[j].nqn@)
}

/// What stopping everything does to one subsystem: a stoppable one whose
/// transition completed becomes inactive, any other is untouched.
pub open spec fn spec_stopped(s: NvmfSubsystem, rcs: Seq<i32>, cb_status: i32) -> NvmfSubsystem {
    if (s.state is Active || s.state is Paused) && spec_outcome(rcs, cb_status)
        is Completed {
        NvmfSubsystem { state: SubsystemState::Inactive, ..s }
    } else {
        s
    }
}

/// The process-wide set of live subsystems.
pub struct Registry {
    pub subsystems: Vec<NvmfSubsystem>,
}

/// Walks the registry by position, in the order the registry keeps.
pub struct NvmfSubsystemIterator {
    pub pos: usize,
}

impl NvmfSubsystemIterator {
    pub fn new() -> (r: NvmfSubsystemIterator)
        ensures
            r.pos == 0,
    {
        NvmfSubsystemIterator { pos: 0 }
    }

    /// The next subsystem handle, advancing the cursor.
    pub fn next(&mut self, reg: &Registry) -> (r: Option<usize>)
        ensures
            old(self).pos < reg.subsystems@.len() ==> r == Some(old(self).pos) && final(self).pos
                == old(self).pos + 1,
            old(self).pos >= reg.subsystems@.len() ==> r is None && *final(self) == *old(self),
    {
        if self.pos < reg.subsystems.len() {
            let i = self.pos;
            self.pos = i + 1;
            Some(i)
        } else {
            None
        }
    }
}

/// Builds the in-memory subsystem object for a new registration.
fn build_subsystem(bdevs: &Vec<BdevInfo>, uuid: &str) -> (r: NvmfSubsystem)
    ensures
        spec_fresh_subsystem(r, bdevs@, uuid@),
{
    let nqn = make_nqn(uuid);
    let mut i: usize = 0;
    let n = bdevs.len();
    while i < n
        invariant
            i <= n,
            n == bdevs@.len(),
            nqn@ == spec_make_nqn(uuid@),
            spec_bdev_idx_from(bdevs@, uuid@, 0) == spec_bdev_idx_from(bdevs@, uuid@, i as int),
        decreases n - i,
    {
        if str_eq(bdevs[i].name.as_str(), uuid) {
            proof {
                assert(spec_bdev_idx_from(bdevs@, uuid@, i as int) == Some(i as int));
            }
            let serial = make_subsystem_serial(bdevs[i].uuid.as_slice());
            return assemble_subsystem(nqn, serial);
        }
        i += 1;
    }
    let serial = make_subsystem_serial(uuid.as_bytes());
    assemble_subsystem(nqn, serial)
}

/// The common tail of a fresh subsystem.
fn assemble_subsystem(nqn: String, serial: String) -> (r: NvmfSubsystem)
    ensures
        r.wf(),
        r.nqn@ == nqn@,
        r.serial@ == serial@,
        r.subtype == SubType::Nvme,
        r.model@ == "Mayastor NVMe controller"@,
        r.state == SubsystemState::Inactive,
        r.destroying == false,
        r.allow_any_host == false,
        r.ana_reporting == false,
        r.namespace is None,
        r.listeners@.len() == 0,
        r.acl().len() == 0,
        r.cntlid_min == CNTLID_MIN_DEFAULT,
        r.cntlid_max == CNTLID_MAX_DEFAULT,
{
    let r = NvmfSubsystem {
        nqn,
        subtype: SubType::Nvme,
        serial,
        model: String::from_str(nvme_controller_model_id()),
        state: SubsystemState::Inactive,
        destroying: false,
        allow_any_host: false,
        ana_reporting: false,
        namespace: None,
        listeners: Vec::new(),
        allowed_hosts: Vec::new(),
        cntlid_min: CNTLID_MIN_DEFAULT,
        cntlid_max: CNTLID_MAX_DEFAULT,
    };
    proof {
        assert(r.acl().len() == 0);
        assert(r.wf());
    }
    r
}

impl Registry {
    /// An empty registry.
    pub fn new() -> (r: Registry)
        ensures
            spec_registry_wf(r.subsystems@),
            r.subsystems@.len() == 0,
    {
        Registry { subsystems: Vec::new() }
    }

    /// A well-formed registry.
    pub open spec fn wf(self) -> bool {
        spec_registry_wf(self.subsystems@)
    }

    /// How many subsystems are registered.
    pub fn len(&self) -> (r: usize)
        ensures
            r == self.subsystems@.len(),
    {
        self.subsystems.len()
    }

    /// The subsystem at a handle.
    pub fn get(&self, i: usize) -> (r: &NvmfSubsystem)
        requires
            i < self.subsystems@.len(),
        ensures
            *r == self.subsystems@[i as int],
    {
        &self.subsystems[i]
    }

    /// Whether some subsystem carries this NQN.
    fn contains_nqn(&self, nqn: &str) -> (r: bool)
        ensures
            r == spec_contains_nqn(self.subsystems@, nqn@),
    {
        let mut i: usize = 0;
        while i < self.subsystems.len()
            invariant
                i <= self.subsystems@.len(),
                forall|j: int| 0 <= j < i ==> (#[trigger] self.subsystems@[j]).nqn@ != nqn@,
            decreases self.subsystems@.len() - i,
        {
            if str_eq(self.subsystems[i].nqn.as_str(), nqn) {
                return true;
            }
            i += 1;
        }
        proof {
            if spec_contains_nqn(self.subsystems@, nqn@) {
                let k = choose|k: int|
                    0 <= k < self.subsystems@.len() && self.subsystems@[k].nqn@ == nqn@;
            }
        }
        false
    }

    /// An iterator over the registry.
    pub fn iter(&self) -> (r: NvmfSubsystemIterator)
        ensures
            r.pos == 0,
    {
        NvmfSubsystemIterator::new()
    }

}

/// Removing an entry keeps a well-formed registry well-formed and keeps
/// every other NQN.
proof fn lemma_registry_remove(subs: Seq<NvmfSubsystem>, i: int)
    requires
        spec_registry_wf(subs),
        0 <= i < subs.len(),
    ensures
        spec_registry_wf(subs.remove(i)),
        !spec_contains_nqn(subs.remove(i), subs[i].nqn@),
{
    let rem = subs.remove(i);
    subs.remove_ensures(i);
    assert forall|a: int, b: int| 0 <= a < b < rem.len() implies rem[a].nqn@ != rem[b].nqn@ by {
        let oa: int = if a < i {
            a
        } else {
            a + 1
        };
        let ob: int = if b < i {
            b
        } else {
            b + 1
        };
        assert(rem[a] == subs[oa]);
        assert(rem[b] == subs[ob]);
    }
    assert forall|a: int| 0 <= a < rem.len() implies (#[trigger] rem[a]).wf() by {
        if a < i {
            assert(rem[a] == subs[a]);
        } else {
            assert(rem[a] == subs[a + 1]);
        }
    }
    if spec_contains_nqn(rem, subs[i].nqn@) {
        let k = choose|k: int| 0 <= k < rem.len() && rem[k].nqn@ == subs[i].nqn@;
        if k < i {
            assert(rem[k] == subs[k]);
        } else {
            assert(rem[k] == subs[k + 1]);
        }
    }
}

impl NvmfSubsystem {
    /// Starts the subsystem at a handle: binds the replica-port listener,
    /// then drives the start transition through the engine. On any
    /// failure the subsystem is destroyed and leaves the registry, so a
    /// failed start leaves no subsystem with that NQN behind.
    pub fn start(
        reg: &mut Registry,
        i: usize,
        cfg: &Config,
        listen_status: i32,
        rcs: &Vec<i32>,
        cb_status: i32,
    ) -> (r: Result<String, Error>)
        requires
            old(reg).wf(),
            i < old(reg).subsystems@.len(),
            old(reg).subsystems@[i as int].state is Inactive,
            rcs@.len() >= 4,
        ensures
            final(reg).wf(),
            (r is Ok) == (listen_status == 0 && spec_outcome(rcs@, cb_status) is Completed),
            match r {
                Ok(nqn) => {
                    &&& nqn@ == old(reg).subsystems@[i as int].nqn@
                    &&& final(reg).subsystems@.len() == old(reg).subsystems@.len()
                    &&& (forall|j: int|
                        0 <= j < final(reg).subsystems@.len() && j != i
                            ==> final(reg).subsystems@[j] == old(reg).subsystems@[j])
                    &&& final(reg).subsystems@[i as int].state is Active
                    &&& spec_has_listener(
                        final(reg).subsystems@[i as int].listeners@,
                        spec_any_addr(),
                        cfg.replica_port,
                    )
                    &&& (final(reg).subsystems@[i as int] == NvmfSubsystem {
                        state: SubsystemState::Active,
                        listeners: final(reg).subsystems@[i as int].listeners,
                        ..old(reg).subsystems@[i as int]
                    })
                },
                Err(e) => {
                    &&& final(reg).subsystems@ == old(reg).subsystems@.remove(i as int)
                    &&& !spec_contains_nqn(
                        final(reg).subsystems@,
                        old(reg).subsystems@[i as int].nqn@,
                    )
                    &&& (listen_status != 0 ==> (match e {
                        Error::Transport { source, .. } => source == listen_status,
                        _ => false,
                    }))
                    &&& (listen_status == 0 ==> spec_change_error(
                        e,
                        spec_outcome(rcs@, cb_status),
                        old(reg).subsystems@[i as int].nqn@,
                        StateChangeOp::Start,
                    ))
                },
            },
    {
        let mut ss = reg.subsystems.remove(i);
        proof {
            lemma_registry_remove(old(reg).subsystems@, i as int);
        }
        match ss.add_listener(cfg, listen_status) {
            Ok(_) => {},
            Err(e) => {
                let _rc = ss.shutdown_unsafe();
                return Err(e);
            },
        }
        match ss.change_state(StateChangeOp::Start, SubsystemState::Active, rcs, cb_status) {
            Ok(_) => {},
            Err(e) => {
                let _rc = ss.shutdown_unsafe();
                return Err(e);
            },
        }
        let nqn = ss.get_nqn();
        reg.subsystems.insert(i, ss);
        proof {
            let fin = final(reg).subsystems@;
            let orig = old(reg).subsystems@;
            assert(fin =~= orig.update(i as int, fin[i as int]));
            assert forall|a: int, b: int|
                0 <= a < b < fin.len() implies fin[a].nqn@ != fin[b].nqn@ by {
                assert(fin[a].nqn@ == orig[a].nqn@);
                assert(fin[b].nqn@ == orig[b].nqn@);
            }
        }
        Ok(nqn)
    }

    /// Stops every subsystem that is active or paused; failures leave the
    /// subsystem as it was and are not propagated. `rcs_all[j]` and
    /// `statuses[j]` are the foreign layer's answers for subsystem `j`.
    pub fn stop_all(reg: &mut Registry, rcs_all: &Vec<Vec<i32>>, statuses: &Vec<i32>)
        requires
            old(reg).wf(),
            rcs_all@.len() >= old(reg).subsystems@.len(),
            statuses@.len() >= old(reg).subsystems@.len(),
            forall|j: int| 0 <= j < rcs_all@.len() ==> (#[trigger] rcs_all@[j])@.len() >= 4,
        ensures
            final(reg).wf(),
            final(reg).subsystems@.len() == old(reg).subsystems@.len(),
            forall|j: int|
                0 <= j < old(reg).subsystems@.len() ==> #[trigger] final(reg).subsystems@[j]
                    == spec_stopped(old(reg).subsystems@[j], rcs_all@[j]@, statuses@[j]),
    {
        let n = reg.subsystems.len();
        let mut i: usize = 0;
        while i < n
            invariant
                i <= n,
                n == old(reg).subsystems@.len(),
                reg.subsystems@.len() == n,
                old(reg).wf(),
                rcs_all@.len() >= n,
                statuses@.len() >= n,
                forall|j: int| 0 <= j < rcs_all@.len() ==> (#[trigger] rcs_all@[j])@.len() >= 4,
                forall|j: int|
                    0 <= j < i ==> #[trigger] reg.subsystems@[j] == spec_stopped(
                        old(reg).subsystems@[j],
                        rcs_all@[j]@,
                        statuses@[j],
                    ),
                forall|j: int|
                    i <= j < n ==> #[trigger] reg.subsystems@[j] == old(reg).subsystems@[j],
                reg.wf(),
            decreases n - i,
        {
            let ghost pre = reg.subsystems@;
            let st = reg.subsystems[i].state;
            if matches!(st, SubsystemState::Active) || matches!(st, SubsystemState::Paused) {
                let mut ss = reg.subsystems.remove(i);
                match ss.stop(&rcs_all[i], statuses[i]) {
                    Ok(_) => {},
                    Err(_e) => {},
                }
                reg.subsystems.insert(i, ss);
                proof {
                    assert(reg.subsystems@ =~= pre.update(i as int, reg.subsystems@[i as int]));
                }
            }
            proof {
                assert(reg.subsystems@[i as int] == spec_stopped(
                    old(reg).subsystems@[i as int],
                    rcs_all@[i as int]@,
                    statuses@[i as int],
                ));
                assert forall|a: int, b: int|
                    0 <= a < b < reg.subsystems@.len() implies reg.subsystems@[a].nqn@
                    != reg.subsystems@[b].nqn@ by {
                    assert(reg.subsystems@[a].nqn@ == old(reg).subsystems@[a].nqn@);
                    assert(reg.subsystems@[b].nqn@ == old(reg).subsystems@[b].nqn@);
                }
            }
            i += 1;
        }
    }

    /// Destroys every subsystem and empties the registry. Legal only when
    /// every subsystem is already inactive, paused or destroying.
    pub fn destroy_all(reg: &mut Registry)
        requires
            old(reg).wf(),
            forall|j: int|
                0 <= j < old(reg).subsystems@.len() ==> ((#[trigger] old(
                    reg,
                ).subsystems@[j]).state is Inactive || old(reg).subsystems@[j].state is Paused
                    || old(reg).subsystems@[j].state is Destroying),
        ensures
            final(reg).wf(),
            final(reg).subsystems@.len() == 0,
    {
        reg.subsystems.clear();
    }

    /// The first subsystem, in registry order.
    pub fn first(reg: &Registry) -> (r: Option<&NvmfSubsystem>)
        ensures
            match r {
                Some(s) => reg.subsystems@.len() > 0 && *s == reg.subsystems@[0],
                None => reg.subsystems@.len() == 0,
            },
    {
        if reg.subsystems.len() == 0 {
            None
        } else {
            Some(&reg.subsystems[0])
        }
    }

    /// Looks a subsystem up by its UUID, through the NQN derived from it.
    pub fn nqn_lookup(reg: &Registry, uuid: &str) -> (r: Option<usize>)
        ensures
            match r {
                Some(i) => i < reg.subsystems@.len() && reg.subsystems@[i as int].nqn@
                    == spec_make_nqn(uuid@),
                None => !spec_contains_nqn(reg.subsystems@, spec_make_nqn(uuid@)),
            },
    {
        let nqn = make_nqn(uuid);
        let mut i: usize = 0;
        while i < reg.subsystems.len()
            invariant
                i <= reg.subsystems@.len(),
                nqn@ == spec_make_nqn(uuid@),
                forall|j: int|
                    0 <= j < i ==> (#[trigger] reg.subsystems@[j]).nqn@ != spec_make_nqn(uuid@),
            decreases reg.subsystems@.len() - i,
        {
            if str_eq(reg.subsystems[i].nqn.as_str(), nqn.as_str()) {
                return Some(i);
            }
            i += 1;
        }
        proof {
            if spec_contains_nqn(reg.subsystems@, spec_make_nqn(uuid@)) {
                let k = choose|k: int|
                    0 <= k < reg.subsystems@.len() && reg.subsystems@[k].nqn@ == spec_make_nqn(
                        uuid@,
                    );
            }
        }
        None
    }

    /// Creates a new NVMe-type subsystem whose NQN derives from the UUID
    /// and registers it, returning its handle. If a subsystem with that
    /// NQN already exists, nothing changes and the creation fails.
    pub fn new(reg: &mut Registry, bdevs: &Vec<BdevInfo>, uuid: &str) -> (r: Result<usize, Error>)
        requires
            old(reg).wf(),
        ensures
            final(reg).wf(),
            (r is Ok) == !spec_contains_nqn(old(reg).subsystems@, spec_make_nqn(uuid@)),
            r is Err ==> *final(reg) == *old(reg) && (match r {
                Err(Error::Subsystem { source, nqn, .. }) => source == EEXIST && nqn@ == uuid@,
                _ => false,
            }),
            match r {
                Ok(idx) => {
                    &&& idx == old(reg).subsystems@.len()
                    &&& final(reg).subsystems@.len() == old(reg).subsystems@.len() + 1
                    &&& final(reg).subsystems@.take(old(reg).subsystems@.len() as int) == old(
                        reg,
                    ).subsystems@
                    &&& spec_fresh_subsystem(final(reg).subsystems@.last(), bdevs@, uuid@)
                },
                Err(_) => true,
            },
    {
        let nqn = make_nqn(uuid);
        if reg.contains_nqn(nqn.as_str()) {
            return Err(
                Error::Subsystem {
                    source: EEXIST,
                    nqn: String::from_str(uuid),
                    msg: String::from_str("a subsystem with this NQN already exists"),
                },
            );
        }
        let ss = build_subsystem(bdevs, uuid);
        let idx = reg.subsystems.len();
        reg.subsystems.push(ss);
        proof {
            lemma_registry_push(old(reg).subsystems@, final(reg).subsystems@.last());
            assert(final(reg).subsystems@.take(old(reg).subsystems@.len() as int) =~= old(
                reg,
            ).subsystems@);
        }
        Ok(idx)
    }

    /// Creates a subsystem for the UUID, leaves ANA reporting off,
    /// forbids any-host access, and binds the device as the namespace.
    pub fn new_with_uuid(
        reg: &mut Registry,
        bdevs: &Vec<BdevInfo>,
        cfg: &Config,
        uuid: &str,
        bdev: &BdevInfo,
    ) -> (r: Result<usize, Error>)
        requires
            old(reg).wf(),
        ensures
            final(reg).wf(),
            (r is Ok) == !spec_contains_nqn(old(reg).subsystems@, spec_make_nqn(uuid@)),
            r is Err ==> *final(reg) == *old(reg) && (match r {
                Err(Error::Subsystem { source, nqn, .. }) => source == EEXIST && nqn@ == uuid@,
                _ => false,
            }),
            match r {
                Ok(idx) => {
                    &&& idx == old(reg).subsystems@.len()
                    &&& final(reg).subsystems@.len() == old(reg).subsystems@.len() + 1
                    &&& final(reg).subsystems@.take(old(reg).subsystems@.len() as int) == old(
                        reg,
                    ).subsystems@
                    &&& spec_registered_for_bdev(
                        final(reg).subsystems@.last(),
                        bdevs@,
                        uuid@,
                        *bdev,
                        None,
                    )
                },
                Err(_) => true,
            },
    {
        let nqn = make_nqn(uuid);
        if reg.contains_nqn(nqn.as_str()) {
            return Err(
                Error::Subsystem {
                    source: EEXIST,
                    nqn: String::from_str(uuid),
                    msg: String::from_str("a subsystem with this NQN already exists"),
                },
            );
        }
        let mut ss = build_subsystem(bdevs, uuid);
        match ss.set_ana_reporting(cfg, false) {
            Ok(_) => {},
            Err(e) => {
                return Err(e);
            },
        }
        ss.allow_any(false);
        match ss.add_namespace(bdev, None) {
            Ok(_) => {},
            Err(e) => {
                proof {
                    assert(false);
                }
                return Err(e);
            },
        }
        let idx = reg.subsystems.len();
        reg.subsystems.push(ss);
        proof {
            lemma_registry_push(old(reg).subsystems@, final(reg).subsystems@.last());
            assert(final(reg).subsystems@.take(old(reg).subsystems@.len() as int) =~= old(
                reg,
            ).subsystems@);
        }
        Ok(idx)
    }

    /// Exports a backing device: creates the subsystem named after the
    /// device, disables ANA reporting, forbids any-host access, and binds
    /// the device as the namespace, forwarding the reservation file path.
    /// A device already claimed by another consumer is rejected without
    /// creating anything.
    pub fn try_from_with(
        reg: &mut Registry,
        bdevs: &Vec<BdevInfo>,
        cfg: &Config,
        bdev: &BdevInfo,
        ptpl: Option<&String>,
    ) -> (r: Result<usize, Error>)
        requires
            old(reg).wf(),
        ensures
            final(reg).wf(),
            (r is Ok) == (!bdev.claimed && !spec_contains_nqn(
                old(reg).subsystems@,
                spec_make_nqn(bdev.name@),
            )),
            r is Err ==> *final(reg) == *old(reg) && (match r {
                Err(Error::CreateTarget { msg }) => bdev.claimed && msg@ == "already shared"@,
                Err(Error::Subsystem { source, nqn, .. }) => !bdev.claimed && source == EEXIST
                    && nqn@ == bdev.name@,
                _ => false,
            }),
            match r {
                Ok(idx) => {
                    &&& idx == old(reg).subsystems@.len()
                    &&& final(reg).subsystems@.len() == old(reg).subsystems@.len() + 1
                    &&& final(reg).subsystems@.take(old(reg).subsystems@.len() as int) == old(
                        reg,
                    ).subsystems@
                    &&& spec_registered_for_bdev(
                        final(reg).subsystems@.last(),
                        bdevs@,
                        bdev.name@,
                        *bdev,
                        match ptpl {
                            Some(p) => Some(p@),
                            None => None,
                        },
                    )
                },
                Err(_) => true,
            },
    {
        if bdev.claimed {
            return Err(Error::CreateTarget { msg: String::from_str("already shared") });
        }
        let nqn = make_nqn(bdev.name.as_str());
        if reg.contains_nqn(nqn.as_str()) {
            return Err(
                Error::Subsystem {
                    source: EEXIST,
                    nqn: bdev.name.clone(),
                    msg: String::from_str("a subsystem with this NQN already exists"),
                },
            );
        }
        let mut ss = build_subsystem(bdevs, bdev.name.as_str());
        match ss.set_ana_reporting(cfg, false) {
            Ok(_) => {},
            Err(e) => {
                return Err(e);
            },
        }
        ss.allow_any(false);
        match ss.add_namespace(bdev, ptpl) {
            Ok(_) => {},
            Err(e) => {
                proof {
                    assert(false);
                }
                return Err(e);
            },
        }
        let idx = reg.subsystems.len();
        reg.subsystems.push(ss);
        proof {
            lemma_registry_push(old(reg).subsystems@, final(reg).subsystems@.last());
            assert(final(reg).subsystems@.take(old(reg).subsystems@.len() as int) =~= old(
                reg,
            ).subsystems@);
        }
        Ok(idx)
    }

    /// Exports a backing device without a reservation file path.
    pub fn try_from(
        reg: &mut Registry,
        bdevs: &Vec<BdevInfo>,
        cfg: &Config,
        bdev: &BdevInfo,
    ) -> (r: Result<usize, Error>)
        requires
            old(reg).wf(),
        ensures
            final(reg).wf(),
            (r is Ok) == (!bdev.claimed && !spec_contains_nqn(
                old(reg).subsystems@,
                spec_make_nqn(bdev.name@),
            )),
            r is Err ==> *final(reg) == *old(reg),
            match r {
                Ok(idx) => {
                    &&& idx == old(reg).subsystems@.len()
                    &&& final(reg).subsystems@.len() == old(reg).subsystems@.len() + 1
                    &&& spec_registered_for_bdev(
                        final(reg).subsystems@.last(),
                        bdevs@,
                        bdev.name@,
                        *bdev,
                        None,
                    )
                },
                Err(_) => true,
            },
    {
        Self::try_from_with(reg, bdevs, cfg, bdev, None)
    }
}

/// A subsystem as registered for a backing device: fresh but for the
/// bound namespace.
pub open spec fn spec_registered_for_bdev(
    s: NvmfSubsystem,
    bdevs: Seq<BdevInfo>,
    uuid: Seq<char>,
    bdev: BdevInfo,
    ptpl: Option<Seq<char>>,
) -> bool {
    &&& s.wf()
    &&& s.nqn@ == spec_make_nqn(uuid)
    &&& s.subtype == SubType::Nvme
    &&& s.serial@ == spec_new_serial(bdevs, uuid)
    &&& s.model@ == "Mayastor NVMe controller"@
    &&& s.state == SubsystemState::Inactive
    &&& s.destroying == false
    &&& s.allow_any_host == false
    &&& s.ana_reporting == false
    &&& (match s.namespace {
        Some(ns) => {
            &&& ns.nsid == 1
            &&& ns.bdev_name@ == bdev.name@
            &&& ns.nguid@ == bdev.uuid@
            &&& (match (ns.ptpl, ptpl) {
                (Some(p), Some(q)) => p@ == q,
                (None, None) => true,
                _ => false,
            })
        },
        None => false,
    })
    &&& s.listeners@.len() == 0
    &&& s.acl().len() == 0
    &&& s.cntlid_min == CNTLID_MIN_DEFAULT
    &&& s.cntlid_max == CNTLID_MAX_DEFAULT
}

/// Appending a subsystem with a new NQN keeps the registry well-formed.
proof fn lemma_registry_push(subs: Seq<NvmfSubsystem>, s: NvmfSubsystem)
    requires
        spec_registry_wf(subs),
        s.wf(),
        !spec_contains_nqn(subs, s.nqn@),
    ensures
        spec_registry_wf(subs.push(s)),
{
    let out = subs.push(s);
    assert forall|a: int, b: int| 0 <= a < b < out.len() implies out[a].nqn@ != out[b].nqn@ by {
        if b == out.len() - 1 {
            assert(out[a] == subs[a]);
            if subs[a].nqn@ == s.nqn@ {
                assert(spec_contains_nqn(subs, s.nqn@));
            }
        } else {
            assert(out[a] == subs[a]);
            assert(out[b] == subs[b]);
        }
    }
    assert forall|a: int| 0 <= a < out.len() implies (#[trigger] out[a]).wf() by {
        if a < subs.len() {
            assert(out[a] == subs[a]);
        }
    }
}

} // verus!
