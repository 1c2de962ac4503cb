use nvmf_subsys::config::Config;
use nvmf_subsys::digest::make_subsystem_serial;
use nvmf_subsys::error::{Error, EBUSY, EEXIST, EINVAL};
use nvmf_subsys::naming::make_nqn;
use nvmf_subsys::registry::Registry;
use nvmf_subsys::subsystem::{
    NvmfSubsystem, SubType, SubsystemState, ANA_NON_OPTIMIZED, ANA_OPTIMIZED,
};
use nvmf_subsys::target::BdevInfo;
use nvmf_subsys::transport::TransportId;

fn bdev(name: &str, driver: &str, uuid: &[u8], claimed: bool) -> BdevInfo {
    BdevInfo {
        name: name.to_string(),
        driver: driver.to_string(),
        uuid: uuid.to_vec(),
        claimed,
    }
}

fn fresh(uuid: &str) -> NvmfSubsystem {
    NvmfSubsystem {
        nqn: make_nqn(uuid),
        subtype: SubType::Nvme,
        serial: make_subsystem_serial(uuid.as_bytes()),
        model: "Mayastor NVMe controller".to_string(),
        state: SubsystemState::Inactive,
        destroying: false,
        allow_any_host: false,
        ana_reporting: false,
        namespace: None,
        listeners: Vec::new(),
        allowed_hosts: Vec::new(),
        cntlid_min: 1,
        cntlid_max: 0xffef,
    }
}

fn ok_rcs() -> Vec<i32> {
    vec![0, 0, 0, 0]
}

#[test]
fn create_registers_and_duplicate_fails() {
    let mut reg = Registry::new();
    let bdevs: Vec<BdevInfo> = Vec::new();
    let uuid = "6e3c062c-293b-46e6-8ab3-ff13c1643437";
    let i = NvmfSubsystem::new(&mut reg, &bdevs, uuid).unwrap();
    assert_eq!(i, 0);
    assert_eq!(reg.len(), 1);
    assert_eq!(reg.get(0).nqn, make_nqn(uuid));
    assert_eq!(reg.get(0).serial.len(), 20);
    let err = NvmfSubsystem::new(&mut reg, &bdevs, uuid).unwrap_err();
    assert!(matches!(err, Error::Subsystem { source, .. } if source == EEXIST));
    assert_eq!(reg.len(), 1);
}

#[test]
fn serial_comes_from_like_named_bdev() {
    let mut reg = Registry::new();
    let uuid_bytes = [7u8; 16];
    let bdevs = vec![bdev("mem0", "malloc", &uuid_bytes, false)];
    let i = NvmfSubsystem::new(&mut reg, &bdevs, "mem0").unwrap();
    assert_eq!(reg.get(i).serial, make_subsystem_serial(&uuid_bytes));
}

#[test]
fn try_from_rejects_claimed_bdev() {
    let mut reg = Registry::new();
    let cfg = Config::new(8420, None);
    let b = bdev("mem0", "malloc", &[1u8; 16], true);
    let bdevs = vec![bdev("mem0", "malloc", &[1u8; 16], true)];
    let err = NvmfSubsystem::try_from(&mut reg, &bdevs, &cfg, &b).unwrap_err();
    assert!(matches!(err, Error::CreateTarget { .. }));
    assert_eq!(reg.len(), 0);
}

#[test]
fn try_from_binds_the_namespace() {
    let mut reg = Registry::new();
    let cfg = Config::new(8420, None);
    let b = bdev("mem0", "malloc", &[1u8; 16], false);
    let bdevs = vec![bdev("mem0", "malloc", &[1u8; 16], false)];
    let i = NvmfSubsystem::try_from(&mut reg, &bdevs, &cfg, &b).unwrap();
    let ss = reg.get(i);
    let ns = ss.namespace.as_ref().unwrap();
    assert_eq!(ns.nsid, 1);
    assert_eq!(ns.bdev_name, "mem0");
    assert_eq!(ns.nguid, vec![1u8; 16]);
    assert!(!ss.allow_any_host);
    assert!(!ss.ana_reporting);
}

#[test]
fn add_namespace_makes_nsid_one_and_bdev_visible() {
    let mut ss = fresh("u1");
    let b = bdev("mem0", "malloc", &[9u8; 16], false);
    ss.add_namespace(&b, None).unwrap();
    assert_eq!(ss.namespace.as_ref().unwrap().nsid, 1);
    assert_eq!(ss.bdev(), Some("mem0".to_string()));
    let err = ss.add_namespace(&b, None).unwrap_err();
    assert!(matches!(err, Error::Namespace { .. }));
}

#[test]
fn namespace_forwards_ptpl_path() {
    let mut ss = fresh("u1");
    let b = bdev("mem0", "malloc", &[9u8; 16], false);
    let ptpl = "/var/reservations/mem0.json".to_string();
    ss.add_namespace(&b, Some(&ptpl)).unwrap();
    assert_eq!(ss.namespace.as_ref().unwrap().ptpl, Some(ptpl));
}

#[test]
fn destroy_is_idempotent() {
    let mut ss = fresh("u1");
    assert_eq!(ss.destroy_unsafe(), 0);
    assert!(matches!(ss.state, SubsystemState::Destroying));
    // -EALREADY
    assert_eq!(ss.destroy_unsafe(), -114);
}

#[test]
fn shutdown_removes_namespace_then_destroys() {
    let mut ss = fresh("u1");
    let b = bdev("mem0", "malloc", &[9u8; 16], false);
    ss.add_namespace(&b, None).unwrap();
    assert_eq!(ss.shutdown_unsafe(), 0);
    assert!(ss.namespace.is_none());
    assert!(matches!(ss.state, SubsystemState::Destroying));
}

#[test]
fn start_activates_and_exports_uri() {
    let mut reg = Registry::new();
    let cfg = Config::new(8420, None);
    let bdevs: Vec<BdevInfo> = Vec::new();
    let uuid = "f099e2ea-61a9-40ce-a1c3-2cb13956355a";
    let i = NvmfSubsystem::new(&mut reg, &bdevs, uuid).unwrap();
    let nqn = NvmfSubsystem::start(&mut reg, i, &cfg, 0, &ok_rcs(), 0).unwrap();
    assert_eq!(nqn, make_nqn(uuid));
    assert!(matches!(reg.get(i).state, SubsystemState::Active));
    let uris = reg.get(i).uri_endpoints().unwrap();
    assert_eq!(uris, vec![format!("nvmf://0.0.0.0:8420/{nqn}")]);
}

#[test]
fn failed_start_leaves_no_subsystem_behind() {
    let mut reg = Registry::new();
    let cfg = Config::new(8420, None);
    let bdevs: Vec<BdevInfo> = Vec::new();
    let uuid = "f099e2ea-61a9-40ce-a1c3-2cb13956355a";

    // Listener addition fails.
    let i = NvmfSubsystem::new(&mut reg, &bdevs, uuid).unwrap();
    let err = NvmfSubsystem::start(&mut reg, i, &cfg, 22, &ok_rcs(), 0).unwrap_err();
    assert!(matches!(err, Error::Transport { source: 22, .. }));
    assert_eq!(reg.len(), 0);
    assert!(NvmfSubsystem::nqn_lookup(&reg, uuid).is_none());

    // The start transition stays busy.
    let i = NvmfSubsystem::new(&mut reg, &bdevs, uuid).unwrap();
    let busy = vec![EBUSY, EBUSY, EBUSY, EBUSY];
    let err = NvmfSubsystem::start(&mut reg, i, &cfg, 0, &busy, 0).unwrap_err();
    assert!(err.is_subsystem_busy());
    assert_eq!(reg.len(), 0);
    assert!(NvmfSubsystem::nqn_lookup(&reg, uuid).is_none());
}

#[test]
fn lifecycle_transitions_follow_the_table() {
    let mut ss = fresh("u1");
    ss.state = SubsystemState::Active;
    ss.pause(&ok_rcs(), 0).unwrap();
    assert!(matches!(ss.state, SubsystemState::Paused));
    ss.resume(&ok_rcs(), 0).unwrap();
    assert!(matches!(ss.state, SubsystemState::Active));
    ss.stop(&ok_rcs(), 0).unwrap();
    assert!(matches!(ss.state, SubsystemState::Inactive));
}

#[test]
fn busy_transition_leaves_state_alone() {
    let mut ss = fresh("u1");
    ss.state = SubsystemState::Active;
    let busy = vec![EBUSY, EBUSY, EBUSY, EBUSY];
    let err = ss.pause(&busy, 0).unwrap_err();
    assert!(matches!(err, Error::SubsystemBusy { .. }));
    assert!(matches!(ss.state, SubsystemState::Active));
}

#[test]
fn cntlid_range_is_validated() {
    let mut ss = fresh("u1");
    ss.set_cntlid_range(16, 31).unwrap();
    assert_eq!((ss.cntlid_min, ss.cntlid_max), (16, 31));
    let err = ss.set_cntlid_range(31, 16).unwrap_err();
    assert!(matches!(err, Error::Subsystem { source, .. } if source == EINVAL));
    assert_eq!((ss.cntlid_min, ss.cntlid_max), (16, 31));
}

#[test]
fn ana_reporting_is_gated_on_the_environment_flag() {
    let mut ss = fresh("u1");
    let off = Config::new(8420, None);
    ss.set_ana_reporting(&off, true).unwrap();
    assert!(!ss.ana_reporting);
    let wrong = Config::new(8420, Some("yes".to_string()));
    ss.set_ana_reporting(&wrong, true).unwrap();
    assert!(!ss.ana_reporting);
    let on = Config::new(8420, Some("1".to_string()));
    ss.set_ana_reporting(&on, true).unwrap();
    assert!(ss.ana_reporting);
}

#[test]
fn listener_is_added_once() {
    let mut ss = fresh("u1");
    let cfg = Config::new(8420, None);
    ss.add_listener(&cfg, 0).unwrap();
    ss.add_listener(&cfg, 0).unwrap();
    let trids = ss.listeners_to_vec().unwrap();
    assert_eq!(trids.len(), 1);
    assert_eq!(trids[0].trsvcid, 8420);
    let err = ss.add_listener(&cfg, 5).unwrap_err();
    assert!(matches!(err, Error::Transport { source: 5, .. }));
}

#[test]
fn ana_state_lives_on_the_replica_port_listener() {
    let mut ss = fresh("u1");
    let cfg = Config::new(8420, None);
    let err = ss.get_ana_state(&cfg).unwrap_err();
    assert!(matches!(err, Error::Listener { .. }));
    ss.add_listener(&cfg, 0).unwrap();
    assert_eq!(ss.get_ana_state(&cfg).unwrap(), ANA_OPTIMIZED);
    ss.set_ana_state(&cfg, ANA_NON_OPTIMIZED, 0).unwrap();
    assert_eq!(ss.get_ana_state(&cfg).unwrap(), ANA_NON_OPTIMIZED);
}

#[test]
fn stop_all_stops_every_running_subsystem() {
    let mut reg = Registry::new();
    let cfg = Config::new(8420, None);
    let bdevs: Vec<BdevInfo> = Vec::new();
    let a = NvmfSubsystem::new(&mut reg, &bdevs, "a-uuid").unwrap();
    let b = NvmfSubsystem::new(&mut reg, &bdevs, "b-uuid").unwrap();
    NvmfSubsystem::start(&mut reg, a, &cfg, 0, &ok_rcs(), 0).unwrap();
    NvmfSubsystem::start(&mut reg, b, &cfg, 0, &ok_rcs(), 0).unwrap();
    let rcs_all = vec![ok_rcs(), ok_rcs()];
    let statuses = vec![0, 0];
    NvmfSubsystem::stop_all(&mut reg, &rcs_all, &statuses);
    assert!(matches!(reg.get(a).state, SubsystemState::Inactive));
    assert!(matches!(reg.get(b).state, SubsystemState::Inactive));
}

#[test]
fn registry_iteration_and_lookup() {
    let mut reg = Registry::new();
    let bdevs: Vec<BdevInfo> = Vec::new();
    assert!(NvmfSubsystem::first(&reg).is_none());
    NvmfSubsystem::new(&mut reg, &bdevs, "a-uuid").unwrap();
    NvmfSubsystem::new(&mut reg, &bdevs, "b-uuid").unwrap();
    assert_eq!(NvmfSubsystem::first(&reg).unwrap().nqn, make_nqn("a-uuid"));
    let mut it = reg.iter();
    let mut seen = Vec::new();
    while let Some(i) = it.next(&reg) {
        seen.push(reg.get(i).nqn.clone());
    }
    assert_eq!(seen, vec![make_nqn("a-uuid"), make_nqn("b-uuid")]);
    assert_eq!(NvmfSubsystem::nqn_lookup(&reg, "b-uuid"), Some(1));
    assert_eq!(NvmfSubsystem::nqn_lookup(&reg, "missing"), None);
    NvmfSubsystem::destroy_all(&mut reg);
    assert_eq!(reg.len(), 0);
}

#[test]
fn subtype_reports_the_kind() {
    let ss = fresh("u1");
    assert!(matches!(ss.subtype(), SubType::Nvme));
    assert_eq!(ss.get_nqn(), make_nqn("u1"));
}

#[test]
fn transport_ids_compare_structurally() {
    assert!(TransportId::new(8420) == TransportId::new(8420));
    assert!(TransportId::new(8420) != TransportId::new(8430));
    assert_eq!(TransportId::new(4420).uri(), "nvmf://0.0.0.0:4420");
}
