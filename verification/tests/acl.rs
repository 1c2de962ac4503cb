use nvmf_subsys::error::Error;
use nvmf_subsys::naming::make_nqn;
use nvmf_subsys::subsystem::{NvmfSubsystem, SubType, SubsystemState};

fn subsystem() -> NvmfSubsystem {
    NvmfSubsystem {
        nqn: make_nqn("acl-test"),
        subtype: SubType::Nvme,
        serial: "0123456789abcdef0123".to_string(),
        model: "Mayastor NVMe controller".to_string(),
        state: SubsystemState::Inactive,
        destroying: false,
        allow_any_host: false,
        ana_reporting: false,
        namespace: None,
        listeners: Vec::new(),
        allowed_hosts: Vec::new(),
        cntlid_min: 1,
        cntlid_max: 0xffef,
    }
}

const HOST_A: &str = "nqn.2019-05.io.openebs:host-a";
const HOST_B: &str = "nqn.2019-05.io.openebs:host-b";
const HOST_C: &str = "nqn.2019-05.io.openebs:host-c";

#[test]
fn allow_then_disallow_leaves_host_absent() {
    let mut ss = subsystem();
    ss.allow_host(HOST_A).unwrap();
    assert_eq!(ss.allowed_hosts(), vec![HOST_A.to_string()]);
    ss.disallow_host(HOST_A).unwrap();
    assert!(!ss.allowed_hosts().contains(&HOST_A.to_string()));
    assert!(ss.allowed_hosts().is_empty());
}

#[test]
fn allow_is_idempotent() {
    let mut ss = subsystem();
    ss.allow_host(HOST_A).unwrap();
    ss.allow_host(HOST_A).unwrap();
    assert_eq!(ss.allowed_hosts().len(), 1);
}

#[test]
fn disallow_of_absent_host_is_a_no_op() {
    let mut ss = subsystem();
    ss.allow_host(HOST_A).unwrap();
    ss.disallow_host(HOST_B).unwrap();
    assert_eq!(ss.allowed_hosts(), vec![HOST_A.to_string()]);
}

#[test]
fn interior_nul_is_rejected() {
    let mut ss = subsystem();
    let err = ss.allow_host("bad\0host").unwrap_err();
    assert!(matches!(err, Error::HostCstrNul { .. }));
    assert!(ss.allowed_hosts().is_empty());
    let err = ss.disallow_host("bad\0host").unwrap_err();
    assert!(matches!(err, Error::HostCstrNul { .. }));
}

#[test]
fn allow_and_disallow_lists() {
    let mut ss = subsystem();
    ss.allow_hosts(&vec![HOST_A.to_string(), HOST_B.to_string()]).unwrap();
    assert_eq!(ss.allowed_hosts().len(), 2);
    ss.disallow_hosts(&vec![HOST_A.to_string(), HOST_B.to_string()]).unwrap();
    assert!(ss.allowed_hosts().is_empty());
}

#[test]
fn reconcile_adds_keeps_and_disconnects() {
    let mut ss = subsystem();
    ss.allow_host(HOST_A).unwrap();
    ss.allow_host(HOST_B).unwrap();

    let removed = ss.set_allowed_hosts(&vec![HOST_B.to_string(), HOST_C.to_string()]).unwrap();

    let allowed = ss.allowed_hosts();
    assert_eq!(allowed.len(), 2);
    assert!(allowed.contains(&HOST_B.to_string()));
    assert!(allowed.contains(&HOST_C.to_string()));
    assert!(!allowed.contains(&HOST_A.to_string()));

    // Host A is disconnected exactly once; B and C are not.
    assert_eq!(removed, vec![HOST_A.to_string()]);
}

#[test]
fn reconcile_with_empty_set_is_a_no_op() {
    let mut ss = subsystem();
    ss.allow_host(HOST_A).unwrap();
    let removed = ss.set_allowed_hosts(&Vec::new()).unwrap();
    assert!(removed.is_empty());
    assert_eq!(ss.allowed_hosts(), vec![HOST_A.to_string()]);
}

#[test]
fn disconnect_host_reports_the_target_status() {
    let ss = subsystem();
    assert!(ss.disconnect_host(HOST_A, 0).is_ok());
    let err = ss.disconnect_host(HOST_A, 5).unwrap_err();
    assert!(matches!(err, Error::Subsystem { source: 5, .. }));
    let err = ss.disconnect_host("bad\0host", 0).unwrap_err();
    assert!(matches!(err, Error::HostCstrNul { .. }));
}
