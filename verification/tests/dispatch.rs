use nvmf_subsys::events::{
    nvmf_subsystem_event_handler, reset_controller_plan, ControllerInfo, DispatchAction,
    EventAction, NvmfSubsystemEvent, ResetDisposition,
};
use nvmf_subsys::target::{BdevInfo, NqnTarget};

fn devices() -> Vec<BdevInfo> {
    vec![
        BdevInfo {
            name: "n1".to_string(),
            driver: "NEXUS_CS_MODULE".to_string(),
            uuid: vec![1u8; 16],
            claimed: false,
        },
        BdevInfo {
            name: "l1".to_string(),
            driver: "lvol".to_string(),
            uuid: vec![2u8; 16],
            claimed: false,
        },
        BdevInfo {
            name: "mem0".to_string(),
            driver: "malloc".to_string(),
            uuid: vec![3u8; 16],
            claimed: false,
        },
    ]
}

fn host() -> ControllerInfo {
    ControllerInfo { host_nqn: "nqn.2014-08.org.nvmexpress:uuid:host-1".to_string() }
}

#[test]
fn lookup_classifies_nexus_replica_and_unknown() {
    let bdevs = devices();
    assert!(matches!(
        NqnTarget::lookup("nqn.2019-05.io.openebs:n1", &bdevs),
        NqnTarget::Nexus(n) if n == "n1"
    ));
    assert!(matches!(
        NqnTarget::lookup("nqn.2019-05.io.openebs:l1", &bdevs),
        NqnTarget::Replica(n) if n == "l1"
    ));
    assert!(matches!(NqnTarget::lookup("nqn.other:x", &bdevs), NqnTarget::NotFound));
    assert!(matches!(NqnTarget::lookup("malformed", &bdevs), NqnTarget::NotFound));
    assert!(matches!(
        NqnTarget::lookup("nqn.2019-05.io.openebs:mem0", &bdevs),
        NqnTarget::NotFound
    ));
    assert!(matches!(
        NqnTarget::lookup("nqn.2019-05.io.openebs:n1:extra", &bdevs),
        NqnTarget::NotFound
    ));
    let empty: Vec<BdevInfo> = Vec::new();
    assert!(matches!(
        NqnTarget::lookup("nqn.2019-05.io.openebs:n1", &empty),
        NqnTarget::NotFound
    ));
}

#[test]
fn nexus_connect_registers_initiator_and_interceptor() {
    let actions = nvmf_subsystem_event_handler(
        "nqn.2019-05.io.openebs:n1",
        &NvmfSubsystemEvent::HostConnect(host()),
        &devices(),
    );
    assert_eq!(actions.len(), 3);
    assert!(matches!(
        &actions[0],
        DispatchAction::EmitEvent { action: EventAction::NvmeConnect, .. }
    ));
    assert!(matches!(
        &actions[1],
        DispatchAction::NexusAddInitiator { nexus, host }
            if nexus == "n1" && host == "nqn.2014-08.org.nvmexpress:uuid:host-1"
    ));
    assert!(matches!(&actions[2], DispatchAction::InstallNexusInterceptor { .. }));
}

#[test]
fn nexus_disconnect_clears_initiator_and_interceptor() {
    let actions = nvmf_subsystem_event_handler(
        "nqn.2019-05.io.openebs:n1",
        &NvmfSubsystemEvent::HostDisconnect(host()),
        &devices(),
    );
    assert_eq!(actions.len(), 3);
    assert!(matches!(
        &actions[0],
        DispatchAction::EmitEvent { action: EventAction::NvmeDisconnect, .. }
    ));
    assert!(matches!(&actions[1], DispatchAction::NexusRemoveInitiator { .. }));
    assert!(matches!(&actions[2], DispatchAction::ClearInterceptor { .. }));
}

#[test]
fn replica_connect_installs_the_replica_interceptor() {
    let actions = nvmf_subsystem_event_handler(
        "nqn.2019-05.io.openebs:l1",
        &NvmfSubsystemEvent::HostConnect(host()),
        &devices(),
    );
    assert_eq!(actions.len(), 2);
    assert!(matches!(
        &actions[0],
        DispatchAction::EmitEvent { action: EventAction::NvmeConnect, .. }
    ));
    assert!(matches!(&actions[1], DispatchAction::InstallReplicaInterceptor { .. }));
}

#[test]
fn replica_keep_alive_timeout_is_log_only() {
    let actions = nvmf_subsystem_event_handler(
        "nqn.2019-05.io.openebs:l1",
        &NvmfSubsystemEvent::HostKeepAliveTimeout(host()),
        &devices(),
    );
    assert_eq!(actions.len(), 1);
    assert!(matches!(
        &actions[0],
        DispatchAction::EmitEvent { action: EventAction::NvmeKeepAliveTimeout, .. }
    ));
}

#[test]
fn nexus_keep_alive_timeout_notifies_the_nexus() {
    let actions = nvmf_subsystem_event_handler(
        "nqn.2019-05.io.openebs:n1",
        &NvmfSubsystemEvent::HostKeepAliveTimeout(host()),
        &devices(),
    );
    assert_eq!(actions.len(), 2);
    assert!(matches!(
        &actions[1],
        DispatchAction::NexusKeepAliveTimeout { nexus, .. } if nexus == "n1"
    ));
}

#[test]
fn unknown_target_only_warns() {
    let actions = nvmf_subsystem_event_handler(
        "nqn.2019-05.io.openebs:ghost",
        &NvmfSubsystemEvent::HostConnect(host()),
        &devices(),
    );
    assert_eq!(actions.len(), 2);
    assert!(matches!(&actions[0], DispatchAction::WarnUnknownTarget));
    assert!(matches!(&actions[1], DispatchAction::EmitEvent { .. }));

    let actions = nvmf_subsystem_event_handler(
        "nqn.2019-05.io.openebs:ghost",
        &NvmfSubsystemEvent::Unknown,
        &devices(),
    );
    assert_eq!(actions.len(), 1);
    assert!(matches!(&actions[0], DispatchAction::WarnUnknownTarget));
}

#[test]
fn reset_waits_only_after_a_clean_initiation() {
    assert!(matches!(reset_controller_plan(true, true), ResetDisposition::AwaitCompletion));
    assert!(matches!(reset_controller_plan(false, true), ResetDisposition::ReportFailure));
    assert!(matches!(reset_controller_plan(true, false), ResetDisposition::ReportFailure));
}
