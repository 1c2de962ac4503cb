//! Event dispatch. The fabric target raises one callback for every
//! subsystem-level event; the dispatcher classifies the subsystem's NQN
//! as nexus, replica or unknown and computes the actions to perform: an
//! observability event to emit, initiator bookkeeping on the nexus, and
//! which completion interceptor to install on the controller.
//!
//! The caller performs the actions; this module only decides them.

use vstd::prelude::*;
use crate::target::{spec_classify, BdevInfo, NqnTarget, NqnTargetV};

verus! {

/// What the control plane reads of a per-connection controller.
pub struct ControllerInfo {
    /// The host NQN the controller belongs to.
    pub host_nqn: String,
}

/// A subsystem-level event raised by the fabric target.
pub enum NvmfSubsystemEvent {
    HostConnect(ControllerInfo),
    HostDisconnect(ControllerInfo),
    HostKeepAliveTimeout(ControllerInfo),
    Unknown,
}

/// The observability action an event emits.
#[derive(Clone, Copy, Debug, PartialEq, Eq, Structural)]
pub enum EventAction {
    NvmeConnect,
    NvmeDisconnect,
    NvmeKeepAliveTimeout,
}

/// One action the caller is to perform, in order.
pub enum DispatchAction {
    /// Emit an observability event for this host.
    EmitEvent { action: EventAction, host: String },
    /// Register the host as an initiator on the nexus.
    NexusAddInitiator { nexus: String, host: String },
    /// Remove the host from the nexus's initiators.
    NexusRemoveInitiator { nexus: String, host: String },
    /// Tell the nexus a keep-alive timeout hit this host.
    NexusKeepAliveTimeout { nexus: String, host: String },
    /// Install the nexus completion interceptor on the controller.
    InstallNexusInterceptor { host: String },
    /// Install the replica completion interceptor on the controller.
    InstallReplicaInterceptor { host: String },
    /// Clear the controller's completion interceptor.
    ClearInterceptor { host: String },
    /// Log that no target was found for the event's NQN.
    WarnUnknownTarget,
}

/// The ghost image of a dispatch action.
pub ghost enum DispatchActionV {
    EmitEvent { action: EventAction, host: Seq<char> },
    NexusAddInitiator { nexus: Seq<char>, host: Seq<char> },
    NexusRemoveInitiator { nexus: Seq<char>, host: Seq<char> },
    NexusKeepAliveTimeout { nexus: Seq<char>, host: Seq<char> },
    InstallNexusInterceptor { host: Seq<char> },
    InstallReplicaInterceptor { host: Seq<char> },
    ClearInterceptor { host: Seq<char> },
    WarnUnknownTarget,
}

impl View for DispatchAction {
    type V = DispatchActionV;

    open spec fn view(&self) -> DispatchActionV {
        match self {
            DispatchAction::EmitEvent { action, host } => DispatchActionV::EmitEvent {
                action: *action,
                host: host@,
            },
            DispatchAction::NexusAddInitiator { nexus, host } => DispatchActionV::NexusAddInitiator {
                nexus: nexus@,
                host: host@,
            },
            DispatchAction::NexusRemoveInitiator {
                nexus,
                host,
            } => DispatchActionV::NexusRemoveInitiator { nexus: nexus@, host: host@ },
            DispatchAction::NexusKeepAliveTimeout {
                nexus,
                host,
            } => DispatchActionV::NexusKeepAliveTimeout { nexus: nexus@, host: host@ },
            DispatchAction::InstallNexusInterceptor {
                host,
            } => DispatchActionV::InstallNexusInterceptor { host: host@ },
            DispatchAction::InstallReplicaInterceptor {
                host,
            } => DispatchActionV::InstallReplicaInterceptor { host: host@ },
            DispatchAction::ClearInterceptor { host } => DispatchActionV::ClearInterceptor {
                host: host@,
            },
            DispatchAction::WarnUnknownTarget => DispatchActionV::WarnUnknownTarget,
        }
    }
}

impl DeepView for DispatchAction {
    type V = DispatchActionV;

    open spec fn deep_view(&self) -> DispatchActionV {
        self.view()
    }
}

/// The warning prefix: one warning when the NQN matches no target.
pub open spec fn spec_warn_prefix(t: NqnTargetV) -> Seq<DispatchActionV> {
    match t {
        NqnTargetV::NotFound => seq![DispatchActionV::WarnUnknownTarget],
        _ => Seq::empty(),
    }
}

/// The actions an event yields against a classified target, in order.
pub open spec fn spec_actions(ev: NvmfSubsystemEvent, t: NqnTargetV) -> Seq<DispatchActionV> {
    match ev {
        NvmfSubsystemEvent::HostConnect(c) => spec_warn_prefix(t) + seq![
            DispatchActionV::EmitEvent { action: EventAction::NvmeConnect, host: c.host_nqn@ },
        ] + (match t {
            NqnTargetV::Nexus(n) => seq![
                DispatchActionV::NexusAddInitiator { nexus: n, host: c.host_nqn@ },
                DispatchActionV::InstallNexusInterceptor { host: c.host_nqn@ },
            ],
            NqnTargetV::Replica(_) => seq![
                DispatchActionV::InstallReplicaInterceptor { host: c.host_nqn@ },
            ],
            NqnTargetV::NotFound => Seq::empty(),
        }),
        NvmfSubsystemEvent::HostDisconnect(c) => spec_warn_prefix(t) + seq![
            DispatchActionV::EmitEvent { action: EventAction::NvmeDisconnect, host: c.host_nqn@ },
        ] + (match t {
            NqnTargetV::Nexus(n) => seq![
                DispatchActionV::NexusRemoveInitiator { nexus: n, host: c.host_nqn@ },
                DispatchActionV::ClearInterceptor { host: c.host_nqn@ },
            ],
            NqnTargetV::Replica(_) => seq![
                DispatchActionV::ClearInterceptor { host: c.host_nqn@ },
            ],
            NqnTargetV::NotFound => Seq::empty(),
        }),
        NvmfSubsystemEvent::HostKeepAliveTimeout(c) => spec_warn_prefix(t) + seq![
            DispatchActionV::EmitEvent {
                action: EventAction::NvmeKeepAliveTimeout,
                host: c.host_nqn@,
            },
        ] + (match t {
            NqnTargetV::Nexus(n) => seq![
                DispatchActionV::NexusKeepAliveTimeout { nexus: n, host: c.host_nqn@ },
            ],
            NqnTargetV::Replica(_) => Seq::empty(),
            NqnTargetV::NotFound => Seq::empty(),
        }),
        NvmfSubsystemEvent::Unknown => spec_warn_prefix(t),
    }
}

/// Handles one subsystem event: classifies the subsystem's NQN against
/// the device list and returns the actions to perform, in order.
pub fn nvmf_subsystem_event_handler(
    nqn: &str,
    event: &NvmfSubsystemEvent,
    bdevs: &Vec<BdevInfo>,
) -> (r: Vec<DispatchAction>)
    ensures
        r.deep_view() == spec_actions(*event, spec_classify(nqn@, bdevs@)),
{
    let target = NqnTarget::lookup(nqn, bdevs);
    let mut out: Vec<DispatchAction> = Vec::new();
    if matches!(target, NqnTarget::NotFound) {
        out.push(DispatchAction::WarnUnknownTarget);
    }
    match event {
        NvmfSubsystemEvent::HostConnect(c) => {
            out.push(
                DispatchAction::EmitEvent {
                    action: EventAction::NvmeConnect,
                    host: c.host_nqn.clone(),
                },
            );
            match &target {
                NqnTarget::Nexus(n) => {
                    out.push(
                        DispatchAction::NexusAddInitiator {
                            nexus: n.clone(),
                            host: c.host_nqn.clone(),
                        },
                    );
                    out.push(
                        DispatchAction::InstallNexusInterceptor { host: c.host_nqn.clone() },
                    );
                },
                NqnTarget::Replica(_) => {
                    out.push(
                        DispatchAction::InstallReplicaInterceptor { host: c.host_nqn.clone() },
                    );
                },
                NqnTarget::NotFound => {},
            }
        },
        NvmfSubsystemEvent::HostDisconnect(c) => {
            out.push(
                DispatchAction::EmitEvent {
                    action: EventAction::NvmeDisconnect,
                    host: c.host_nqn.clone(),
                },
            );
            match &target {
                NqnTarget::Nexus(n) => {
                    out.push(
                        DispatchAction::NexusRemoveInitiator {
                            nexus: n.clone(),
                            host: c.host_nqn.clone(),
                        },
                    );
                    out.push(DispatchAction::ClearInterceptor { host: c.host_nqn.clone() });
                },
                NqnTarget::Replica(_) => {
                    out.push(DispatchAction::ClearInterceptor { host: c.host_nqn.clone() });
                },
                NqnTarget::NotFound => {},
            }
        },
        NvmfSubsystemEvent::HostKeepAliveTimeout(c) => {
            out.push(
                DispatchAction::EmitEvent {
                    action: EventAction::NvmeKeepAliveTimeout,
                    host: c.host_nqn.clone(),
                },
            );
            match &target {
                NqnTarget::Nexus(n) => {
                    out.push(
                        DispatchAction::NexusKeepAliveTimeout {
                            nexus: n.clone(),
                            host: c.host_nqn.clone(),
                        },
                    );
                },
                NqnTarget::Replica(_) => {},
                NqnTarget::NotFound => {},
            }
        },
        NvmfSubsystemEvent::Unknown => {},
    }
    proof {
        assert(out.deep_view() =~= spec_actions(*event, spec_classify(nqn@, bdevs@)));
    }
    out
}

/// How the controller reset path concludes: a reset that found its
/// controller and started reports through the completion callback;
/// otherwise failure is reported at once.
#[derive(Clone, Copy, Debug, PartialEq, Eq, Structural)]
pub enum ResetDisposition {
    /// Report failure to the waiter immediately.
    ReportFailure,
    /// Await the reset completion callback.
    AwaitCompletion,
}

/// Decides the controller reset path: only a reset whose controller was
/// found and whose initiation succeeded is awaited.
pub fn reset_controller_plan(found: bool, initiated: bool) -> (r: ResetDisposition)
    ensures
        (r is AwaitCompletion) == (found && initiated),
{
    if found && initiated {
        ResetDisposition::AwaitCompletion
    } else {
        ResetDisposition::ReportFailure
    }
}

} // verus!
