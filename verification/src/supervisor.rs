//! sessiond's supervisor of a running profile: the launch state of each
//! component across spawns, exits and restarts, recovery of a service's
//! component on the watchdog's request, and the launch-state snapshots it
//! streams. Processes themselves are started and reaped by the caller.
use vstd::prelude::*;
use crate::profile::{
    DesktopComponent, DesktopComponentRole, DesktopComponentState, DesktopProfile, SessionLaunchComponentState,
    SessionLaunchState,
};
use crate::service::ServiceRole;

verus! {

/// What starting a component's process came to.
#[derive(Debug, Clone, Copy, PartialEq, Eq, Structural)]
pub enum SpawnAttempt {
    /// The component's command did not resolve; nothing was started.
    NoCommand,
    /// The process started with this pid.
    Started { pid: u32 },
    /// Starting the process failed.
    Failed,
}

/// The launch state after a spawn attempt.
pub open spec fn spawned_state(before: SessionLaunchComponentState, attempt: SpawnAttempt, after: SessionLaunchComponentState) -> bool {
    &&& after.id == before.id && after.role == before.role && after.critical == before.critical
    &&& after.command == before.command && after.resolved_command == before.resolved_command
    &&& after.restart_count == before.restart_count
    &&& match attempt {
        SpawnAttempt::NoCommand => after.state == DesktopComponentState::Missing && after.pid is None
            && after.last_exit_status == before.last_exit_status,
        SpawnAttempt::Started { pid } => after.state == DesktopComponentState::Spawned && after.pid == Some(pid)
            && after.last_exit_status == before.last_exit_status,
        SpawnAttempt::Failed => after.state == DesktopComponentState::Failed && after.pid is None
            && after.last_exit_status == Some(-1i32),
    }
}

/// Records a spawn attempt: a component without a command is missing, a
/// started one spawned with its pid, a failed one failed with exit status -1.
pub fn record_spawn(state: &mut SessionLaunchComponentState, attempt: SpawnAttempt)
    ensures
        spawned_state(*old(state), attempt, *final(state)),
{
    match attempt {
        SpawnAttempt::NoCommand => {
            state.state = DesktopComponentState::Missing;
            state.pid = None;
        },
        SpawnAttempt::Started { pid } => {
            state.state = DesktopComponentState::Spawned;
            state.pid = Some(pid);
        },
        SpawnAttempt::Failed => {
            state.state = DesktopComponentState::Failed;
            state.pid = None;
            state.last_exit_status = Some(-1);
        },
    }
}

/// Records that a component's process exited with `exit_code` and says
/// whether to start it again: a critical component is restarted while its
/// restart count stays within the limit; otherwise it is failed.
pub fn record_exit(state: &mut SessionLaunchComponentState, critical: bool, exit_code: Option<i32>, restart_limit: u32) -> (restart: bool)
    requires
        old(state).restart_count < u32::MAX,
    ensures
        final(state).id == old(state).id && final(state).role == old(state).role,
        final(state).critical == old(state).critical && final(state).command == old(state).command,
        final(state).resolved_command == old(state).resolved_command,
        final(state).pid is None,
        final(state).last_exit_status == exit_code,
        final(state).restart_count == old(state).restart_count + 1,
        restart == (critical && old(state).restart_count + 1 <= restart_limit),
        final(state).state == (if restart { old(state).state } else { DesktopComponentState::Failed }),
{
    state.pid = None;
    state.last_exit_status = exit_code;
    state.restart_count = state.restart_count + 1;
    if critical && state.restart_count <= restart_limit {
        true
    } else {
        state.state = DesktopComponentState::Failed;
        false
    }
}

/// Records that a component's process was stopped.
pub fn record_stop(state: &mut SessionLaunchComponentState)
    ensures
        *final(state) == (SessionLaunchComponentState { pid: None, ..*old(state) }),
{
    state.pid = None;
}

/// How the component to restart for a service was found.
#[derive(Debug, PartialEq, Eq)]
pub struct RecoveryResolution {
    /// The component the profile binds to the service, if it binds one.
    pub bound_component_id: Option<String>,
    /// "explicit" for a binding, "legacy_fallback" for a match by role.
    pub resolution_source: String,
    /// Index of the component to restart, if one was found.
    pub index: Option<usize>,
}

/// The component role a service falls back to without a binding: compd's
/// window manager and lockd's lock screen.
pub open spec fn legacy_component_role(role: ServiceRole) -> Option<DesktopComponentRole> {
    match role {
        ServiceRole::Compd => Some(DesktopComponentRole::WindowManager),
        ServiceRole::Lockd => Some(DesktopComponentRole::LockScreen),
        _ => None,
    }
}

/// `i` is the first component whose id is `id`.
pub open spec fn first_with_id(components: Seq<SessionLaunchComponentState>, id: Seq<char>, i: int) -> bool {
    0 <= i < components.len() && components[i].id@ == id
        && forall|j: int| 0 <= j < i ==> #[trigger] components[j].id@ != id
}

/// `i` is the first component with role `role`.
pub open spec fn first_with_role(components: Seq<SessionLaunchComponentState>, role: DesktopComponentRole, i: int) -> bool {
    0 <= i < components.len() && components[i].role == role
        && forall|j: int| 0 <= j < i ==> #[trigger] components[j].role != role
}

/// Finds the component to restart for a service: the first component bound
/// to it when the profile binds one (by the first binding), else the first
/// component with its fallback role.
pub fn resolve_recovery_target(profile: &DesktopProfile, components: &Vec<SessionLaunchComponentState>, role: ServiceRole)
    -> (r: RecoveryResolution)
    ensures
        match r.bound_component_id {
            Some(id) => {
                &&& r.resolution_source@ == "explicit"@
                &&& exists|b: int| 0 <= b < profile.service_component_bindings@.len()
                    && profile.service_component_bindings@[b].service == role
                    && profile.service_component_bindings@[b].component_id@ == id@
                    && forall|j: int| 0 <= j < b ==> #[trigger] profile.service_component_bindings@[j].service != role
                &&& match r.index {
                    Some(i) => first_with_id(components@, id@, i as int),
                    None => forall|j: int| 0 <= j < components@.len() ==> #[trigger] components@[j].id@ != id@,
                }
            },
            None => {
                &&& r.resolution_source@ == "legacy_fallback"@
                &&& forall|j: int| 0 <= j < profile.service_component_bindings@.len()
                    ==> #[trigger] profile.service_component_bindings@[j].service != role
                &&& match legacy_component_role(role) {
                    Some(cr) => match r.index {
                        Some(i) => first_with_role(components@, cr, i as int),
                        None => forall|j: int| 0 <= j < components@.len() ==> #[trigger] components@[j].role != cr,
                    },
                    None => r.index is None,
                }
            },
        },
{
    let mut b: usize = 0;
    while b < profile.service_component_bindings.len()
        invariant
            b <= profile.service_component_bindings@.len(),
            forall|j: int| 0 <= j < b ==> #[trigger] profile.service_component_bindings@[j].service != role,
        decreases profile.service_component_bindings@.len() - b,
    {
        if profile.service_component_bindings[b].service == role {
            let id = profile.service_component_bindings[b].component_id.clone();
            let mut i: usize = 0;
            while i < components.len()
                invariant
                    i <= components@.len(),
                    b < profile.service_component_bindings@.len(),
                    profile.service_component_bindings@[b as int].service == role,
                    profile.service_component_bindings@[b as int].component_id@ == id@,
                    forall|j: int| 0 <= j < b ==> #[trigger] profile.service_component_bindings@[j].service != role,
                    forall|j: int| 0 <= j < i ==> #[trigger] components@[j].id@ != id@,
                decreases components@.len() - i,
            {
                if components[i].id == id {
                    proof { reveal_strlit("explicit"); }
                    return RecoveryResolution {
                        bound_component_id: Some(id),
                        resolution_source: String::from_str("explicit"),
                        index: Some(i),
                    };
                }
                i += 1;
            }
            proof { reveal_strlit("explicit"); }
            return RecoveryResolution { bound_component_id: Some(id), resolution_source: String::from_str("explicit"), index: None };
        }
        b += 1;
    }
    proof { reveal_strlit("legacy_fallback"); }
    let target = match role {
        ServiceRole::Compd => DesktopComponentRole::WindowManager,
        ServiceRole::Lockd => DesktopComponentRole::LockScreen,
        _ => {
            return RecoveryResolution { bound_component_id: None, resolution_source: String::from_str("legacy_fallback"), index: None };
        },
    };
    let mut i: usize = 0;
    while i < components.len()
        invariant
            i <= components@.len(),
            legacy_component_role(role) == Some(target),
            forall|j: int| 0 <= j < profile.service_component_bindings@.len()
                ==> #[trigger] profile.service_component_bindings@[j].service != role,
            forall|j: int| 0 <= j < i ==> #[trigger] components@[j].role != target,
        decreases components@.len() - i,
    {
        if components[i].role == target {
            proof { reveal_strlit("legacy_fallback"); }
            return RecoveryResolution { bound_component_id: None, resolution_source: String::from_str("legacy_fallback"), index: Some(i) };
        }
        i += 1;
    }
    RecoveryResolution { bound_component_id: None, resolution_source: String::from_str("legacy_fallback"), index: None }
}

/// The record of one recovery execution.
#[derive(Debug, PartialEq, Eq)]
pub struct WatchdogExecutionArtifact {
    pub role: String,
    pub action: String,
    pub requested_at: u64,
    pub executed_at: u64,
    pub result: String,
    pub component_id: Option<String>,
    pub previous_pid: Option<u32>,
    pub new_pid: Option<u32>,
    pub reason: String,
    pub resolution_source: String,
    pub bound_component_id: Option<String>,
}

/// The execution record before the component is restarted: without a
/// component the recovery ends as "no-executor"; with one it names the
/// component and its pid and is "failed" until the restart succeeds.
pub fn begin_recovery_artifact(role: ServiceRole, requested_at: u64, executed_at: u64, resolution: RecoveryResolution,
    component: Option<&SessionLaunchComponentState>) -> (r: WatchdogExecutionArtifact)
    ensures
        r.role@ == crate::service::role_name(role),
        r.action@ == "restart"@,
        r.requested_at == requested_at && r.executed_at == executed_at,
        r.resolution_source == resolution.resolution_source,
        r.bound_component_id == resolution.bound_component_id,
        r.new_pid is None,
        match component {
            None => r.result@ == "no-executor"@ && r.reason@ == "no component found via selected resolution source"@
                && r.component_id is None && r.previous_pid is None,
            Some(c) => r.result@ == "failed"@ && r.reason@ == "no matching component for role"@
                && r.component_id == Some(c.id) && r.previous_pid == c.pid,
        },
{
    proof {
        reveal_strlit("restart");
        reveal_strlit("no-executor");
        reveal_strlit("no component found via selected resolution source");
        reveal_strlit("failed");
        reveal_strlit("no matching component for role");
    }
    let RecoveryResolution { bound_component_id, resolution_source, index: _ } = resolution;
    let (result, reason, component_id, previous_pid) = match component {
        None => (String::from_str("no-executor"), String::from_str("no component found via selected resolution source"), None, None),
        Some(c) => (String::from_str("failed"), String::from_str("no matching component for role"), Some(c.id.clone()), c.pid),
    };
    WatchdogExecutionArtifact {
        role: String::from_str(role.as_str()),
        action: String::from_str("restart"),
        requested_at,
        executed_at,
        result,
        component_id,
        previous_pid,
        new_pid: None,
        reason,
        resolution_source,
        bound_component_id,
    }
}

/// Completes an execution record once the component was stopped and
/// started again: a spawned component is a success with its new pid.
pub fn finish_recovery_artifact(artifact: &mut WatchdogExecutionArtifact, restarted: &SessionLaunchComponentState)
    ensures
        restarted.state == DesktopComponentState::Spawned ==> final(artifact).result@ == "succeeded"@
            && final(artifact).new_pid == restarted.pid && final(artifact).reason@ == "component restarted successfully"@,
        restarted.state != DesktopComponentState::Spawned ==> final(artifact).result@ == "failed"@
            && final(artifact).new_pid == old(artifact).new_pid && final(artifact).reason@ == "failed to spawn component"@,
        final(artifact).role == old(artifact).role && final(artifact).component_id == old(artifact).component_id,
        final(artifact).previous_pid == old(artifact).previous_pid,
        final(artifact).resolution_source == old(artifact).resolution_source,
        final(artifact).bound_component_id == old(artifact).bound_component_id,
{
    proof {
        reveal_strlit("succeeded");
        reveal_strlit("component restarted successfully");
        reveal_strlit("failed");
        reveal_strlit("failed to spawn component");
    }
    if restarted.state == DesktopComponentState::Spawned {
        artifact.result = String::from_str("succeeded");
        artifact.new_pid = restarted.pid;
        artifact.reason = String::from_str("component restarted successfully");
    } else {
        artifact.result = String::from_str("failed");
        artifact.reason = String::from_str("failed to spawn component");
    }
}

/// The stream position of a supervisor: launch-state generation (one per
/// profile switch) and sequence (one per snapshot).
#[derive(Debug, Clone, Copy, PartialEq, Eq, Structural)]
pub struct StreamPosition {
    pub generation: u64,
    pub sequence: u64,
}

impl StreamPosition {
    /// The position of a freshly activated profile.
    pub fn start(generation: u64) -> (r: Self)
        ensures
            r.generation == generation && r.sequence == 0,
    {
        StreamPosition { generation, sequence: 0 }
    }

    /// The position after a switch to another profile: the next generation
    /// (saturating), sequence restarting.
    pub fn after_switch(self) -> (r: Self)
        ensures
            r.generation == (if self.generation == u64::MAX { u64::MAX } else { (self.generation + 1) as u64 }),
            r.sequence == 0,
    {
        StreamPosition { generation: if self.generation == u64::MAX { u64::MAX } else { self.generation + 1 }, sequence: 0 }
    }
}

/// A snapshot of the supervised profile at the next sequence (saturating),
/// with the components' current launch states.
pub fn supervisor_snapshot(profile: &DesktopProfile, position: &mut StreamPosition, components: &Vec<SessionLaunchComponentState>,
    unix_timestamp: u64) -> (r: SessionLaunchState)
    ensures
        final(position).generation == old(position).generation,
        final(position).sequence == (if old(position).sequence == u64::MAX { u64::MAX } else { (old(position).sequence + 1) as u64 }),
        r.profile_id == profile.id && r.display_name == profile.display_name && r.protocol == profile.protocol,
        r.broker_services@ == profile.broker_services@,
        r.generation == final(position).generation && r.sequence == final(position).sequence,
        r.components.deep_view() == components.deep_view(),
        r.unix_timestamp == unix_timestamp,
        r.service_component_bindings@ == profile.service_component_bindings@,
        r.service_recovery_execution_policies.deep_view() == profile.service_recovery_execution_policies.deep_view(),
{
    position.sequence = if position.sequence == u64::MAX { u64::MAX } else { position.sequence + 1 };
    let broker_services = profile.broker_services.clone();
    assert(broker_services@ =~= profile.broker_services@);
    let states = components.clone();
    assert(states.deep_view() =~= components.deep_view());
    let bindings = profile.service_component_bindings.clone();
    assert(bindings@ =~= profile.service_component_bindings@);
    let policies = profile.service_recovery_execution_policies.clone();
    assert(policies.deep_view() =~= profile.service_recovery_execution_policies.deep_view());
    SessionLaunchState {
        profile_id: profile.id.clone(),
        display_name: profile.display_name.clone(),
        protocol: profile.protocol,
        broker_services,
        generation: position.generation,
        sequence: position.sequence,
        components: states,
        unix_timestamp,
        service_component_bindings: bindings,
        service_recovery_execution_policies: policies,
    }
}

} // verus!
