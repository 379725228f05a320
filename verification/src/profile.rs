//! Desktop profiles, their launch plans, and the launch-state and watchdog
//! report records exchanged between sessiond and the watchdog.
use vstd::prelude::*;
use crate::service::ServiceRole;

verus! {

#[derive(Debug, Clone, Copy, PartialEq, Eq, Structural)]
pub enum DesktopProtocol {
    LayerX11,
    WaylandNative,
}

impl DesktopProtocol {
    pub fn as_str(self) -> (r: &'static str)
        ensures
            r@ == (match self {
                DesktopProtocol::LayerX11 => "layer-x11"@,
                DesktopProtocol::WaylandNative => "wayland-native"@,
            }),
    {
        match self {
            DesktopProtocol::LayerX11 => "layer-x11",
            DesktopProtocol::WaylandNative => "wayland-native",
        }
    }
}

#[derive(Debug, Clone, Copy, PartialEq, Eq, Structural)]
pub enum DesktopComponentRole {
    CompatLayer,
    WindowManager,
    Shell,
    Panel,
    SettingsDaemon,
    Applet,
    Portal,
    LockScreen,
}

impl DesktopComponentRole {
    pub fn as_str(self) -> (r: &'static str)
        ensures
            r@ == (match self {
                DesktopComponentRole::CompatLayer => "compat-layer"@,
                DesktopComponentRole::WindowManager => "window-manager"@,
                DesktopComponentRole::Shell => "shell"@,
                DesktopComponentRole::Panel => "panel"@,
                DesktopComponentRole::SettingsDaemon => "settings-daemon"@,
                DesktopComponentRole::Applet => "applet"@,
                DesktopComponentRole::Portal => "portal"@,
                DesktopComponentRole::LockScreen => "lockscreen"@,
            }),
    {
        match self {
            DesktopComponentRole::CompatLayer => "compat-layer",
            DesktopComponentRole::WindowManager => "window-manager",
            DesktopComponentRole::Shell => "shell",
            DesktopComponentRole::Panel => "panel",
            DesktopComponentRole::SettingsDaemon => "settings-daemon",
            DesktopComponentRole::Applet => "applet",
            DesktopComponentRole::Portal => "portal",
            DesktopComponentRole::LockScreen => "lockscreen",
        }
    }
}

/// How a component's executable is located.
#[derive(Debug, Clone, Copy, PartialEq, Eq, Structural)]
pub enum DesktopLauncher {
    System,
    RepoScript,
    RepoBinary,
}

impl Default for DesktopLauncher {
    fn default() -> (r: Self)
        ensures
            r == DesktopLauncher::System,
    {
        DesktopLauncher::System
    }
}

#[derive(Debug, PartialEq, Eq)]
pub struct DesktopComponent {
    pub id: String,
    pub role: DesktopComponentRole,
    pub command: Vec<String>,
    pub critical: bool,
    pub launcher: DesktopLauncher,
}

impl DeepView for DesktopComponent {
    type V = (Seq<char>, DesktopComponentRole, Seq<Seq<char>>, bool, DesktopLauncher);

    open spec fn deep_view(&self) -> Self::V {
        (self.id@, self.role, self.command.deep_view(), self.critical, self.launcher)
    }
}

impl Clone for DesktopComponent {
    fn clone(&self) -> (r: Self)
        ensures
            r.deep_view() == self.deep_view(),
    {
        let command = self.command.clone();
        assert(command.deep_view() =~= self.command.deep_view());
        DesktopComponent {
            id: self.id.clone(),
            role: self.role,
            command,
            critical: self.critical,
            launcher: self.launcher,
        }
    }
}

#[derive(Debug, PartialEq, Eq)]
pub struct ServiceComponentBinding {
    pub service: ServiceRole,
    pub component_id: String,
}

impl Clone for ServiceComponentBinding {
    fn clone(&self) -> (r: Self)
        ensures
            r == *self,
    {
        ServiceComponentBinding { service: self.service, component_id: self.component_id.clone() }
    }
}

#[derive(Debug, Clone, Copy, PartialEq, Eq, Structural)]
pub enum RecoveryExecutionMode {
    Disabled,
    SupervisorRestart,
}

#[derive(Debug, PartialEq, Eq)]
pub struct ServiceRecoveryExecutionPolicy {
    pub service: ServiceRole,
    pub mode: RecoveryExecutionMode,
    pub preserve_final_state: Option<String>,
    pub restart_command_args: Vec<String>,
}

impl DeepView for ServiceRecoveryExecutionPolicy {
    type V = (ServiceRole, RecoveryExecutionMode, Option<Seq<char>>, Seq<Seq<char>>);

    open spec fn deep_view(&self) -> Self::V {
        (self.service, self.mode, self.preserve_final_state.deep_view(), self.restart_command_args.deep_view())
    }
}

impl Clone for ServiceRecoveryExecutionPolicy {
    fn clone(&self) -> (r: Self)
        ensures
            r.deep_view() == self.deep_view(),
    {
        let args = self.restart_command_args.clone();
        assert(args.deep_view() =~= self.restart_command_args.deep_view());
        ServiceRecoveryExecutionPolicy {
            service: self.service,
            mode: self.mode,
            preserve_final_state: self.preserve_final_state.clone(),
            restart_command_args: args,
        }
    }
}

#[derive(Debug, PartialEq, Eq)]
pub struct DesktopProfile {
    pub id: String,
    pub display_name: String,
    pub protocol: DesktopProtocol,
    pub summary: String,
    pub degraded_profile_id: Option<String>,
    pub broker_services: Vec<ServiceRole>,
    pub session_components: Vec<DesktopComponent>,
    pub service_component_bindings: Vec<ServiceComponentBinding>,
    pub service_recovery_execution_policies: Vec<ServiceRecoveryExecutionPolicy>,
}

impl DeepView for DesktopProfile {
    type V = (Seq<char>, Seq<char>, DesktopProtocol, Seq<char>, Option<Seq<char>>, Seq<ServiceRole>, Seq<<DesktopComponent as DeepView>::V>, Seq<ServiceComponentBinding>, Seq<<ServiceRecoveryExecutionPolicy as DeepView>::V>);

    open spec fn deep_view(&self) -> Self::V {
        (self.id@, self.display_name@, self.protocol, self.summary@, self.degraded_profile_id.deep_view(), self.broker_services@, self.session_components.deep_view(), self.service_component_bindings@, self.service_recovery_execution_policies.deep_view())
    }
}

impl Clone for DesktopProfile {
    fn clone(&self) -> (r: Self)
        ensures
            r.deep_view() == self.deep_view(),
    {
        let broker_services = self.broker_services.clone();
        assert(broker_services@ =~= self.broker_services@);
        let session_components = self.session_components.clone();
        assert(session_components.deep_view() =~= self.session_components.deep_view());
        let bindings = self.service_component_bindings.clone();
        assert(bindings@ =~= self.service_component_bindings@);
        let policies = self.service_recovery_execution_policies.clone();
        assert(policies.deep_view() =~= self.service_recovery_execution_policies.deep_view());
        DesktopProfile {
            id: self.id.clone(),
            display_name: self.display_name.clone(),
            protocol: self.protocol,
            summary: self.summary.clone(),
            degraded_profile_id: self.degraded_profile_id.clone(),
            broker_services,
            session_components,
            service_component_bindings: bindings,
            service_recovery_execution_policies: policies,
        }
    }
}

/// What a session start needs from a profile.
#[derive(Debug, PartialEq, Eq)]
pub struct SessionLaunchPlan {
    pub profile_id: String,
    pub display_name: String,
    pub protocol: DesktopProtocol,
    pub broker_services: Vec<ServiceRole>,
    pub session_components: Vec<DesktopComponent>,
    pub service_component_bindings: Vec<ServiceComponentBinding>,
    pub service_recovery_execution_policies: Vec<ServiceRecoveryExecutionPolicy>,
}

impl DesktopProfile {
    /// The launch plan of the profile: its identity, protocol, broker services,
    /// components, bindings and recovery policies, copied; the profile is unchanged.
    pub fn launch_plan(&self) -> (r: SessionLaunchPlan)
        ensures
            r.profile_id == self.id,
            r.display_name == self.display_name,
            r.protocol == self.protocol,
            r.broker_services@ == self.broker_services@,
            r.session_components.deep_view() == self.session_components.deep_view(),
            r.service_component_bindings@ == self.service_component_bindings@,
            r.service_recovery_execution_policies.deep_view() == self.service_recovery_execution_policies.deep_view(),
    {
        let broker_services = self.broker_services.clone();
        assert(broker_services@ =~= self.broker_services@);
        let session_components = self.session_components.clone();
        assert(session_components.deep_view() =~= self.session_components.deep_view());
        let bindings = self.service_component_bindings.clone();
        assert(bindings@ =~= self.service_component_bindings@);
        let policies = self.service_recovery_execution_policies.clone();
        assert(policies.deep_view() =~= self.service_recovery_execution_policies.deep_view());
        SessionLaunchPlan {
            profile_id: self.id.clone(),
            display_name: self.display_name.clone(),
            protocol: self.protocol,
            broker_services,
            session_components,
            service_component_bindings: bindings,
            service_recovery_execution_policies: policies,
        }
    }
}

#[derive(Debug, Clone, Copy, PartialEq, Eq, Structural)]
pub enum DesktopComponentState {
    Ready,
    Missing,
    Spawned,
    Failed,
}

impl DesktopComponentState {
    pub fn as_str(self) -> (r: &'static str)
        ensures
            r@ == (match self {
                DesktopComponentState::Ready => "ready"@,
                DesktopComponentState::Missing => "missing"@,
                DesktopComponentState::Spawned => "spawned"@,
                DesktopComponentState::Failed => "failed"@,
            }),
    {
        match self {
            DesktopComponentState::Ready => "ready",
            DesktopComponentState::Missing => "missing",
            DesktopComponentState::Spawned => "spawned",
            DesktopComponentState::Failed => "failed",
        }
    }
}

#[derive(Debug, PartialEq, Eq)]
pub struct SessionLaunchComponentState {
    pub id: String,
    pub role: DesktopComponentRole,
    pub critical: bool,
    pub command: Vec<String>,
    pub resolved_command: Option<String>,
    pub state: DesktopComponentState,
    pub pid: Option<u32>,
    pub restart_count: u32,
    pub last_exit_status: Option<i32>,
}

impl DeepView for SessionLaunchComponentState {
    type V = (Seq<char>, DesktopComponentRole, bool, Seq<Seq<char>>, Option<Seq<char>>, DesktopComponentState, Option<u32>, u32, Option<i32>);

    open spec fn deep_view(&self) -> Self::V {
        (self.id@, self.role, self.critical, self.command.deep_view(), self.resolved_command.deep_view(), self.state, self.pid, self.restart_count, self.last_exit_status)
    }
}

impl Clone for SessionLaunchComponentState {
    fn clone(&self) -> (r: Self)
        ensures
            r.deep_view() == self.deep_view(),
    {
        let command = self.command.clone();
        assert(command.deep_view() =~= self.command.deep_view());
        SessionLaunchComponentState {
            id: self.id.clone(),
            role: self.role,
            critical: self.critical,
            command,
            resolved_command: self.resolved_command.clone(),
            state: self.state,
            pid: self.pid,
            restart_count: self.restart_count,
            last_exit_status: self.last_exit_status,
        }
    }
}

/// Launch state of a profile as sessiond last observed it; `generation`
/// counts profile switches and `sequence` counts updates within a generation.
#[derive(Debug, PartialEq, Eq)]
pub struct SessionLaunchState {
    pub profile_id: String,
    pub display_name: String,
    pub protocol: DesktopProtocol,
    pub broker_services: Vec<ServiceRole>,
    pub generation: u64,
    pub sequence: u64,
    pub components: Vec<SessionLaunchComponentState>,
    pub unix_timestamp: u64,
    pub service_component_bindings: Vec<ServiceComponentBinding>,
    pub service_recovery_execution_policies: Vec<ServiceRecoveryExecutionPolicy>,
}

impl DeepView for SessionLaunchState {
    type V = (Seq<char>, Seq<char>, DesktopProtocol, Seq<ServiceRole>, u64, u64, Seq<<SessionLaunchComponentState as DeepView>::V>, u64, Seq<ServiceComponentBinding>, Seq<<ServiceRecoveryExecutionPolicy as DeepView>::V>);

    open spec fn deep_view(&self) -> Self::V {
        (self.profile_id@, self.display_name@, self.protocol, self.broker_services@, self.generation, self.sequence, self.components.deep_view(), self.unix_timestamp, self.service_component_bindings@, self.service_recovery_execution_policies.deep_view())
    }
}

impl Clone for SessionLaunchState {
    fn clone(&self) -> (r: Self)
        ensures
            r.deep_view() == self.deep_view(),
    {
        let broker_services = self.broker_services.clone();
        assert(broker_services@ =~= self.broker_services@);
        let components = self.components.clone();
        assert(components.deep_view() =~= self.components.deep_view());
        let bindings = self.service_component_bindings.clone();
        assert(bindings@ =~= self.service_component_bindings@);
        let policies = self.service_recovery_execution_policies.clone();
        assert(policies.deep_view() =~= self.service_recovery_execution_policies.deep_view());
        SessionLaunchState {
            profile_id: self.profile_id.clone(),
            display_name: self.display_name.clone(),
            protocol: self.protocol,
            broker_services,
            generation: self.generation,
            sequence: self.sequence,
            components,
            unix_timestamp: self.unix_timestamp,
            service_component_bindings: bindings,
            service_recovery_execution_policies: policies,
        }
    }
}

/// An update to a cached launch state: either a full replacement (`replace`)
/// or the changed components only.
#[derive(Debug, Clone, PartialEq, Eq)]
pub struct SessionLaunchDelta {
    pub profile_id: String,
    pub display_name: String,
    pub protocol: DesktopProtocol,
    pub broker_services: Vec<ServiceRole>,
    pub generation: u64,
    pub sequence: u64,
    pub replace: bool,
    pub components: Vec<SessionLaunchComponentState>,
    pub unix_timestamp: u64,
    pub service_component_bindings: Vec<ServiceComponentBinding>,
    pub service_recovery_execution_policies: Vec<ServiceRecoveryExecutionPolicy>,
}

#[derive(Debug, Clone, Copy, PartialEq, Eq, Structural)]
pub enum DesktopHealthStatus {
    Healthy,
    Unhealthy,
    Inactive,
}

impl DesktopHealthStatus {
    pub fn as_str(self) -> (r: &'static str)
        ensures
            r@ == (match self {
                DesktopHealthStatus::Healthy => "healthy"@,
                DesktopHealthStatus::Unhealthy => "unhealthy"@,
                DesktopHealthStatus::Inactive => "inactive"@,
            }),
    {
        match self {
            DesktopHealthStatus::Healthy => "healthy",
            DesktopHealthStatus::Unhealthy => "unhealthy",
            DesktopHealthStatus::Inactive => "inactive",
        }
    }
}

#[derive(Debug, Clone, Copy, PartialEq, Eq, Structural)]
pub enum DesktopRecoveryAction {
    NoAction,
    RestartComponent,
    DegradedProfile,
}

impl DesktopRecoveryAction {
    pub fn as_str(self) -> (r: &'static str)
        ensures
            r@ == (match self {
                DesktopRecoveryAction::NoAction => "none"@,
                DesktopRecoveryAction::RestartComponent => "restart-component"@,
                DesktopRecoveryAction::DegradedProfile => "degraded-profile"@,
            }),
    {
        match self {
            DesktopRecoveryAction::NoAction => "none",
            DesktopRecoveryAction::RestartComponent => "restart-component",
            DesktopRecoveryAction::DegradedProfile => "degraded-profile",
        }
    }
}

#[derive(Debug, PartialEq, Eq)]
pub struct SessionWatchdogComponentReport {
    pub id: String,
    pub role: DesktopComponentRole,
    pub critical: bool,
    pub status: DesktopHealthStatus,
    pub pid: Option<u32>,
    pub crash_loop_count: u32,
    pub action: DesktopRecoveryAction,
    pub reason: String,
}

impl Clone for SessionWatchdogComponentReport {
    fn clone(&self) -> (r: Self)
        ensures
            r == *self,
    {
        SessionWatchdogComponentReport {
            id: self.id.clone(),
            role: self.role,
            critical: self.critical,
            status: self.status,
            pid: self.pid,
            crash_loop_count: self.crash_loop_count,
            action: self.action,
            reason: self.reason.clone(),
        }
    }
}

#[derive(Debug, Clone, PartialEq, Eq)]
pub struct SessionWatchdogReport {
    pub profile_id: String,
    pub display_name: String,
    pub protocol: DesktopProtocol,
    pub healthy_components: usize,
    pub unhealthy_components: usize,
    pub inactive_components: usize,
    pub components: Vec<SessionWatchdogComponentReport>,
    pub unix_timestamp: u64,
}

#[derive(Debug, Clone, PartialEq, Eq)]
pub struct SessionProfileTransition {
    pub source_profile_id: String,
    pub source_display_name: String,
    pub target_profile_id: String,
    pub target_display_name: String,
    pub reason: String,
    pub trigger_component_ids: Vec<String>,
    pub unix_timestamp: u64,
}

} // verus!
