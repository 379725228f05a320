//! The IPC data model shared by the services: commands, events and the
//! records they carry, with the consistency checks of the readiness,
//! presentation and publication reports.
use vstd::prelude::*;
use crate::service::ServiceRole;
use crate::pixel_transport::{PixelTransportHandle, PixelTransportPayload};
use crate::profile::{
    SessionLaunchDelta, SessionLaunchState, SessionProfileTransition, SessionWatchdogReport,
};
use crate::text::{chars_of, push_chars, push_str, string_from_chars};

verus! {

#[derive(Debug, Clone, PartialEq)]
pub enum ImeCommand {
    GetImeStatus,
    SetImeBridgeMode { mode: ImeBridgeMode },
    FocusTextSurface { surface_id: String },
    ClearTextFocus,
    CommitString { text: String },
    PreeditString { text: String, cursor_begin: i32, cursor_end: i32 },
    DeleteSurroundingText { before_length: u32, after_length: u32 },
    SetCursorRect { x: i32, y: i32, width: u32, height: u32 },
    SetSurroundingText { text: String, cursor: u32, anchor: u32 },
    SetContentType { hint: u32, purpose: u32 },
}

#[derive(Debug, Clone, Copy, PartialEq, Eq, Structural)]
pub enum ImeBridgeMode {
    Disabled,
    PassthroughExternal,
    ProtocolStub,
}

#[derive(Debug, Clone, PartialEq)]
pub struct ImeStatus {
    pub bridge_mode: ImeBridgeMode,
    pub focused_surface_id: Option<String>,
    pub preedit_active: bool,
    pub commit_count: u64,
    pub cursor_rect: Option<Rect>,
    pub surrounding_text: Option<String>,
    pub surrounding_cursor: u32,
    pub content_purpose: u32,
}

#[derive(Debug, Clone, PartialEq)]
pub enum ImeEvent {
    Status { status: ImeStatus },
    BridgeModeChanged { mode: ImeBridgeMode },
    TextFocusChanged { surface_id: Option<String> },
    StringCommitted { text: String },
    PreeditUpdated { text: String, cursor_begin: i32, cursor_end: i32 },
    SurroundingTextDeleted { before_length: u32, after_length: u32 },
    CursorRectChanged { rect: Rect },
    SurroundingTextChanged { text: String, cursor: u32, anchor: u32 },
    ContentTypeChanged { hint: u32, purpose: u32 },
    Rejected { reason: String },
}

/// Commands addressed to displayd (and relayed by compd).
#[derive(Debug, Clone, PartialEq)]
pub enum DisplayCommand {
    GetLiveness,
    GetReadiness,
    GetReconciliation,
    BeginReconciliation { epoch: u64 },
    AdvancePresentation { output_id: String, output_generation: u64, now_ns: u64, tick_sequence: u64 },
    CompletePresentation { token: PresentationToken, outcome: PresentationCompletion },
    EnumerateOutputs,
    ConfigureOutput { geometry: OutputGeometry },
    RemoveOutput { output_id: String, output_generation: u64 },
    SetMode { output: String, mode: OutputMode },
    SetGamma { output: String, red: Vec<u16>, green: Vec<u16>, blue: Vec<u16> },
    CommitScene {
        target: CommitTarget,
        focus: FocusTarget,
        selection: WaylandSelectionState,
        surfaces: Vec<SurfaceSnapshot>,
        pixel_payloads: Vec<PixelTransportPayload>,
        scene_epoch: u64,
        scene_generation: u64,
    },
    ReconcileScene {
        epoch: u64,
        scene_epoch: u64,
        scene_generation: u64,
        target: CommitTarget,
        focus: FocusTarget,
        selection: WaylandSelectionState,
        surfaces: Vec<SurfaceSnapshot>,
        pixel_payloads: Vec<PixelTransportPayload>,
    },
    GetSceneSnapshot { output: Option<String> },
    CaptureOutput { output: String },
    StartRecord { output: String, fps: u32 },
    StopRecord { output: String },
    SecureBlank { output: Option<String> },
    SetPointerConstraints { output: String, constraints: PointerConstraints },
    GetPresentationFeedback { commit_id: u64 },
    ResumeBegin,
}

/// Geometry of one output framebuffer as a backend reports it.
#[derive(Debug, PartialEq, Eq)]
pub struct OutputGeometry {
    pub output_id: String,
    pub width: u32,
    pub height: u32,
    pub stride: u32,
    pub format: u32,
    pub origin_x: i32,
    pub origin_y: i32,
    pub output_generation: u64,
}

impl Clone for OutputGeometry {
    fn clone(&self) -> (r: Self)
        ensures
            r == *self,
    {
        OutputGeometry {
            output_id: self.output_id.clone(),
            width: self.width,
            height: self.height,
            stride: self.stride,
            format: self.format,
            origin_x: self.origin_x,
            origin_y: self.origin_y,
            output_generation: self.output_generation,
        }
    }
}

#[derive(Debug, Clone, PartialEq)]
pub enum PointerConstraints {
    Unconstrained,
    Locked { x: i32, y: i32 },
    Confined { region: Vec<Rect> },
}

#[derive(Debug, Clone, Copy, PartialEq, Eq, Default, Structural)]
pub struct Rect {
    pub x: i32,
    pub y: i32,
    pub width: u32,
    pub height: u32,
}

/// Responses and notifications from displayd.
#[derive(Debug, Clone, PartialEq)]
pub enum DisplayEvent {
    Liveness { responsive: bool },
    Readiness(ServiceReadiness),
    Reconciliation { epoch: u64, state: DisplayReconciliationState },
    Reconciled { epoch: u64, scene_generation: u64 },
    PresentationCompleted { token: PresentationToken, outcome: PresentationCompletion },
    PresentationAdvanced { output_id: String, tick_sequence: u64, eligible: bool },
    OutputInventory { outputs: Vec<OutputMode> },
    ModeApplied { output: String, mode: OutputMode },
    SceneCommitted {
        target: CommitTarget,
        focus: FocusTarget,
        selection: WaylandSelectionState,
        surface_count: usize,
        commit_id: u64,
        publication: Option<ScenePublicationResult>,
    },
    SceneSnapshot { snapshot: Option<CommittedSceneState> },
    OutputCaptured { output: String, width: u32, height: u32, format: String, artifact_path: String },
    RecordStarted { output: String, session_id: String },
    RecordStopped { output: String, session_id: String, artifact_path: String },
    FrameCaptured { output: String, session_id: String, frame_number: u64, artifact_path: String },
    FramePresented { commit_id: u64, timestamp: u64, refresh_ns: u32, seq: u64, flags: u32 },
    BlankApplied { output: Option<String> },
    GammaApplied { output: String },
    PointerConstraintsApplied { output: String, constraints: PointerConstraints },
    Rejected { reason: String },
    ResumeStarted,
}

/// The name of a display event's variant.
pub open spec fn display_event_name(e: DisplayEvent) -> Seq<char> {
    match e {
        DisplayEvent::Liveness { .. } => "Liveness"@,
        DisplayEvent::Readiness(..) => "Readiness"@,
        DisplayEvent::Reconciliation { .. } => "Reconciliation"@,
        DisplayEvent::Reconciled { .. } => "Reconciled"@,
        DisplayEvent::PresentationCompleted { .. } => "PresentationCompleted"@,
        DisplayEvent::PresentationAdvanced { .. } => "PresentationAdvanced"@,
        DisplayEvent::OutputInventory { .. } => "OutputInventory"@,
        DisplayEvent::ModeApplied { .. } => "ModeApplied"@,
        DisplayEvent::SceneCommitted { .. } => "SceneCommitted"@,
        DisplayEvent::SceneSnapshot { .. } => "SceneSnapshot"@,
        DisplayEvent::OutputCaptured { .. } => "OutputCaptured"@,
        DisplayEvent::RecordStarted { .. } => "RecordStarted"@,
        DisplayEvent::RecordStopped { .. } => "RecordStopped"@,
        DisplayEvent::FrameCaptured { .. } => "FrameCaptured"@,
        DisplayEvent::FramePresented { .. } => "FramePresented"@,
        DisplayEvent::BlankApplied { .. } => "BlankApplied"@,
        DisplayEvent::GammaApplied { .. } => "GammaApplied"@,
        DisplayEvent::PointerConstraintsApplied { .. } => "PointerConstraintsApplied"@,
        DisplayEvent::Rejected { .. } => "Rejected"@,
        DisplayEvent::ResumeStarted => "ResumeStarted"@,
    }
}

impl DisplayEvent {
    /// The name of the event's variant, as messages about it give it.
    pub fn variant_name(&self) -> (r: &'static str)
        ensures
            r@ == display_event_name(*self),
    {
        match self {
            DisplayEvent::Liveness { .. } => "Liveness",
            DisplayEvent::Readiness(..) => "Readiness",
            DisplayEvent::Reconciliation { .. } => "Reconciliation",
            DisplayEvent::Reconciled { .. } => "Reconciled",
            DisplayEvent::PresentationCompleted { .. } => "PresentationCompleted",
            DisplayEvent::PresentationAdvanced { .. } => "PresentationAdvanced",
            DisplayEvent::OutputInventory { .. } => "OutputInventory",
            DisplayEvent::ModeApplied { .. } => "ModeApplied",
            DisplayEvent::SceneCommitted { .. } => "SceneCommitted",
            DisplayEvent::SceneSnapshot { .. } => "SceneSnapshot",
            DisplayEvent::OutputCaptured { .. } => "OutputCaptured",
            DisplayEvent::RecordStarted { .. } => "RecordStarted",
            DisplayEvent::RecordStopped { .. } => "RecordStopped",
            DisplayEvent::FrameCaptured { .. } => "FrameCaptured",
            DisplayEvent::FramePresented { .. } => "FramePresented",
            DisplayEvent::BlankApplied { .. } => "BlankApplied",
            DisplayEvent::GammaApplied { .. } => "GammaApplied",
            DisplayEvent::PointerConstraintsApplied { .. } => "PointerConstraintsApplied",
            DisplayEvent::Rejected { .. } => "Rejected",
            DisplayEvent::ResumeStarted => "ResumeStarted",
        }
    }
}

#[derive(Debug, Clone, Copy, PartialEq, Eq, Structural)]
pub enum PresentationSchedulerState {
    Idle,
    DamagePending,
    SubmissionEligible,
    SubmissionInFlight,
    RetryPending,
    PresentationBlocked,
}

/// Refresh period of an output.
#[derive(Debug, Clone, Copy, PartialEq, Eq, Structural)]
pub struct PresentationCadence {
    pub period_ns: u64,
}

impl PresentationCadence {
    /// A cadence is valid exactly when its period is non-zero.
    pub fn validate(self) -> (r: Result<(), String>)
        ensures
            r is Ok <==> self.period_ns != 0,
            r matches Err(m) ==> m@ == "presentation cadence must be non-zero"@,
    {
        if self.period_ns == 0 {
            return Err(String::from_str("presentation cadence must be non-zero"));
        }
        Ok(())
    }
}

/// Identity of one submitted frame awaiting presentation.
#[derive(Debug, PartialEq, Eq, PartialOrd, Ord)]
pub struct PresentationToken {
    pub backend_instance_id: u64,
    pub sequence: u64,
    pub output_id: String,
    pub output_generation: u64,
    pub scene_generation: u64,
    pub frame_id: u64,
}

impl Clone for PresentationToken {
    fn clone(&self) -> (r: Self)
        ensures
            r == *self,
    {
        PresentationToken {
            backend_instance_id: self.backend_instance_id,
            sequence: self.sequence,
            output_id: self.output_id.clone(),
            output_generation: self.output_generation,
            scene_generation: self.scene_generation,
            frame_id: self.frame_id,
        }
    }
}

#[derive(Debug, Clone, PartialEq, Eq)]
pub enum PresentationCompletion {
    Presented,
    Failed { reason: PublicationFailure },
    Superseded,
    StaleGeneration,
    UnknownToken,
    BackendUnavailable,
}

impl PresentationToken {
    /// A token is well formed when its backend instance, sequence and output
    /// are set; a well formed token must also name a frame.
    pub fn validate(&self) -> (r: Result<(), String>)
        ensures
            r is Ok <==> (self.backend_instance_id != 0 && self.sequence != 0
                && self.output_id@.len() != 0 && self.frame_id != 0),
            r matches Err(m) ==> m@ == (if self.backend_instance_id == 0 || self.sequence == 0
                || self.output_id@.len() == 0 {
                "malformed presentation token"@
            } else {
                "presentation token has invalid frame"@
            }),
    {
        if self.backend_instance_id == 0 || self.sequence == 0 || self.output_id.as_str().is_empty() {
            return Err(String::from_str("malformed presentation token"));
        }
        if self.frame_id == 0 {
            return Err(String::from_str("presentation token has invalid frame"));
        }
        Ok(())
    }
}

#[derive(Debug, Clone, PartialEq, Eq)]
pub struct ServiceReadiness {
    pub ipc_available: bool,
    pub canonical_scene_available: bool,
    pub renderer_available: bool,
    pub configured_output_count: usize,
    pub ready_output_count: usize,
    pub failed_output_count: usize,
    pub retry_pending_output_count: usize,
    pub state: ServiceReadinessState,
    pub outputs: Vec<OutputReadiness>,
}

#[derive(Debug, Clone, Copy, PartialEq, Eq, Structural)]
pub enum ServiceReadinessState {
    LiveNotReady,
    Ready,
    PartiallyReady,
    Failed,
}

#[derive(Debug, Clone, PartialEq, Eq)]
pub struct OutputReadiness {
    pub output_id: String,
    pub output_generation: u64,
    pub state: OutputReadinessState,
    pub last_published_frame_id: u64,
    pub last_published_scene_generation: u64,
    pub pending_damage: bool,
    pub retry_pending: bool,
}

#[derive(Debug, Clone, Copy, PartialEq, Eq, Structural)]
pub enum OutputReadinessState {
    ConfiguredAwaitingPublication,
    SubmittedAwaitingPresentation,
    Ready,
    PublicationFailed,
    RetryPending,
    Reconfiguring,
    Disabled,
}

#[derive(Debug, Clone, PartialEq)]
pub enum BackendOutputEvent {
    Connected {
        backend_instance_id: u64,
        backend_output_id: String,
        event_sequence: u64,
        geometry: OutputGeometry,
        cadence: PresentationCadence,
    },
    Reconfigured {
        backend_instance_id: u64,
        backend_output_id: String,
        event_sequence: u64,
        geometry: OutputGeometry,
        cadence: PresentationCadence,
    },
    Disabled {
        backend_instance_id: u64,
        backend_output_id: String,
        event_sequence: u64,
        output_generation: u64,
    },
    Disconnected {
        backend_instance_id: u64,
        backend_output_id: String,
        event_sequence: u64,
        output_generation: u64,
    },
    BackendReset { backend_instance_id: u64, event_sequence: u64 },
}

#[derive(Debug, Clone, PartialEq, Eq)]
pub struct ScenePublicationResult {
    pub scene_accepted: bool,
    pub scene_generation: u64,
    pub outputs: Vec<OutputPublicationResult>,
}

#[derive(Debug, Clone, PartialEq, Eq)]
pub struct OutputPublicationResult {
    pub output_id: String,
    pub output_generation: u64,
    pub frame_id: u64,
    pub scene_generation: u64,
    pub outcome: OutputPublicationOutcome,
}

#[derive(Debug, Clone, PartialEq, Eq)]
pub enum OutputPublicationOutcome {
    Published,
    Submitted { token: PresentationToken },
    Failed(PublicationFailure),
}

#[derive(Debug, Clone, PartialEq, Eq)]
pub enum PublicationFailure {
    BackendRejected,
    StaleOutputGeneration,
    StaleRetryState,
    MalformedPublicationState,
    OutputUnavailable,
    RendererRejected,
}

#[derive(Debug, Clone, PartialEq)]
pub enum LockCommand {
    SetLockState { state: LockState },
    AuthPrompt { reason: String },
}

#[derive(Debug, Clone, PartialEq)]
pub enum SessionCommand {
    SuspendRequested,
    ResumeHint { stage: ResumeStage, output: Option<OutputMode> },
    DegradedMode { reason: String },
    ApplyWatchdogReport { report: SessionWatchdogReport },
    ProfileTransition { transition: SessionProfileTransition },
    ProfileUnchanged { profile_id: String, reason: String },
    InhibitIdle { reason: String },
    ReleaseIdle { reason: String },
}

#[derive(Debug, Clone, PartialEq)]
pub enum WatchdogCommand {
    Restart { role: ServiceRole, session_instance_id: String, reason: String },
    Escalate { level: u8, reason: String },
    InspectLaunchState { state: SessionLaunchState },
    UpdateLaunchState { delta: SessionLaunchDelta },
    ResyncLaunchState { profile_id: String, session_instance_id: String, reason: String },
    InspectionResult { report: SessionWatchdogReport },
}

/// The name of a watchdog command's variant.
pub open spec fn watchdog_command_name(c: WatchdogCommand) -> Seq<char> {
    match c {
        WatchdogCommand::Restart { .. } => "Restart"@,
        WatchdogCommand::Escalate { .. } => "Escalate"@,
        WatchdogCommand::InspectLaunchState { .. } => "InspectLaunchState"@,
        WatchdogCommand::UpdateLaunchState { .. } => "UpdateLaunchState"@,
        WatchdogCommand::ResyncLaunchState { .. } => "ResyncLaunchState"@,
        WatchdogCommand::InspectionResult { .. } => "InspectionResult"@,
    }
}

impl WatchdogCommand {
    /// The name of the command's variant, as messages about it give it.
    pub fn variant_name(&self) -> (r: &'static str)
        ensures
            r@ == watchdog_command_name(*self),
    {
        match self {
            WatchdogCommand::Restart { .. } => "Restart",
            WatchdogCommand::Escalate { .. } => "Escalate",
            WatchdogCommand::InspectLaunchState { .. } => "InspectLaunchState",
            WatchdogCommand::UpdateLaunchState { .. } => "UpdateLaunchState",
            WatchdogCommand::ResyncLaunchState { .. } => "ResyncLaunchState",
            WatchdogCommand::InspectionResult { .. } => "InspectionResult",
        }
    }
}

#[derive(Debug, Clone, PartialEq)]
pub enum HealthState {
    Healthy { role: ServiceRole },
    Unhealthy { role: ServiceRole, reason: String, crash_loop_count: u32 },
}

/// Where a scene is committed.
#[derive(Debug, PartialEq)]
pub enum CommitTarget {
    Output { name: String },
}

impl Clone for CommitTarget {
    fn clone(&self) -> (r: Self)
        ensures
            r == *self,
    {
        match self {
            CommitTarget::Output { name } => CommitTarget::Output { name: name.clone() },
        }
    }
}

/// The surface that holds input focus, if any.
#[derive(Debug, PartialEq)]
pub enum FocusTarget {
    Surface { id: String },
    Unfocused,
}

impl Clone for FocusTarget {
    fn clone(&self) -> (r: Self)
        ensures
            r == *self,
    {
        match self {
            FocusTarget::Surface { id } => FocusTarget::Surface { id: id.clone() },
            FocusTarget::Unfocused => FocusTarget::Unfocused,
        }
    }
}

#[derive(Debug, Clone, Copy, PartialEq, Eq, Structural)]
pub enum LockState {
    Locked,
    Unlocked,
    BlankOnly,
}

#[derive(Debug, Clone, Copy, PartialEq, Eq, Structural)]
pub enum ResumeStage {
    Begin,
    OutputsRecovered,
    LockReady,
    Complete,
}

#[derive(Debug, Clone, Copy, PartialEq, Eq, Structural)]
pub enum DisplayReconciliationState {
    Recovering,
    ReconciledAwaitingPresentation,
    Ready,
    Failed,
}

#[derive(Debug, PartialEq)]
pub struct OutputMode {
    pub name: String,
    pub width: u32,
    pub height: u32,
    pub refresh_hz: u32,
}

impl Clone for OutputMode {
    fn clone(&self) -> (r: Self)
        ensures
            r == *self,
    {
        OutputMode { name: self.name.clone(), width: self.width, height: self.height, refresh_hz: self.refresh_hz }
    }
}

/// The scene displayd last committed, as persisted and reported back.
#[derive(Debug, PartialEq)]
pub struct CommittedSceneState {
    pub source: ServiceRole,
    pub target: CommitTarget,
    pub focus: FocusTarget,
    pub selection: WaylandSelectionState,
    pub surfaces: Vec<SurfaceSnapshot>,
    pub scene_epoch: u64,
    pub scene_generation: u64,
    pub commit_id: u64,
    pub unix_timestamp: u64,
}

impl DeepView for CommittedSceneState {
    type V = (ServiceRole, CommitTarget, FocusTarget, <WaylandSelectionState as DeepView>::V,
        Seq<<SurfaceSnapshot as DeepView>::V>, u64, u64, u64, u64);

    open spec fn deep_view(&self) -> Self::V {
        (self.source, self.target, self.focus, self.selection.deep_view(), self.surfaces.deep_view(),
            self.scene_epoch, self.scene_generation, self.commit_id, self.unix_timestamp)
    }
}

impl Clone for CommittedSceneState {
    fn clone(&self) -> (r: Self)
        ensures
            r.deep_view() == self.deep_view(),
    {
        let surfaces = self.surfaces.clone();
        assert(surfaces.deep_view() =~= self.surfaces.deep_view());
        CommittedSceneState {
            source: self.source,
            target: self.target.clone(),
            focus: self.focus.clone(),
            selection: self.selection.clone(),
            surfaces,
            scene_epoch: self.scene_epoch,
            scene_generation: self.scene_generation,
            commit_id: self.commit_id,
            unix_timestamp: self.unix_timestamp,
        }
    }
}

#[derive(Debug, Clone, PartialEq)]
pub struct ForeignToplevelHandle {
    pub id: String,
    pub title: String,
    pub app_id: String,
    pub activated: bool,
    pub minimized: bool,
    pub maximized: bool,
    pub fullscreen: bool,
    pub outputs: Vec<String>,
}

/// The surfaces waylandd currently knows, with the selection it tracks.
#[derive(Debug, Clone, PartialEq)]
pub struct SurfaceRegistrySnapshot {
    pub generation: u64,
    pub surfaces: Vec<WaylandSurfaceState>,
    pub foreign_toplevels: Vec<ForeignToplevelHandle>,
    pub selection: WaylandSelectionState,
    pub unix_timestamp: u64,
}

#[derive(Debug, PartialEq)]
pub struct SelectionOffer {
    pub offer_id: String,
    pub source_id: String,
    pub owner_surface_id: String,
    pub mime_types: Vec<String>,
    pub serial: u64,
}

impl DeepView for SelectionOffer {
    type V = (Seq<char>, Seq<char>, Seq<char>, Seq<Seq<char>>, u64);

    open spec fn deep_view(&self) -> Self::V {
        (self.offer_id@, self.source_id@, self.owner_surface_id@, self.mime_types.deep_view(), self.serial)
    }
}

impl Clone for SelectionOffer {
    fn clone(&self) -> (r: Self)
        ensures
            r.deep_view() == self.deep_view(),
    {
        let mime_types = self.mime_types.clone();
        assert(mime_types.deep_view() =~= self.mime_types.deep_view());
        SelectionOffer {
            offer_id: self.offer_id.clone(),
            source_id: self.source_id.clone(),
            owner_surface_id: self.owner_surface_id.clone(),
            mime_types,
            serial: self.serial,
        }
    }
}

/// Clipboard and primary-selection ownership.
#[derive(Debug, PartialEq, Default)]
pub struct WaylandSelectionState {
    pub clipboard_owner: Option<String>,
    pub clipboard_payload_id: Option<String>,
    pub clipboard_source_serial: Option<u64>,
    pub clipboard_offer: Option<SelectionOffer>,
    pub primary_selection_owner: Option<String>,
    pub primary_selection_payload_id: Option<String>,
    pub primary_selection_source_serial: Option<u64>,
    pub primary_offer: Option<SelectionOffer>,
}

impl DeepView for WaylandSelectionState {
    type V = (Option<Seq<char>>, Option<Seq<char>>, Option<u64>, Option<<SelectionOffer as DeepView>::V>,
        Option<Seq<char>>, Option<Seq<char>>, Option<u64>, Option<<SelectionOffer as DeepView>::V>);

    open spec fn deep_view(&self) -> Self::V {
        (self.clipboard_owner.deep_view(), self.clipboard_payload_id.deep_view(),
            self.clipboard_source_serial, self.clipboard_offer.deep_view(),
            self.primary_selection_owner.deep_view(), self.primary_selection_payload_id.deep_view(),
            self.primary_selection_source_serial, self.primary_offer.deep_view())
    }
}

impl Clone for WaylandSelectionState {
    fn clone(&self) -> (r: Self)
        ensures
            r.deep_view() == self.deep_view(),
    {
        let clipboard_offer = match &self.clipboard_offer {
            Some(o) => Some(o.clone()),
            None => None,
        };
        let primary_offer = match &self.primary_offer {
            Some(o) => Some(o.clone()),
            None => None,
        };
        WaylandSelectionState {
            clipboard_owner: self.clipboard_owner.clone(),
            clipboard_payload_id: self.clipboard_payload_id.clone(),
            clipboard_source_serial: self.clipboard_source_serial,
            clipboard_offer,
            primary_selection_owner: self.primary_selection_owner.clone(),
            primary_selection_payload_id: self.primary_selection_payload_id.clone(),
            primary_selection_source_serial: self.primary_selection_source_serial,
            primary_offer,
        }
    }
}

#[derive(Debug, Clone, PartialEq)]
pub struct WaylandSelectionHandoff {
    pub focus: FocusTarget,
    pub selection: WaylandSelectionState,
}

/// A surface as waylandd tracks it.
#[derive(Debug, Clone, PartialEq, Default)]
pub struct WaylandSurfaceState {
    pub id: String,
    pub app_id: String,
    pub role: WaylandSurfaceRole,
    pub mapped: bool,
    pub buffer_attached: bool,
    pub buffer_handle: Option<String>,
    pub buffer_generation: u64,
    pub damage_rects: Vec<Rect>,
}

/// Placement request of a layer-shell surface.
#[derive(Debug, Clone, Copy, PartialEq, Eq, Default, Structural)]
pub struct LayerMetadata {
    pub layer: u32,
    pub anchor: u32,
    pub exclusive_zone: i32,
    pub margin_top: i32,
    pub margin_bottom: i32,
    pub margin_left: i32,
    pub margin_right: i32,
    pub keyboard_interactivity: u32,
}

#[derive(Debug, Clone, Copy, PartialEq, Default, Structural)]
pub enum WaylandSurfaceRole {
    #[default]
    Toplevel,
    Popup,
    Layer(LayerMetadata),
    Background,
    Lock,
    Cursor,
}

/// One surface of a scene: where it is placed and which buffer it shows.
#[derive(Debug, PartialEq, Default)]
pub struct SurfaceSnapshot {
    pub id: String,
    pub app_id: String,
    pub placement: SurfacePlacement,
    pub buffer_handle: Option<String>,
    pub buffer_generation: u64,
    pub damage_rects: Vec<Rect>,
    pub pixel_transport: Option<PixelTransportHandle>,
    pub layer_class: u32,
    pub creation_sequence: u64,
}

impl DeepView for SurfaceSnapshot {
    type V = (Seq<char>, Seq<char>, SurfacePlacement, Option<Seq<char>>, u64, Seq<Rect>,
        Option<PixelTransportHandle>, u32, u64);

    open spec fn deep_view(&self) -> Self::V {
        (self.id@, self.app_id@, self.placement, self.buffer_handle.deep_view(), self.buffer_generation,
            self.damage_rects@, self.pixel_transport, self.layer_class, self.creation_sequence)
    }
}

impl Clone for SurfaceSnapshot {
    fn clone(&self) -> (r: Self)
        ensures
            r.deep_view() == self.deep_view(),
    {
        let damage_rects = self.damage_rects.clone();
        assert(damage_rects@ =~= self.damage_rects@);
        SurfaceSnapshot {
            id: self.id.clone(),
            app_id: self.app_id.clone(),
            placement: self.placement,
            buffer_handle: self.buffer_handle.clone(),
            buffer_generation: self.buffer_generation,
            damage_rects,
            pixel_transport: self.pixel_transport.clone(),
            layer_class: self.layer_class,
            creation_sequence: self.creation_sequence,
        }
    }
}

/// Position, size, stacking order and visibility of a surface.
#[derive(Debug, Clone, Copy, PartialEq, Eq, Default, Structural)]
pub struct SurfacePlacement {
    pub x: i32,
    pub y: i32,
    pub width: u32,
    pub height: u32,
    pub z: i32,
    pub visible: bool,
}

} // verus!

verus! {

/// Message with an identifier appended.
pub fn message_with(prefix: &str, id: &String) -> (r: String)
    ensures
        r@ == prefix@ + id@,
{
    let mut out = chars_of(prefix);
    push_str(&mut out, id.as_str());
    string_from_chars(&out)
}

/// What is wrong with the output at index `i` of a readiness report, if anything:
/// 1 a duplicate id, 2 a retry flag that disagrees with the state, 3 a ready
/// output with pending work, 0 nothing.
pub open spec fn readiness_problem(outputs: Seq<OutputReadiness>, i: int) -> int {
    let o = outputs[i];
    if exists|j: int| 0 <= j < i && #[trigger] outputs[j].output_id@ == o.output_id@ {
        1
    } else if o.retry_pending && o.state != OutputReadinessState::RetryPending {
        2
    } else if o.state == OutputReadinessState::Ready && (o.retry_pending || o.pending_damage) {
        3
    } else {
        0
    }
}

pub open spec fn count_ready(s: Seq<OutputReadiness>) -> nat
    decreases s.len(),
{
    if s.len() == 0 { 0 } else {
        count_ready(s.drop_last()) + if s.last().state == OutputReadinessState::Ready { 1nat } else { 0nat }
    }
}

pub open spec fn count_retry_pending(s: Seq<OutputReadiness>) -> nat
    decreases s.len(),
{
    if s.len() == 0 { 0 } else {
        count_retry_pending(s.drop_last()) + if s.last().retry_pending { 1nat } else { 0nat }
    }
}

pub open spec fn is_failed_state(state: OutputReadinessState) -> bool {
    state == OutputReadinessState::PublicationFailed || state == OutputReadinessState::RetryPending
}

pub open spec fn count_failed(s: Seq<OutputReadiness>) -> nat
    decreases s.len(),
{
    if s.len() == 0 { 0 } else {
        count_failed(s.drop_last()) + if is_failed_state(s.last().state) { 1nat } else { 0nat }
    }
}

/// Whether the summary counts of a readiness report agree with its outputs.
pub open spec fn readiness_counts_consistent(r: ServiceReadiness) -> bool {
    &&& r.configured_output_count == r.outputs@.len()
    &&& r.ready_output_count == count_ready(r.outputs@)
    &&& r.retry_pending_output_count == count_retry_pending(r.outputs@)
    &&& r.failed_output_count == count_failed(r.outputs@)
}

/// A consistent readiness report: distinct output ids, per-output flags that
/// agree with the states, counts that agree with the outputs, and a `Ready`
/// service only with at least one ready output.
pub open spec fn readiness_valid(r: ServiceReadiness) -> bool {
    &&& forall|i: int| 0 <= i < r.outputs@.len() ==> readiness_problem(r.outputs@, i) == 0
    &&& readiness_counts_consistent(r)
    &&& !(r.state == ServiceReadinessState::Ready && r.ready_output_count == 0)
}

fn find_duplicate_id(outputs: &Vec<OutputReadiness>, i: usize) -> (r: bool)
    requires
        i < outputs@.len(),
    ensures
        r == exists|j: int| 0 <= j < i && #[trigger] outputs@[j].output_id@ == outputs@[i as int].output_id@,
{
    let mut j: usize = 0;
    while j < i
        invariant
            j <= i < outputs@.len(),
            forall|k: int| 0 <= k < j ==> outputs@[k].output_id@ != outputs@[i as int].output_id@,
        decreases i - j,
    {
        if outputs[j].output_id == outputs[i].output_id {
            return true;
        }
        j += 1;
    }
    false
}

impl ServiceReadiness {
    /// Checks the report; the error names the first problem found, output by
    /// output in order, then the counts, then a ready service without ready output.
    pub fn validate(&self) -> (r: Result<(), String>)
        ensures
            r is Ok <==> readiness_valid(*self),
            r matches Err(m) ==> {
                if exists|i: int| 0 <= i < self.outputs@.len() && readiness_problem(self.outputs@, i) != 0 {
                    let i = choose|i: int| 0 <= i < self.outputs@.len() && readiness_problem(self.outputs@, i) != 0
                        && forall|k: int| 0 <= k < i ==> readiness_problem(self.outputs@, k) == 0;
                    let id = self.outputs@[i].output_id@;
                    m@ == (if readiness_problem(self.outputs@, i) == 1 {
                        "duplicate readiness output "@ + id
                    } else if readiness_problem(self.outputs@, i) == 2 {
                        "retry state mismatch for "@ + id
                    } else {
                        "ready output has pending work "@ + id
                    })
                } else if !readiness_counts_consistent(*self) {
                    m@ == "readiness counts are inconsistent"@
                } else {
                    m@ == "ready service has no ready output"@
                }
            },
    {
        let outputs = &self.outputs;
        let mut i: usize = 0;
        let mut ready: usize = 0;
        let mut retry: usize = 0;
        let mut failed: usize = 0;
        while i < outputs.len()
            invariant
                i <= outputs@.len(),
                outputs == &self.outputs,
                forall|k: int| 0 <= k < i ==> readiness_problem(outputs@, k) == 0,
                ready == count_ready(outputs@.take(i as int)),
                retry == count_retry_pending(outputs@.take(i as int)),
                failed == count_failed(outputs@.take(i as int)),
                ready <= i && retry <= i && failed <= i,
            decreases outputs@.len() - i,
        {
            let o = &outputs[i];
            let ghost prob = readiness_problem(outputs@, i as int);
            if find_duplicate_id(outputs, i) {
                proof {
                    assert(prob == 1);
                    let c = choose|c: int| 0 <= c < self.outputs@.len() && readiness_problem(self.outputs@, c) != 0
                        && forall|k: int| 0 <= k < c ==> readiness_problem(self.outputs@, k) == 0;
                    assert(c == i) by {
                        if c < i { assert(readiness_problem(outputs@, c) == 0); }
                        if c > i { assert(readiness_problem(self.outputs@, i as int) == 0); }
                    }
                }
                return Err(message_with("duplicate readiness output ", &o.output_id));
            }
            if o.retry_pending && o.state != OutputReadinessState::RetryPending {
                proof {
                    assert(prob == 2);
                    let c = choose|c: int| 0 <= c < self.outputs@.len() && readiness_problem(self.outputs@, c) != 0
                        && forall|k: int| 0 <= k < c ==> readiness_problem(self.outputs@, k) == 0;
                    assert(c == i) by {
                        if c < i { assert(readiness_problem(outputs@, c) == 0); }
                        if c > i { assert(readiness_problem(self.outputs@, i as int) == 0); }
                    }
                }
                return Err(message_with("retry state mismatch for ", &o.output_id));
            }
            if o.state == OutputReadinessState::Ready && (o.retry_pending || o.pending_damage) {
                proof {
                    assert(prob == 3);
                    let c = choose|c: int| 0 <= c < self.outputs@.len() && readiness_problem(self.outputs@, c) != 0
                        && forall|k: int| 0 <= k < c ==> readiness_problem(self.outputs@, k) == 0;
                    assert(c == i) by {
                        if c < i { assert(readiness_problem(outputs@, c) == 0); }
                        if c > i { assert(readiness_problem(self.outputs@, i as int) == 0); }
                    }
                }
                return Err(message_with("ready output has pending work ", &o.output_id));
            }
            proof {
                assert(outputs@.take(i + 1).drop_last() =~= outputs@.take(i as int));
            }
            if o.state == OutputReadinessState::Ready {
                ready += 1;
            }
            if o.retry_pending {
                retry += 1;
            }
            if o.state == OutputReadinessState::PublicationFailed || o.state == OutputReadinessState::RetryPending {
                failed += 1;
            }
            i += 1;
        }
        proof {
            assert(outputs@.take(outputs@.len() as int) =~= outputs@);
        }
        if self.configured_output_count != outputs.len() || self.ready_output_count != ready
            || self.retry_pending_output_count != retry || self.failed_output_count != failed
        {
            return Err(String::from_str("readiness counts are inconsistent"));
        }
        if self.state == ServiceReadinessState::Ready && self.ready_output_count == 0 {
            return Err(String::from_str("ready service has no ready output"));
        }
        Ok(())
    }
}

/// What is wrong with publication output `i`: 1 a duplicate id, 2 a scene
/// generation other than the result's, 0 nothing.
pub open spec fn publication_problem(outputs: Seq<OutputPublicationResult>, scene_generation: u64, i: int) -> int {
    if exists|j: int| 0 <= j < i && #[trigger] outputs[j].output_id@ == outputs[i].output_id@ {
        1
    } else if outputs[i].scene_generation != scene_generation {
        2
    } else {
        0
    }
}

fn find_duplicate_publication(outputs: &Vec<OutputPublicationResult>, i: usize) -> (r: bool)
    requires
        i < outputs@.len(),
    ensures
        r == exists|j: int| 0 <= j < i && #[trigger] outputs@[j].output_id@ == outputs@[i as int].output_id@,
{
    let mut j: usize = 0;
    while j < i
        invariant
            j <= i < outputs@.len(),
            forall|k: int| 0 <= k < j ==> outputs@[k].output_id@ != outputs@[i as int].output_id@,
        decreases i - j,
    {
        if outputs[j].output_id == outputs[i].output_id {
            return true;
        }
        j += 1;
    }
    false
}

impl ScenePublicationResult {
    /// A publication result is valid when its output ids are distinct and each
    /// output carries the result's scene generation; the error names the first
    /// offending output.
    pub fn validate(&self) -> (r: Result<(), String>)
        ensures
            r is Ok <==> forall|i: int| 0 <= i < self.outputs@.len()
                ==> publication_problem(self.outputs@, self.scene_generation, i) == 0,
            r matches Err(m) ==> {
                let i = choose|i: int| 0 <= i < self.outputs@.len()
                    && publication_problem(self.outputs@, self.scene_generation, i) != 0
                    && forall|k: int| 0 <= k < i ==> publication_problem(self.outputs@, self.scene_generation, k) == 0;
                m@ == (if publication_problem(self.outputs@, self.scene_generation, i) == 1 {
                    "duplicate publication output "@ + self.outputs@[i].output_id@
                } else {
                    "publication scene generation mismatch for "@ + self.outputs@[i].output_id@
                })
            },
    {
        let outputs = &self.outputs;
        let mut i: usize = 0;
        while i < outputs.len()
            invariant
                i <= outputs@.len(),
                outputs == &self.outputs,
                forall|k: int| 0 <= k < i ==> publication_problem(outputs@, self.scene_generation, k) == 0,
            decreases outputs@.len() - i,
        {
            let dup = find_duplicate_publication(outputs, i);
            if dup || outputs[i].scene_generation != self.scene_generation {
                proof {
                    let c = choose|c: int| 0 <= c < self.outputs@.len()
                        && publication_problem(self.outputs@, self.scene_generation, c) != 0
                        && forall|k: int| 0 <= k < c ==> publication_problem(self.outputs@, self.scene_generation, k) == 0;
                    assert(publication_problem(self.outputs@, self.scene_generation, i as int) != 0);
                    assert(c == i) by {
                        if c < i { assert(publication_problem(outputs@, self.scene_generation, c) == 0); }
                        if c > i { assert(publication_problem(self.outputs@, self.scene_generation, i as int) == 0); }
                    }
                }
                if dup {
                    return Err(message_with("duplicate publication output ", &outputs[i].output_id));
                }
                return Err(message_with("publication scene generation mismatch for ", &outputs[i].output_id));
            }
            i += 1;
        }
        Ok(())
    }
}

} // verus!
