//! sessiond's decisions: the resume sequence, launch states built from a
//! profile, the profile switch a watchdog report asks for, and the stream
//! of launch-state updates sent to the watchdog.
use vstd::prelude::*;
use crate::ipc::WatchdogCommand;
use crate::profile::{
    DesktopComponent, DesktopComponentState, DesktopProfile, DesktopRecoveryAction, SessionLaunchComponentState,
    SessionLaunchDelta, SessionLaunchState, SessionProfileTransition, SessionWatchdogReport,
};
use crate::service::now_unix_timestamp;
use crate::text::{chars_of, push_str, string_from_chars};

verus! {

/// Which failure a resume run simulates.
#[derive(Debug, Clone, Copy, PartialEq, Eq, Structural)]
pub enum ResumeScenario {
    Normal,
    DisplaydTrouble,
    CompdTrouble,
    LockdTrouble,
}

pub open spec fn scenario_name(s: ResumeScenario) -> Seq<char> {
    match s {
        ResumeScenario::Normal => "normal"@,
        ResumeScenario::DisplaydTrouble => "displayd-trouble"@,
        ResumeScenario::CompdTrouble => "compd-trouble"@,
        ResumeScenario::LockdTrouble => "lockd-trouble"@,
    }
}

impl ResumeScenario {
    /// The scenario of a name; any other name is refused.
    pub fn from_str(s: &str) -> (r: Result<ResumeScenario, String>)
        ensures
            match r {
                Ok(sc) => scenario_name(sc) == s@,
                Err(m) => (forall|sc: ResumeScenario| scenario_name(sc) != s@) && m@ == "unknown resume scenario: "@ + s@,
            },
    {
        let owned = String::from_str(s);
        if crate::cli::is_arg(&owned, "normal") {
            Ok(ResumeScenario::Normal)
        } else if crate::cli::is_arg(&owned, "displayd-trouble") {
            Ok(ResumeScenario::DisplaydTrouble)
        } else if crate::cli::is_arg(&owned, "compd-trouble") {
            Ok(ResumeScenario::CompdTrouble)
        } else if crate::cli::is_arg(&owned, "lockd-trouble") {
            Ok(ResumeScenario::LockdTrouble)
        } else {
            let mut m = chars_of("unknown resume scenario: ");
            push_str(&mut m, s);
            Err(string_from_chars(&m))
        }
    }

    pub fn as_str(&self) -> (r: &'static str)
        ensures
            r@ == scenario_name(*self),
    {
        match self {
            ResumeScenario::Normal => "normal",
            ResumeScenario::DisplaydTrouble => "displayd-trouble",
            ResumeScenario::CompdTrouble => "compd-trouble",
            ResumeScenario::LockdTrouble => "lockd-trouble",
        }
    }
}

/// The state a resume ends in.
#[derive(Debug, Clone, Copy, PartialEq, Eq, Structural)]
pub enum ResumeFinalState {
    Normal,
    Hold,
    BlankOnly,
    RestartRequest,
}

impl ResumeFinalState {
    pub fn as_str(&self) -> (r: &'static str)
        ensures
            r@ == (match *self {
                ResumeFinalState::Normal => "normal"@,
                ResumeFinalState::Hold => "hold"@,
                ResumeFinalState::BlankOnly => "blank-only"@,
                ResumeFinalState::RestartRequest => "restart-request"@,
            }),
    {
        match self {
            ResumeFinalState::Normal => "normal",
            ResumeFinalState::Hold => "hold",
            ResumeFinalState::BlankOnly => "blank-only",
            ResumeFinalState::RestartRequest => "restart-request",
        }
    }
}

/// The request the resume sequence sends next.
#[derive(Debug, Clone, Copy, PartialEq, Eq, Structural)]
pub enum ResumeRequest {
    /// `ResumeBegin` to displayd.
    DisplaydResumeBegin,
    /// `SetLockState Locked` to lockd.
    LockdLock,
    /// `ResumeHint OutputsRecovered` to compd.
    CompdOutputsRecovered,
    /// `AuthPrompt` to lockd.
    LockdAuthPrompt,
    /// `ResumeHint Complete` to compd.
    CompdComplete,
    /// `Restart compd` to the watchdog.
    WatchdogRestartCompd,
}

/// How a service answered a resume request.
#[derive(Debug)]
pub enum ResumeReply {
    /// The answer the step expects.
    Expected,
    /// Another answer, rendered for the trace.
    Unexpected { detail: String },
    /// The service could not be reached.
    Unreachable { detail: String },
    /// lockd answered the auth prompt with its fault-injection reason.
    AuthFaultInjection,
}

/// One line of the resume trace.
#[derive(Debug)]
pub struct ResumeStep {
    pub name: String,
    pub service: String,
    pub outcome: String,
    pub detail: Option<String>,
}

/// The resume sequence: displayd begins, lockd locks, compd recovers its
/// outputs, lockd prompts for authentication, compd completes. The first
/// step that fails ends it in `hold` (displayd), `blank-only` (lockd) or
/// `restart-request` (compd, which then asks the watchdog to restart compd).
#[derive(Debug)]
pub struct ResumeSequence {
    pub next: Option<ResumeRequest>,
    pub final_state: ResumeFinalState,
    pub steps: Vec<ResumeStep>,
}

/// The step name, the service and the outcome recorded for a request.
pub open spec fn step_name(q: ResumeRequest) -> Seq<char> {
    match q {
        ResumeRequest::DisplaydResumeBegin => "resume_begin"@,
        ResumeRequest::LockdLock => "set_lock_state"@,
        ResumeRequest::CompdOutputsRecovered => "resume_hint_outputs"@,
        ResumeRequest::LockdAuthPrompt => "auth_prompt"@,
        ResumeRequest::CompdComplete => "resume_hint_complete"@,
        ResumeRequest::WatchdogRestartCompd => "watchdog_restart_request"@,
    }
}

pub open spec fn step_service(q: ResumeRequest) -> Seq<char> {
    match q {
        ResumeRequest::DisplaydResumeBegin => "displayd"@,
        ResumeRequest::LockdLock => "lockd"@,
        ResumeRequest::CompdOutputsRecovered => "compd"@,
        ResumeRequest::LockdAuthPrompt => "lockd"@,
        ResumeRequest::CompdComplete => "compd"@,
        ResumeRequest::WatchdogRestartCompd => "watchdog"@,
    }
}

/// Whether the reply lets the sequence go on past this request.
pub open spec fn reply_succeeds(q: ResumeRequest, reply: ResumeReply) -> bool {
    match q {
        ResumeRequest::CompdComplete => true,
        _ => reply is Expected,
    }
}

/// The outcome word the trace records.
pub open spec fn step_outcome(q: ResumeRequest, reply: ResumeReply) -> Seq<char> {
    if q == ResumeRequest::CompdComplete {
        "success"@
    } else if q == ResumeRequest::WatchdogRestartCompd {
        match reply {
            ResumeReply::Expected => "accepted"@,
            ResumeReply::Unreachable { .. } => "unreachable"@,
            _ => "rejected"@,
        }
    } else {
        match reply {
            ResumeReply::Expected => "success"@,
            ResumeReply::Unreachable { .. } => "unreachable"@,
            _ => "failed"@,
        }
    }
}

/// The detail the trace records, if any.
pub open spec fn step_detail(q: ResumeRequest, reply: ResumeReply) -> Option<Seq<char>> {
    if q == ResumeRequest::CompdComplete {
        None
    } else {
        match reply {
            ResumeReply::Expected => None,
            ResumeReply::Unexpected { detail } => Some(detail@),
            ResumeReply::Unreachable { detail } => Some(detail@),
            ResumeReply::AuthFaultInjection => Some("auth prompt fault injection"@),
        }
    }
}

/// Where the sequence goes after a request, and the final state it holds.
pub open spec fn resume_transition(q: ResumeRequest, reply: ResumeReply) -> (Option<ResumeRequest>, ResumeFinalState) {
    let ok = reply_succeeds(q, reply);
    match q {
        ResumeRequest::DisplaydResumeBegin => if ok { (Some(ResumeRequest::LockdLock), ResumeFinalState::Normal) }
            else { (None, ResumeFinalState::Hold) },
        ResumeRequest::LockdLock => if ok { (Some(ResumeRequest::CompdOutputsRecovered), ResumeFinalState::Normal) }
            else { (None, ResumeFinalState::BlankOnly) },
        ResumeRequest::CompdOutputsRecovered => if ok { (Some(ResumeRequest::LockdAuthPrompt), ResumeFinalState::Normal) }
            else { (Some(ResumeRequest::WatchdogRestartCompd), ResumeFinalState::RestartRequest) },
        ResumeRequest::LockdAuthPrompt => if ok { (Some(ResumeRequest::CompdComplete), ResumeFinalState::Normal) }
            else { (None, ResumeFinalState::BlankOnly) },
        ResumeRequest::CompdComplete => (None, ResumeFinalState::Normal),
        ResumeRequest::WatchdogRestartCompd => (None, ResumeFinalState::RestartRequest),
    }
}

fn step_text(q: ResumeRequest) -> (r: (&'static str, &'static str))
    ensures
        r.0@ == step_name(q) && r.1@ == step_service(q),
{
    match q {
        ResumeRequest::DisplaydResumeBegin => ("resume_begin", "displayd"),
        ResumeRequest::LockdLock => ("set_lock_state", "lockd"),
        ResumeRequest::CompdOutputsRecovered => ("resume_hint_outputs", "compd"),
        ResumeRequest::LockdAuthPrompt => ("auth_prompt", "lockd"),
        ResumeRequest::CompdComplete => ("resume_hint_complete", "compd"),
        ResumeRequest::WatchdogRestartCompd => ("watchdog_restart_request", "watchdog"),
    }
}

impl ResumeSequence {
    /// A sequence about to ask displayd to begin resuming.
    pub fn new() -> (r: Self)
        ensures
            r.next == Some(ResumeRequest::DisplaydResumeBegin),
            r.final_state == ResumeFinalState::Normal,
            r.steps@.len() == 0,
    {
        ResumeSequence { next: Some(ResumeRequest::DisplaydResumeBegin), final_state: ResumeFinalState::Normal, steps: Vec::new() }
    }

    /// Records the reply to the pending request: one trace step, and the
    /// next request and final state.
    pub fn record_reply(&mut self, reply: ResumeReply)
        requires
            old(self).next is Some,
        ensures
            ({
                let q = old(self).next.unwrap();
                let (next, state) = resume_transition(q, reply);
                &&& final(self).next == next
                &&& final(self).final_state == state
                &&& final(self).steps@.len() == old(self).steps@.len() + 1
                &&& final(self).steps@.take(old(self).steps@.len() as int) == old(self).steps@
                &&& final(self).steps@.last().name@ == step_name(q)
                &&& final(self).steps@.last().service@ == step_service(q)
                &&& final(self).steps@.last().outcome@ == step_outcome(q, reply)
                &&& (match final(self).steps@.last().detail { Some(d) => Some(d@), None => None }) == step_detail(q, reply)
            }),
    {
        let q = match self.next { Some(q) => q, None => { return; } };
        let (name, service) = step_text(q);
        let outcome: &'static str = if q == ResumeRequest::CompdComplete {
            "success"
        } else if q == ResumeRequest::WatchdogRestartCompd {
            match &reply {
                ResumeReply::Expected => "accepted",
                ResumeReply::Unreachable { .. } => "unreachable",
                _ => "rejected",
            }
        } else {
            match &reply {
                ResumeReply::Expected => "success",
                ResumeReply::Unreachable { .. } => "unreachable",
                _ => "failed",
            }
        };
        let ok = q == ResumeRequest::CompdComplete || reply.is_expected();
        let detail: Option<String> = if q == ResumeRequest::CompdComplete {
            None
        } else {
            match reply {
                ResumeReply::Expected => None,
                ResumeReply::Unexpected { detail } => Some(detail),
                ResumeReply::Unreachable { detail } => Some(detail),
                ResumeReply::AuthFaultInjection => Some(String::from_str("auth prompt fault injection")),
            }
        };
        let (next, state) = match q {
            ResumeRequest::DisplaydResumeBegin => if ok { (Some(ResumeRequest::LockdLock), ResumeFinalState::Normal) }
                else { (None, ResumeFinalState::Hold) },
            ResumeRequest::LockdLock => if ok { (Some(ResumeRequest::CompdOutputsRecovered), ResumeFinalState::Normal) }
                else { (None, ResumeFinalState::BlankOnly) },
            ResumeRequest::CompdOutputsRecovered => if ok { (Some(ResumeRequest::LockdAuthPrompt), ResumeFinalState::Normal) }
                else { (Some(ResumeRequest::WatchdogRestartCompd), ResumeFinalState::RestartRequest) },
            ResumeRequest::LockdAuthPrompt => if ok { (Some(ResumeRequest::CompdComplete), ResumeFinalState::Normal) }
                else { (None, ResumeFinalState::BlankOnly) },
            ResumeRequest::CompdComplete => (None, ResumeFinalState::Normal),
            ResumeRequest::WatchdogRestartCompd => (None, ResumeFinalState::RestartRequest),
        };
        let ghost before = self.steps@;
        self.steps.push(ResumeStep {
            name: String::from_str(name),
            service: String::from_str(service),
            outcome: String::from_str(outcome),
            detail,
        });
        self.next = next;
        self.final_state = state;
        assert(self.steps@.take(before.len() as int) =~= before);
    }
}

impl ResumeReply {
    pub fn is_expected(&self) -> (r: bool)
        ensures
            r == (*self is Expected),
    {
        match self {
            ResumeReply::Expected => true,
            _ => false,
        }
    }
}

/// What a service answered, as far as the resume sequence reads it.
#[derive(Debug)]
pub enum ResumeAnswerKind {
    /// displayd's `ResumeStarted`.
    DisplayResumeStarted,
    /// lockd's `SetLockState Locked`.
    LockStateLocked,
    /// compd's `ResumeHint`, at any stage.
    SessionResumeHint,
    /// lockd's `AuthPrompt`, with its reason.
    LockAuthPrompt { reason: String },
    /// The watchdog's `Restart`.
    WatchdogRestart,
    /// Anything else.
    Other,
}

/// A service's answer to a resume request: none (the service could not be
/// reached), or a message of some kind with its rendering for the trace.
#[derive(Debug)]
pub enum ResumeAnswer {
    Unreachable { detail: String },
    Received { kind: ResumeAnswerKind, detail: String },
}

/// The answer each request expects; compd's completion takes any answer.
pub open spec fn answer_expected(q: ResumeRequest, kind: ResumeAnswerKind) -> bool {
    match q {
        ResumeRequest::DisplaydResumeBegin => kind is DisplayResumeStarted,
        ResumeRequest::LockdLock => kind is LockStateLocked,
        ResumeRequest::CompdOutputsRecovered => kind is SessionResumeHint,
        ResumeRequest::LockdAuthPrompt => kind is LockAuthPrompt,
        ResumeRequest::CompdComplete => true,
        ResumeRequest::WatchdogRestartCompd => kind is WatchdogRestart,
    }
}

/// lockd answered the auth prompt with its fault-injection reason.
pub open spec fn fault_injection_prompt(q: ResumeRequest, kind: ResumeAnswerKind) -> bool {
    &&& q == ResumeRequest::LockdAuthPrompt
    &&& kind matches ResumeAnswerKind::LockAuthPrompt { reason } && reason@ == "fault injection"@
}

/// How the answer to a resume request reads: an unreachable service, an
/// auth prompt that lockd answers with its fault-injection reason, the
/// expected answer, or another answer with its rendering.
pub fn classify_resume_answer(request: ResumeRequest, answer: ResumeAnswer) -> (r: ResumeReply)
    ensures
        match answer {
            ResumeAnswer::Unreachable { detail } => r == (ResumeReply::Unreachable { detail }),
            ResumeAnswer::Received { kind, detail } =>
                if fault_injection_prompt(request, kind) {
                    r is AuthFaultInjection
                } else if answer_expected(request, kind) {
                    r is Expected
                } else {
                    r == (ResumeReply::Unexpected { detail })
                },
        },
{
    let (kind, detail) = match answer {
        ResumeAnswer::Unreachable { detail } => { return ResumeReply::Unreachable { detail }; },
        ResumeAnswer::Received { kind, detail } => (kind, detail),
    };
    let expected = match request {
        ResumeRequest::DisplaydResumeBegin => match kind { ResumeAnswerKind::DisplayResumeStarted => true, _ => false },
        ResumeRequest::LockdLock => match kind { ResumeAnswerKind::LockStateLocked => true, _ => false },
        ResumeRequest::CompdOutputsRecovered => match kind { ResumeAnswerKind::SessionResumeHint => true, _ => false },
        ResumeRequest::LockdAuthPrompt => match &kind {
            ResumeAnswerKind::LockAuthPrompt { reason } => {
                if crate::cli::is_arg(reason, "fault injection") {
                    return ResumeReply::AuthFaultInjection;
                }
                true
            },
            _ => false,
        },
        ResumeRequest::CompdComplete => true,
        ResumeRequest::WatchdogRestartCompd => match kind { ResumeAnswerKind::WatchdogRestart => true, _ => false },
    };
    if expected {
        ResumeReply::Expected
    } else {
        ResumeReply::Unexpected { detail }
    }
}

/// The resume sequence runs in its order: displayd begins, lockd locks,
/// compd recovers its outputs, lockd prompts for authentication, compd
/// completes. Each request is sent only after the one before it was
/// answered as expected (the watchdog restart only after compd failed to
/// recover its outputs), and the sequence never returns to displayd; a
/// successful step leads to the next one and keeps the final state normal.
/// A failed displayd step holds the session, a failed lockd step leaves it
/// blank only, and a compd failure ends in a restart request.
pub proof fn law_resume_runs_in_order(q: ResumeRequest, reply: ResumeReply)
    ensures
        ({
            let (next, state) = resume_transition(q, reply);
            &&& next != Some(ResumeRequest::DisplaydResumeBegin)
            &&& next == Some(ResumeRequest::LockdLock) ==> q == ResumeRequest::DisplaydResumeBegin && reply is Expected
            &&& next == Some(ResumeRequest::CompdOutputsRecovered) ==> q == ResumeRequest::LockdLock && reply is Expected
            &&& next == Some(ResumeRequest::LockdAuthPrompt) ==> q == ResumeRequest::CompdOutputsRecovered && reply is Expected
            &&& next == Some(ResumeRequest::CompdComplete) ==> q == ResumeRequest::LockdAuthPrompt && reply is Expected
            &&& next == Some(ResumeRequest::WatchdogRestartCompd) ==> q == ResumeRequest::CompdOutputsRecovered
                && !(reply is Expected) && state == ResumeFinalState::RestartRequest
            &&& (q == ResumeRequest::DisplaydResumeBegin && reply is Expected) ==> next == Some(ResumeRequest::LockdLock)
            &&& (q == ResumeRequest::LockdLock && reply is Expected) ==> next == Some(ResumeRequest::CompdOutputsRecovered)
            &&& (q == ResumeRequest::CompdOutputsRecovered && reply is Expected) ==> next == Some(ResumeRequest::LockdAuthPrompt)
            &&& (q == ResumeRequest::LockdAuthPrompt && reply is Expected) ==> next == Some(ResumeRequest::CompdComplete)
            &&& q == ResumeRequest::CompdComplete ==> next is None && state == ResumeFinalState::Normal
            &&& (q != ResumeRequest::WatchdogRestartCompd && (reply is Expected || q == ResumeRequest::CompdComplete))
                ==> state == ResumeFinalState::Normal
            &&& (q == ResumeRequest::DisplaydResumeBegin && !(reply is Expected)) ==> next is None && state == ResumeFinalState::Hold
            &&& ((q == ResumeRequest::LockdLock || q == ResumeRequest::LockdAuthPrompt) && !(reply is Expected))
                ==> next is None && state == ResumeFinalState::BlankOnly
            &&& q == ResumeRequest::WatchdogRestartCompd ==> next is None && state == ResumeFinalState::RestartRequest
        }),
{
}

/// A resume that ends in `normal` went through every request, each answered
/// as expected: the final state is `normal` only while no step failed.
pub proof fn lemma_failure_leaves_normal(q: ResumeRequest, reply: ResumeReply)
    requires
        !reply_succeeds(q, reply),
    ensures
        resume_transition(q, reply).1 != ResumeFinalState::Normal,
        q != ResumeRequest::CompdOutputsRecovered ==> resume_transition(q, reply).0 is None,
{
}

} // verus!

verus! {

/// A component as sessiond starts it, before anything is spawned: `ready`
/// when its command resolved to a path, `missing` otherwise.
pub fn base_component_state(component: &DesktopComponent, resolved_command: Option<String>) -> (r: SessionLaunchComponentState)
    ensures
        r.id == component.id,
        r.role == component.role,
        r.critical == component.critical,
        r.command.deep_view() == component.command.deep_view(),
        r.resolved_command == resolved_command,
        r.state == (if resolved_command is Some { DesktopComponentState::Ready } else { DesktopComponentState::Missing }),
        r.pid is None && r.restart_count == 0 && r.last_exit_status is None,
{
    let state = if resolved_command.is_some() { DesktopComponentState::Ready } else { DesktopComponentState::Missing };
    let command = component.command.clone();
    assert(command.deep_view() =~= component.command.deep_view());
    SessionLaunchComponentState {
        id: component.id.clone(),
        role: component.role,
        critical: component.critical,
        command,
        resolved_command,
        state,
        pid: None,
        restart_count: 0,
        last_exit_status: None,
    }
}

/// The launch state of a profile whose components are not spawned: one
/// component state per profile component (with the command path each
/// resolved to), generation and sequence 1.
pub fn build_launch_state(profile: &DesktopProfile, resolved_commands: Vec<Option<String>>) -> (r: SessionLaunchState)
    requires
        resolved_commands@.len() == profile.session_components@.len(),
    ensures
        r.profile_id == profile.id && r.display_name == profile.display_name && r.protocol == profile.protocol,
        r.broker_services@ == profile.broker_services@,
        r.generation == 1 && r.sequence == 1,
        r.components@.len() == profile.session_components@.len(),
        forall|i: int| 0 <= i < r.components@.len() ==> {
            let c = #[trigger] r.components@[i];
            let p = profile.session_components@[i];
            &&& c.id == p.id && c.role == p.role && c.critical == p.critical
            &&& c.command.deep_view() == p.command.deep_view()
            &&& c.resolved_command == resolved_commands@[i]
            &&& c.state == (if resolved_commands@[i] is Some { DesktopComponentState::Ready } else { DesktopComponentState::Missing })
            &&& c.pid is None && c.restart_count == 0 && c.last_exit_status is None
        },
        r.service_component_bindings@ == profile.service_component_bindings@,
        r.service_recovery_execution_policies.deep_view() == profile.service_recovery_execution_policies.deep_view(),
{
    let n = profile.session_components.len();
    let mut resolved = resolved_commands;
    let ghost all = resolved@;
    let mut components: Vec<SessionLaunchComponentState> = Vec::new();
    let mut i: usize = 0;
    while i < n
        invariant
            i <= n == profile.session_components@.len(),
            all.len() == n,
            resolved@ == all.subrange(i as int, n as int),
            components@.len() == i,
            forall|k: int| 0 <= k < i ==> {
                let c = #[trigger] components@[k];
                let p = profile.session_components@[k];
                &&& c.id == p.id && c.role == p.role && c.critical == p.critical
                &&& c.command.deep_view() == p.command.deep_view()
                &&& c.resolved_command == all[k]
                &&& c.state == (if all[k] is Some { DesktopComponentState::Ready } else { DesktopComponentState::Missing })
                &&& c.pid is None && c.restart_count == 0 && c.last_exit_status is None
            },
        decreases n - i,
    {
        let path = resolved.remove(0);
        let c = base_component_state(&profile.session_components[i], path);
        components.push(c);
        i += 1;
        assert(resolved@ =~= all.subrange(i as int, n as int));
    }
    let broker_services = profile.broker_services.clone();
    assert(broker_services@ =~= profile.broker_services@);
    let bindings = profile.service_component_bindings.clone();
    assert(bindings@ =~= profile.service_component_bindings@);
    let policies = profile.service_recovery_execution_policies.clone();
    assert(policies.deep_view() =~= profile.service_recovery_execution_policies.deep_view());
    SessionLaunchState {
        profile_id: profile.id.clone(),
        display_name: profile.display_name.clone(),
        protocol: profile.protocol,
        broker_services,
        generation: 1,
        sequence: 1,
        components,
        unix_timestamp: now_unix_timestamp(),
        service_component_bindings: bindings,
        service_recovery_execution_policies: policies,
    }
}

/// The ids of the components a report marks for a degraded-profile switch,
/// in report order.
pub open spec fn degraded_ids(report: SessionWatchdogReport, k: int) -> Seq<Seq<char>>
    decreases k,
{
    if k <= 0 {
        Seq::empty()
    } else if report.components@[k - 1].action == DesktopRecoveryAction::DegradedProfile {
        degraded_ids(report, k - 1).push(report.components@[k - 1].id@)
    } else {
        degraded_ids(report, k - 1)
    }
}

pub fn degraded_trigger_component_ids(report: &SessionWatchdogReport) -> (r: Vec<String>)
    ensures
        r.deep_view() == degraded_ids(*report, report.components@.len() as int),
{
    let mut out: Vec<String> = Vec::new();
    let mut i: usize = 0;
    while i < report.components.len()
        invariant
            i <= report.components@.len(),
            out.deep_view() == degraded_ids(*report, i as int),
        decreases report.components@.len() - i,
    {
        if report.components[i].action == DesktopRecoveryAction::DegradedProfile {
            let ghost before = out.deep_view();
            out.push(report.components[i].id.clone());
            assert(out.deep_view() =~= before.push(report.components@[i as int].id@));
        }
        i += 1;
    }
    out
}

/// What a watchdog report makes of the active profile.
#[derive(Debug)]
pub enum WatchdogApplyOutcome {
    Transition { target_profile: DesktopProfile, transition: SessionProfileTransition },
    Unchanged { profile_id: String, reason: String },
}

/// Index of the first profile with the given id.
pub open spec fn profile_index(profiles: Seq<DesktopProfile>, id: Seq<char>) -> Option<int>
    decreases profiles.len(),
{
    if profiles.len() == 0 {
        None
    } else if profiles[0].id@ == id {
        Some(0)
    } else {
        match profile_index(profiles.drop_first(), id) {
            Some(j) => Some(j + 1),
            None => None,
        }
    }
}

fn find_profile(profiles: &Vec<DesktopProfile>, id: &String) -> (r: Option<usize>)
    ensures
        match r {
            Some(j) => profile_index(profiles@, id@) == Some(j as int) && j < profiles@.len(),
            None => profile_index(profiles@, id@) is None,
        },
{
    let mut i: usize = 0;
    assert(profiles@.skip(0) =~= profiles@);
    while i < profiles.len()
        invariant
            i <= profiles@.len(),
            profile_index(profiles@, id@) == match profile_index(profiles@.skip(i as int), id@) {
                Some(j) => Some(j + i),
                None => None,
            },
        decreases profiles@.len() - i,
    {
        let ghost rest = profiles@.skip(i as int);
        assert(rest.drop_first() =~= profiles@.skip(i + 1));
        if profiles[i].id == *id {
            assert(rest[0] == profiles@[i as int]);
            return Some(i);
        }
        i += 1;
    }
    assert(profiles@.skip(i as int).len() == 0);
    None
}

/// The profile switch a watchdog report asks for. A report for another
/// profile is refused. Without components marked for a degraded switch,
/// or without a degraded fallback, the profile stays. A fallback naming
/// the active profile itself, or an unknown profile, is refused. Otherwise
/// the switch goes to the fallback profile, triggered by the marked
/// components.
pub fn apply_watchdog_report(active_profile: &DesktopProfile, profiles: &Vec<DesktopProfile>, report: &SessionWatchdogReport)
    -> (r: Result<WatchdogApplyOutcome, String>)
    ensures
        report.profile_id@ != active_profile.id@ ==> (r matches Err(m) && m@ == "watchdog report profile "@
            + report.profile_id@ + " does not match active profile "@ + active_profile.id@),
        report.profile_id@ == active_profile.id@ ==> ({
            let triggers = degraded_ids(*report, report.components@.len() as int);
            if triggers.len() == 0 {
                r matches Ok(WatchdogApplyOutcome::Unchanged { profile_id, reason }) && profile_id@ == active_profile.id@
                    && reason@ == "watchdog report did not request degraded profile switch"@
            } else {
                match active_profile.degraded_profile_id {
                    None => r matches Ok(WatchdogApplyOutcome::Unchanged { profile_id, reason }) && profile_id@ == active_profile.id@
                        && reason@ == "active profile "@ + active_profile.id@ + " has no degraded fallback"@,
                    Some(target) => if target@ == active_profile.id@ {
                        r matches Err(m) && m@ == "active profile "@ + active_profile.id@ + " cannot degrade to itself"@
                    } else {
                        match profile_index(profiles@, target@) {
                            None => r matches Err(m) && m@ == "unknown degraded profile id: "@ + target@,
                            Some(j) => r matches Ok(WatchdogApplyOutcome::Transition { target_profile, transition })
                                && target_profile.deep_view() == profiles@[j].deep_view()
                                && transition.source_profile_id@ == active_profile.id@
                                && transition.source_display_name@ == active_profile.display_name@
                                && transition.target_profile_id@ == profiles@[j].id@
                                && transition.target_display_name@ == profiles@[j].display_name@
                                && transition.reason@ == "watchdog requested degraded profile switch"@
                                && transition.trigger_component_ids.deep_view() == triggers,
                        }
                    },
                }
            }
        }),
{
    if report.profile_id != active_profile.id {
        let mut m = chars_of("watchdog report profile ");
        push_str(&mut m, report.profile_id.as_str());
        push_str(&mut m, " does not match active profile ");
        push_str(&mut m, active_profile.id.as_str());
        return Err(string_from_chars(&m));
    }
    let trigger_component_ids = degraded_trigger_component_ids(report);
    if trigger_component_ids.len() == 0 {
        return Ok(WatchdogApplyOutcome::Unchanged {
            profile_id: active_profile.id.clone(),
            reason: String::from_str("watchdog report did not request degraded profile switch"),
        });
    }
    let target = match &active_profile.degraded_profile_id {
        Some(t) => t,
        None => {
            let mut m = chars_of("active profile ");
            push_str(&mut m, active_profile.id.as_str());
            push_str(&mut m, " has no degraded fallback");
            return Ok(WatchdogApplyOutcome::Unchanged { profile_id: active_profile.id.clone(), reason: string_from_chars(&m) });
        },
    };
    if *target == active_profile.id {
        let mut m = chars_of("active profile ");
        push_str(&mut m, active_profile.id.as_str());
        push_str(&mut m, " cannot degrade to itself");
        return Err(string_from_chars(&m));
    }
    let j = match find_profile(profiles, target) {
        Some(j) => j,
        None => {
            let mut m = chars_of("unknown degraded profile id: ");
            push_str(&mut m, target.as_str());
            return Err(string_from_chars(&m));
        },
    };
    let target_profile = profiles[j].clone();
    let transition = SessionProfileTransition {
        source_profile_id: active_profile.id.clone(),
        source_display_name: active_profile.display_name.clone(),
        target_profile_id: target_profile.id.clone(),
        target_display_name: target_profile.display_name.clone(),
        reason: String::from_str("watchdog requested degraded profile switch"),
        trigger_component_ids,
        unix_timestamp: now_unix_timestamp(),
    };
    Ok(WatchdogApplyOutcome::Transition { target_profile, transition })
}

/// Whether two component states are equal field by field.
pub fn component_state_eq(a: &SessionLaunchComponentState, b: &SessionLaunchComponentState) -> (r: bool)
    ensures
        r == (a.deep_view() == b.deep_view()),
{
    let same_resolved = match (&a.resolved_command, &b.resolved_command) {
        (Some(x), Some(y)) => *x == *y,
        (None, None) => true,
        _ => false,
    };
    let same_pid = match (a.pid, b.pid) {
        (Some(x), Some(y)) => x == y,
        (None, None) => true,
        _ => false,
    };
    let same_exit = match (a.last_exit_status, b.last_exit_status) {
        (Some(x), Some(y)) => x == y,
        (None, None) => true,
        _ => false,
    };
    if a.id != b.id || a.role != b.role || a.critical != b.critical || a.state != b.state || !same_pid
        || a.restart_count != b.restart_count || !same_exit || !same_resolved {
        return false;
    }
    if a.command.len() != b.command.len() {
        assert(a.command.deep_view().len() != b.command.deep_view().len());
        return false;
    }
    let mut i: usize = 0;
    while i < a.command.len()
        invariant
            i <= a.command@.len() == b.command@.len(),
            forall|k: int| 0 <= k < i ==> a.command@[k]@ == b.command@[k]@,
        decreases a.command@.len() - i,
    {
        if a.command[i] != b.command[i] {
            assert(a.command.deep_view()[i as int] != b.command.deep_view()[i as int]);
            return false;
        }
        i += 1;
    }
    assert(a.command.deep_view() =~= b.command.deep_view());
    true
}

/// Index of the first component with the given id.
pub open spec fn component_index(cs: Seq<SessionLaunchComponentState>, id: Seq<char>, k: int) -> Option<int>
    decreases k,
{
    if k <= 0 {
        None
    } else {
        match component_index(cs, id, k - 1) {
            Some(j) => Some(j),
            None => if cs[k - 1].id@ == id { Some(k - 1) } else { None },
        }
    }
}

/// A component changed when no previous component has its id, or the first
/// one that does differs from it.
pub open spec fn component_changed(previous: Seq<SessionLaunchComponentState>, c: SessionLaunchComponentState) -> bool {
    match component_index(previous, c.id@, previous.len() as int) {
        Some(j) => previous[j].deep_view() != c.deep_view(),
        None => true,
    }
}

/// The changed components among the first `k`, in order.
pub open spec fn changed_components(previous: Seq<SessionLaunchComponentState>, current: Seq<SessionLaunchComponentState>, k: int)
    -> Seq<<SessionLaunchComponentState as DeepView>::V>
    decreases k,
{
    if k <= 0 {
        Seq::empty()
    } else if component_changed(previous, current[k - 1]) {
        changed_components(previous, current, k - 1).push(current[k - 1].deep_view())
    } else {
        changed_components(previous, current, k - 1)
    }
}

fn first_component_with_id(cs: &Vec<SessionLaunchComponentState>, id: &String) -> (r: Option<usize>)
    ensures
        match r {
            Some(j) => component_index(cs@, id@, cs@.len() as int) == Some(j as int) && j < cs@.len(),
            None => component_index(cs@, id@, cs@.len() as int) is None,
        },
{
    let mut i: usize = 0;
    while i < cs.len()
        invariant
            i <= cs@.len(),
            component_index(cs@, id@, i as int) is None,
        decreases cs@.len() - i,
    {
        if cs[i].id == *id {
            proof { lemma_component_index_stays(cs@, id@, i as int + 1, cs@.len() as int); }
            return Some(i);
        }
        i += 1;
    }
    None
}

proof fn lemma_component_index_stays(cs: Seq<SessionLaunchComponentState>, id: Seq<char>, j: int, k: int)
    requires
        0 <= j <= k,
        component_index(cs, id, j) is Some,
    ensures
        component_index(cs, id, k) == component_index(cs, id, j),
    decreases k - j,
{
    if j < k {
        lemma_component_index_stays(cs, id, j, k - 1);
    }
}

/// What sessiond streams to the watchdog: the full state first; after a
/// profile, generation or component-count change, a replacing delta with
/// every component; otherwise a delta with only the changed components.
pub fn watchdog_stream_command(state: &SessionLaunchState, previous: Option<&SessionLaunchState>) -> (r: WatchdogCommand)
    ensures
        match previous {
            None => r matches WatchdogCommand::InspectLaunchState { state: s } && s.deep_view() == state.deep_view(),
            Some(p) => r matches WatchdogCommand::UpdateLaunchState { delta }
                && delta.profile_id == state.profile_id && delta.display_name == state.display_name
                && delta.protocol == state.protocol && delta.broker_services@ == state.broker_services@
                && delta.generation == state.generation && delta.sequence == state.sequence
                && delta.service_component_bindings@ == state.service_component_bindings@
                && delta.service_recovery_execution_policies.deep_view() == state.service_recovery_execution_policies.deep_view()
                && if p.profile_id@ != state.profile_id@ || p.generation != state.generation
                    || p.components@.len() != state.components@.len() {
                    delta.replace && delta.components.deep_view() == state.components.deep_view()
                } else {
                    !delta.replace && delta.components.deep_view()
                        == changed_components(p.components@, state.components@, state.components@.len() as int)
                },
        },
{
    let previous = match previous {
        None => { return WatchdogCommand::InspectLaunchState { state: state.clone() }; },
        Some(p) => p,
    };
    let broker_services = state.broker_services.clone();
    assert(broker_services@ =~= state.broker_services@);
    let bindings = state.service_component_bindings.clone();
    assert(bindings@ =~= state.service_component_bindings@);
    let policies = state.service_recovery_execution_policies.clone();
    assert(policies.deep_view() =~= state.service_recovery_execution_policies.deep_view());
    if previous.profile_id != state.profile_id || previous.generation != state.generation
        || previous.components.len() != state.components.len() {
        let components = state.components.clone();
        assert(components.deep_view() =~= state.components.deep_view());
        return WatchdogCommand::UpdateLaunchState {
            delta: SessionLaunchDelta {
                profile_id: state.profile_id.clone(),
                display_name: state.display_name.clone(),
                protocol: state.protocol,
                broker_services,
                generation: state.generation,
                sequence: state.sequence,
                replace: true,
                components,
                unix_timestamp: now_unix_timestamp(),
                service_component_bindings: bindings,
                service_recovery_execution_policies: policies,
            },
        };
    }
    let mut changed: Vec<SessionLaunchComponentState> = Vec::new();
    let mut i: usize = 0;
    while i < state.components.len()
        invariant
            i <= state.components@.len(),
            changed.deep_view() == changed_components(previous.components@, state.components@, i as int),
        decreases state.components@.len() - i,
    {
        let c = &state.components[i];
        let is_changed = match first_component_with_id(&previous.components, &c.id) {
            Some(j) => !component_state_eq(&previous.components[j], c),
            None => true,
        };
        if is_changed {
            let ghost before = changed.deep_view();
            changed.push(c.clone());
            assert(changed.deep_view() =~= before.push(state.components@[i as int].deep_view()));
        }
        i += 1;
    }
    WatchdogCommand::UpdateLaunchState {
        delta: SessionLaunchDelta {
            profile_id: state.profile_id.clone(),
            display_name: state.display_name.clone(),
            protocol: state.protocol,
            broker_services,
            generation: state.generation,
            sequence: state.sequence,
            replace: false,
            components: changed,
            unix_timestamp: now_unix_timestamp(),
            service_component_bindings: bindings,
            service_recovery_execution_policies: policies,
        },
    }
}

/// The deep views of a sequence of component states, as a `Vec` of them
/// gives.
pub open spec fn component_views(cs: Seq<SessionLaunchComponentState>) -> Seq<<SessionLaunchComponentState as DeepView>::V> {
    Seq::new(cs.len(), |i: int| cs[i].deep_view())
}

/// Component ids are pairwise distinct.
pub open spec fn distinct_component_ids(cs: Seq<SessionLaunchComponentState>) -> bool {
    forall|i: int, j: int| 0 <= i < j < cs.len() ==> cs[i].id@ != cs[j].id@
}

proof fn lemma_component_index_absent(cs: Seq<SessionLaunchComponentState>, id: Seq<char>, m: int)
    requires
        0 <= m <= cs.len(),
        forall|i: int| 0 <= i < m ==> cs[i].id@ != id,
    ensures
        component_index(cs, id, m) is None,
    decreases m,
{
    if m > 0 {
        lemma_component_index_absent(cs, id, m - 1);
    }
}

proof fn lemma_component_index_distinct(cs: Seq<SessionLaunchComponentState>, k: int, m: int)
    requires
        distinct_component_ids(cs),
        0 <= k < m <= cs.len(),
    ensures
        component_index(cs, cs[k].id@, m) == Some(k),
    decreases m,
{
    if m == k + 1 {
        lemma_component_index_absent(cs, cs[k].id@, k);
    } else {
        lemma_component_index_distinct(cs, k, m - 1);
    }
}

proof fn lemma_first_id_index_distinct(cs: Seq<<SessionLaunchComponentState as DeepView>::V>, k: int)
    requires
        0 <= k < cs.len(),
        forall|i: int, j: int| 0 <= i < j < cs.len() ==> cs[i].0 != cs[j].0,
    ensures
        crate::watchdog::first_id_index(cs, cs[k].0) == Some(k),
    decreases cs.len(),
{
    if k > 0 {
        let rest = cs.drop_first();
        assert(rest[k - 1] == cs[k]);
        assert(cs[0].0 != cs[k].0);
        lemma_first_id_index_distinct(rest, k - 1);
    }
}

proof fn lemma_merge_ignores_tail(cs: Seq<<SessionLaunchComponentState as DeepView>::V>,
    changed: Seq<<SessionLaunchComponentState as DeepView>::V>, x: <SessionLaunchComponentState as DeepView>::V, k: int)
    requires
        0 <= k <= changed.len(),
    ensures
        crate::watchdog::merge_components(cs, changed.push(x), k) == crate::watchdog::merge_components(cs, changed, k),
    decreases k,
{
    if k > 0 {
        lemma_merge_ignores_tail(cs, changed, x, k - 1);
        assert(changed.push(x)[k - 1] == changed[k - 1]);
    }
}

proof fn lemma_merge_changed_prefix(previous: Seq<SessionLaunchComponentState>, current: Seq<SessionLaunchComponentState>, k: int)
    requires
        previous.len() == current.len(),
        forall|i: int| 0 <= i < previous.len() ==> #[trigger] previous[i].id@ == current[i].id@,
        distinct_component_ids(previous),
        0 <= k <= current.len(),
    ensures
        ({
            let ch = changed_components(previous, current, k);
            let m = crate::watchdog::merge_components(component_views(previous), ch, ch.len() as int);
            &&& m.len() == previous.len()
            &&& forall|i: int| 0 <= i < k ==> #[trigger] m[i] == current[i].deep_view()
            &&& forall|i: int| k <= i < previous.len() ==> #[trigger] m[i] == previous[i].deep_view()
        }),
    decreases k,
{
    if k > 0 {
        lemma_merge_changed_prefix(previous, current, k - 1);
        let n = previous.len();
        let ch0 = changed_components(previous, current, k - 1);
        let m0 = crate::watchdog::merge_components(component_views(previous), ch0, ch0.len() as int);
        let x = current[k - 1].deep_view();
        lemma_component_index_distinct(previous, k - 1, n as int);
        assert(previous[k - 1].id@ == current[k - 1].id@);
        if component_changed(previous, current[k - 1]) {
            let ch = ch0.push(x);
            assert(changed_components(previous, current, k) == ch);
            lemma_merge_ignores_tail(component_views(previous), ch0, x, ch0.len() as int);
            assert(ch[ch0.len() as int] == x);
            assert forall|i: int| 0 <= i < m0.len() implies #[trigger] m0[i].0 == previous[i].id@ by {
                if i < k - 1 {
                    assert(previous[i].id@ == current[i].id@);
                }
            }
            assert forall|i: int, j: int| 0 <= i < j < m0.len() implies m0[i].0 != m0[j].0 by {
                assert(m0[i].0 == previous[i].id@);
                assert(m0[j].0 == previous[j].id@);
            }
            assert(m0[k - 1].0 == x.0);
            lemma_first_id_index_distinct(m0, k - 1);
            let m = crate::watchdog::merge_components(component_views(previous), ch, ch.len() as int);
            assert(m == crate::watchdog::merge_one(m0, x));
            assert(m == m0.update(k - 1, x));
        } else {
            assert(changed_components(previous, current, k) == ch0);
        }
    }
}

/// What the watchdog rebuilds from a delta is the state sessiond streamed:
/// merging the changed components of `current` against `previous` into
/// `previous` gives `current`, for two snapshots of one profile whose
/// components keep their distinct ids in order.
pub proof fn law_delta_merge_restores_components(previous: Seq<SessionLaunchComponentState>,
    current: Seq<SessionLaunchComponentState>)
    requires
        previous.len() == current.len(),
        forall|i: int| 0 <= i < previous.len() ==> #[trigger] previous[i].id@ == current[i].id@,
        distinct_component_ids(previous),
    ensures
        ({
            let ch = changed_components(previous, current, current.len() as int);
            crate::watchdog::merge_components(component_views(previous), ch, ch.len() as int) == component_views(current)
        }),
{
    lemma_merge_changed_prefix(previous, current, current.len() as int);
    let ch = changed_components(previous, current, current.len() as int);
    let m = crate::watchdog::merge_components(component_views(previous), ch, ch.len() as int);
    assert(m =~= component_views(current));
}

} // verus!
