//! compd's link to displayd: the reconnect-and-reconcile exchange run after
//! a transport loss, and what a forwarded scene turns into once displayd
//! (or the loss of it) has answered. The exchanges themselves are carried
//! out by the caller, which hands each answer back.
use vstd::prelude::*;
use crate::compd::{CompdRelayState, RelayScene, SceneCommitReceipt, matching_snapshot_receipt, reconciliation_commit_id,
    scene_committed_event};
use crate::ipc::{CommittedSceneState, DisplayCommand, DisplayEvent};
use crate::text::{chars_of, push_str, string_from_chars};

verus! {

/// Attempts of one reconnect run.
pub const DISPLAY_RECONNECT_RETRY_LIMIT: u8 = 3;

/// What compd knows of its link to displayd.
#[derive(Debug, Clone, Copy, PartialEq, Eq, Structural)]
pub enum DisplayLinkState {
    Connected { epoch: u64 },
    Disconnected,
    Reconnecting { attempt: u8 },
    Reconciling { epoch: u64 },
    AwaitingFreshPresentation { epoch: u64 },
    Failed,
}

/// Where a reconnect run stands: which answer it waits for.
#[derive(Debug, PartialEq, Eq)]
pub enum ReconnectPhase {
    /// The answer to the reconciliation query.
    Query,
    /// The answer to the start of reconciliation.
    Begin,
    /// The answer to the scene reconciliation.
    Reconcile,
    /// The scene snapshot after the scene reconciliation was lost.
    SnapshotAfterSendError,
    /// The scene snapshot after displayd reconciled the scene.
    SnapshotAfterReconciled,
    /// The scene snapshot after displayd refused the scene.
    SnapshotAfterRejected { reason: String },
    /// The run has finished.
    Done,
}

/// One reconnect run.
pub struct ReconnectRun {
    pub attempt: u8,
    pub epoch: u64,
    pub phase: ReconnectPhase,
    pub last_error: Option<String>,
    pub link: DisplayLinkState,
}

/// What the run asks its caller to do next.
pub enum ReconnectAction {
    /// Send this command to displayd and hand back the command and answer.
    Send(DisplayCommand),
    /// Query displayd's scene snapshot for this output and hand it back.
    QuerySnapshot { output: String },
    /// The run is over.
    Finished(Result<SceneCommitReceipt, String>),
}

/// An answer handed back to the run.
pub enum ReconnectEvent {
    Reply { command: DisplayCommand, result: Result<DisplayEvent, String> },
    Snapshot(Result<Option<CommittedSceneState>, String>),
}

fn prefixed(prefix: &str, tail: &str) -> (r: String)
    ensures
        r@ == prefix@ + tail@,
{
    let mut m = chars_of(prefix);
    push_str(&mut m, tail);
    string_from_chars(&m)
}

fn prefixed_debug(prefix: &str, event: &DisplayEvent) -> (r: String)
    ensures
        r@ == prefix@ + crate::ipc::display_event_name(*event),
{
    prefixed(prefix, event.variant_name())
}

/// The run after a failed exchange: the error is remembered and the next
/// attempt starts, unless the attempts are used up, when the run fails with it.
pub open spec fn retried(before: ReconnectRun, text: Seq<char>, after: ReconnectRun, a: ReconnectAction) -> bool {
    &&& after.last_error matches Some(e) && e@ == text
    &&& after.epoch == before.epoch
    &&& if before.attempt < DISPLAY_RECONNECT_RETRY_LIMIT {
        &&& after.attempt == before.attempt + 1
        &&& after.phase == ReconnectPhase::Query
        &&& after.link == (DisplayLinkState::Reconnecting { attempt: (before.attempt + 1) as u8 })
        &&& a matches ReconnectAction::Send(DisplayCommand::GetReconciliation)
    } else {
        &&& after.attempt == before.attempt
        &&& after.phase == ReconnectPhase::Done
        &&& after.link == DisplayLinkState::Failed
        &&& a matches ReconnectAction::Finished(Err(m)) && m@ == text
    }
}

/// The run has finished without changing the link.
pub open spec fn finished_with(before: ReconnectRun, after: ReconnectRun, a: ReconnectAction, r: Result<SceneCommitReceipt, Seq<char>>) -> bool {
    &&& after.phase == ReconnectPhase::Done
    &&& after.link == before.link
    &&& after.attempt == before.attempt && after.epoch == before.epoch
    &&& match r {
        Ok(receipt) => a == ReconnectAction::Finished(Ok(receipt)),
        Err(text) => a matches ReconnectAction::Finished(Err(m)) && m@ == text,
    }
}

/// The receipt a snapshot yields for the relayed scene, if it is the
/// scene's own and valid.
pub open spec fn snapshot_receipt(snapshot: Result<Option<CommittedSceneState>, String>, relay: RelayScene) -> Option<SceneCommitReceipt> {
    match snapshot {
        Ok(Some(s)) => if crate::compd::snapshot_output(s) == relay.scene.target_output@ && s.scene_epoch == relay.scene.scene_epoch
            && s.scene_generation == relay.scene.scene_generation && s.commit_id != 0 {
            Some(SceneCommitReceipt { surface_count: s.surfaces@.len() as usize, commit_id: s.commit_id })
        } else {
            None
        },
        _ => None,
    }
}

fn receipt_of_snapshot(snapshot: Result<Option<CommittedSceneState>, String>, relay: &RelayScene) -> (r: Option<SceneCommitReceipt>)
    ensures
        r == snapshot_receipt(snapshot, *relay),
{
    match snapshot {
        Ok(s) => match matching_snapshot_receipt(s, relay) {
            Ok(Some(receipt)) => Some(receipt),
            _ => None,
        },
        Err(_) => None,
    }
}

impl ReconnectRun {
    /// The run may take this answer in its current phase.
    pub open spec fn accepts(&self, event: ReconnectEvent) -> bool {
        match self.phase {
            ReconnectPhase::Query | ReconnectPhase::Begin | ReconnectPhase::Reconcile => event is Reply,
            ReconnectPhase::Done => false,
            _ => event is Snapshot,
        }
    }

    /// A run at its first attempt, asking for the reconciliation state.
    pub fn start() -> (r: (ReconnectRun, ReconnectAction))
        ensures
            r.0.attempt == 1 && r.0.epoch == 0 && r.0.phase == ReconnectPhase::Query && r.0.last_error is None,
            r.0.link == (DisplayLinkState::Reconnecting { attempt: 1 }),
            r.1 matches ReconnectAction::Send(DisplayCommand::GetReconciliation),
    {
        (ReconnectRun { attempt: 1, epoch: 0, phase: ReconnectPhase::Query, last_error: None,
            link: DisplayLinkState::Reconnecting { attempt: 1 } },
            ReconnectAction::Send(DisplayCommand::GetReconciliation))
    }

    fn retry(&mut self, text: &str) -> (a: ReconnectAction)
        requires
            1 <= old(self).attempt <= DISPLAY_RECONNECT_RETRY_LIMIT,
        ensures
            retried(*old(self), text@, *final(self), a),
            1 <= final(self).attempt <= DISPLAY_RECONNECT_RETRY_LIMIT,
    {
        self.last_error = Some(String::from_str(text));
        if self.attempt < DISPLAY_RECONNECT_RETRY_LIMIT {
            self.attempt = self.attempt + 1;
            self.phase = ReconnectPhase::Query;
            self.link = DisplayLinkState::Reconnecting { attempt: self.attempt };
            ReconnectAction::Send(DisplayCommand::GetReconciliation)
        } else {
            self.phase = ReconnectPhase::Done;
            self.link = DisplayLinkState::Failed;
            ReconnectAction::Finished(Err(String::from_str(text)))
        }
    }

    fn finish(&mut self, r: Result<SceneCommitReceipt, String>) -> (a: ReconnectAction)
        ensures
            final(self).phase == ReconnectPhase::Done,
            final(self).link == old(self).link,
            final(self).attempt == old(self).attempt && final(self).epoch == old(self).epoch,
            a == ReconnectAction::Finished(r),
    {
        self.phase = ReconnectPhase::Done;
        ReconnectAction::Finished(r)
    }

    /// Takes one answer and says what to do next. Up to three attempts are
    /// made: a lost exchange starts the next one; a refusal or an unexpected
    /// answer ends the run; a lost or refused scene reconciliation still
    /// succeeds when displayd's snapshot already shows the scene; a
    /// reconciled scene is confirmed by the commit id of its snapshot.
    pub fn step(&mut self, relay: &mut RelayScene, event: ReconnectEvent) -> (a: ReconnectAction)
        requires
            old(self).accepts(event),
            1 <= old(self).attempt <= DISPLAY_RECONNECT_RETRY_LIMIT,
        ensures
            1 <= final(self).attempt <= DISPLAY_RECONNECT_RETRY_LIMIT,
            final(relay).scene == old(relay).scene,
            ({
                let s = *old(self);
                let f = *final(self);
                match s.phase {
                    ReconnectPhase::Query => match event {
                        ReconnectEvent::Reply { command: _, result } => {
                            &&& *final(relay) == *old(relay)
                            &&& match result {
                                Err(_) => retried(s, "failed reconciliation query"@, f, a),
                                Ok(DisplayEvent::Reconciliation { epoch, state: _ }) => {
                                    &&& f.epoch == epoch && f.phase == ReconnectPhase::Begin && f.attempt == s.attempt
                                    &&& f.link == (DisplayLinkState::Reconciling { epoch })
                                    &&& a == ReconnectAction::Send(DisplayCommand::BeginReconciliation { epoch })
                                },
                                Ok(DisplayEvent::Rejected { reason }) =>
                                    finished_with(s, f, a, Err("displayd rejected reconciliation query: "@ + reason@)),
                                Ok(ev) => finished_with(s, f, a, Err("unexpected reconciliation response: "@ + crate::ipc::display_event_name(ev))),
                            }
                        },
                        _ => false,
                    },
                    ReconnectPhase::Begin => match event {
                        ReconnectEvent::Reply { command: _, result } => match result {
                            Err(_) => retried(s, "failed reconciliation begin"@, f, a) && *final(relay) == *old(relay),
                            Ok(DisplayEvent::Reconciliation { epoch, state: _ }) => if epoch == s.epoch {
                                &&& f.phase == ReconnectPhase::Reconcile && f.epoch == s.epoch && f.attempt == s.attempt
                                &&& f.link == s.link
                                &&& final(relay).pixel_payloads@.len() == 0
                                &&& a matches ReconnectAction::Send(DisplayCommand::ReconcileScene {
                                    epoch: e, scene_epoch, scene_generation, target: _, focus: _, selection: _, surfaces: _,
                                    pixel_payloads })
                                    && e == s.epoch && pixel_payloads == old(relay).pixel_payloads
                                    && scene_epoch == old(relay).scene.scene_epoch
                                    && scene_generation == old(relay).scene.scene_generation
                            } else {
                                finished_with(s, f, a, Err("unexpected reconciliation begin response: "@ + crate::ipc::display_event_name(result->Ok_0)))
                                    && *final(relay) == *old(relay)
                            },
                            Ok(DisplayEvent::Rejected { reason }) =>
                                finished_with(s, f, a, Err("displayd rejected reconciliation begin: "@ + reason@))
                                && *final(relay) == *old(relay),
                            Ok(ev) => finished_with(s, f, a, Err("unexpected reconciliation begin response: "@ + crate::ipc::display_event_name(ev)))
                                && *final(relay) == *old(relay),
                        },
                        _ => false,
                    },
                    ReconnectPhase::Reconcile => match event {
                        ReconnectEvent::Reply { command, result } => {
                            &&& match command {
                                DisplayCommand::ReconcileScene { pixel_payloads, .. } => final(relay).pixel_payloads == pixel_payloads,
                                DisplayCommand::CommitScene { pixel_payloads, .. } => final(relay).pixel_payloads == pixel_payloads,
                                _ => final(relay).pixel_payloads@.len() == 0,
                            }
                            &&& f.epoch == s.epoch && f.attempt == s.attempt
                            &&& match result {
                                Err(_) => f.phase == ReconnectPhase::SnapshotAfterSendError && f.link == s.link
                                    && a == ReconnectAction::QuerySnapshot { output: old(relay).scene.target_output },
                                Ok(DisplayEvent::Reconciled { epoch, scene_generation }) =>
                                    if epoch == s.epoch && scene_generation == old(relay).scene.scene_generation {
                                        f.phase == ReconnectPhase::SnapshotAfterReconciled && f.link == s.link
                                            && a == ReconnectAction::QuerySnapshot { output: old(relay).scene.target_output }
                                    } else {
                                        finished_with(s, f, a, Err("unexpected scene reconciliation response: "@ + crate::ipc::display_event_name(result->Ok_0)))
                                    },
                                Ok(DisplayEvent::Rejected { reason }) =>
                                    f.phase == ReconnectPhase::SnapshotAfterRejected { reason } && f.link == s.link
                                        && a == ReconnectAction::QuerySnapshot { output: old(relay).scene.target_output },
                                Ok(ev) => finished_with(s, f, a, Err("unexpected scene reconciliation response: "@ + crate::ipc::display_event_name(ev))),
                            }
                        },
                        _ => false,
                    },
                    ReconnectPhase::SnapshotAfterSendError => match event {
                        ReconnectEvent::Snapshot(snapshot) => {
                            &&& *final(relay) == *old(relay)
                            &&& match snapshot_receipt(snapshot, *old(relay)) {
                                Some(receipt) => finished_with(s, f, a, Ok(receipt)),
                                None => retried(s, "failed scene reconciliation"@, f, a),
                            }
                        },
                        _ => false,
                    },
                    ReconnectPhase::SnapshotAfterReconciled => match event {
                        ReconnectEvent::Snapshot(snapshot) => {
                            &&& *final(relay) == *old(relay)
                            &&& match snapshot {
                                Err(e) => finished_with(s, f, a, Err(e@)),
                                Ok(sn) => match sn {
                                    Some(c) => if crate::compd::snapshot_output(c) == old(relay).scene.target_output@
                                        && c.scene_epoch == old(relay).scene.scene_epoch
                                        && c.scene_generation == old(relay).scene.scene_generation && c.commit_id != 0 {
                                        &&& f.phase == ReconnectPhase::Done
                                        &&& f.link == (DisplayLinkState::AwaitingFreshPresentation { epoch: s.epoch })
                                        &&& a == ReconnectAction::Finished(Ok(SceneCommitReceipt {
                                            surface_count: old(relay).scene.surfaces@.len() as usize, commit_id: c.commit_id }))
                                    } else {
                                        f.phase == ReconnectPhase::Done && f.link == s.link && a matches ReconnectAction::Finished(Err(_))
                                    },
                                    None => finished_with(s, f, a, Err("displayd reconciliation produced no scene snapshot"@)),
                                },
                            }
                        },
                        _ => false,
                    },
                    ReconnectPhase::SnapshotAfterRejected { reason } => match event {
                        ReconnectEvent::Snapshot(snapshot) => {
                            &&& *final(relay) == *old(relay)
                            &&& f.phase == ReconnectPhase::Done && f.attempt == s.attempt && f.epoch == s.epoch
                            &&& match snapshot_receipt(snapshot, *old(relay)) {
                                Some(receipt) => f.link == s.link && a == ReconnectAction::Finished(Ok(receipt)),
                                None => f.link == DisplayLinkState::Failed && (a matches ReconnectAction::Finished(Err(m))
                                    && m@ == "displayd rejected scene reconciliation: "@ + reason@),
                            }
                        },
                        _ => false,
                    },
                    ReconnectPhase::Done => false,
                }
            }),
    {
        let mut phase = ReconnectPhase::Done;
        std::mem::swap(&mut phase, &mut self.phase);
        match phase {
            ReconnectPhase::Query => {
                self.phase = ReconnectPhase::Query;
                let result = match event { ReconnectEvent::Reply { command: _, result } => result, _ => { return self.finish(Err(String::new())); } };
                match result {
                    Err(_) => self.retry("failed reconciliation query"),
                    Ok(DisplayEvent::Reconciliation { epoch, state: _ }) => {
                        self.epoch = epoch;
                        self.phase = ReconnectPhase::Begin;
                        self.link = DisplayLinkState::Reconciling { epoch };
                        ReconnectAction::Send(DisplayCommand::BeginReconciliation { epoch })
                    },
                    Ok(DisplayEvent::Rejected { reason }) => {
                        let m = prefixed("displayd rejected reconciliation query: ", reason.as_str());
                        self.finish(Err(m))
                    },
                    Ok(other) => {
                        let m = prefixed_debug("unexpected reconciliation response: ", &other);
                        self.finish(Err(m))
                    },
                }
            },
            ReconnectPhase::Begin => {
                self.phase = ReconnectPhase::Begin;
                let result = match event { ReconnectEvent::Reply { command: _, result } => result, _ => { return self.finish(Err(String::new())); } };
                match result {
                    Err(_) => self.retry("failed reconciliation begin"),
                    Ok(DisplayEvent::Reconciliation { epoch, state }) => {
                        if epoch == self.epoch {
                            self.phase = ReconnectPhase::Reconcile;
                            let command = relay.take_reconcile_command(self.epoch);
                            ReconnectAction::Send(command)
                        } else {
                            let m = prefixed_debug("unexpected reconciliation begin response: ",
                                &DisplayEvent::Reconciliation { epoch, state });
                            self.finish(Err(m))
                        }
                    },
                    Ok(DisplayEvent::Rejected { reason }) => {
                        let m = prefixed("displayd rejected reconciliation begin: ", reason.as_str());
                        self.finish(Err(m))
                    },
                    Ok(other) => {
                        let m = prefixed_debug("unexpected reconciliation begin response: ", &other);
                        self.finish(Err(m))
                    },
                }
            },
            ReconnectPhase::Reconcile => {
                let (command, result) = match event {
                    ReconnectEvent::Reply { command, result } => (command, result),
                    _ => { return self.finish(Err(String::new())); },
                };
                relay.restore_payloads_from_command(command);
                match result {
                    Err(_) => {
                        self.phase = ReconnectPhase::SnapshotAfterSendError;
                        ReconnectAction::QuerySnapshot { output: relay.scene.target_output.clone() }
                    },
                    Ok(DisplayEvent::Reconciled { epoch, scene_generation }) => {
                        if epoch == self.epoch && scene_generation == relay.scene.scene_generation {
                            self.phase = ReconnectPhase::SnapshotAfterReconciled;
                            ReconnectAction::QuerySnapshot { output: relay.scene.target_output.clone() }
                        } else {
                            let m = prefixed_debug("unexpected scene reconciliation response: ",
                                &DisplayEvent::Reconciled { epoch, scene_generation });
                            self.finish(Err(m))
                        }
                    },
                    Ok(DisplayEvent::Rejected { reason }) => {
                        self.phase = ReconnectPhase::SnapshotAfterRejected { reason };
                        ReconnectAction::QuerySnapshot { output: relay.scene.target_output.clone() }
                    },
                    Ok(other) => {
                        let m = prefixed_debug("unexpected scene reconciliation response: ", &other);
                        self.finish(Err(m))
                    },
                }
            },
            ReconnectPhase::SnapshotAfterSendError => {
                self.phase = ReconnectPhase::SnapshotAfterSendError;
                let snapshot = match event { ReconnectEvent::Snapshot(s) => s, _ => { return self.finish(Err(String::new())); } };
                match receipt_of_snapshot(snapshot, relay) {
                    Some(receipt) => self.finish(Ok(receipt)),
                    None => self.retry("failed scene reconciliation"),
                }
            },
            ReconnectPhase::SnapshotAfterReconciled => {
                self.phase = ReconnectPhase::SnapshotAfterReconciled;
                let snapshot = match event { ReconnectEvent::Snapshot(s) => s, _ => { return self.finish(Err(String::new())); } };
                match snapshot {
                    Err(e) => self.finish(Err(e)),
                    Ok(sn) => match reconciliation_commit_id(sn, relay) {
                        Err(m) => self.finish(Err(m)),
                        Ok(commit_id) => {
                            self.link = DisplayLinkState::AwaitingFreshPresentation { epoch: self.epoch };
                            self.finish(Ok(SceneCommitReceipt { surface_count: relay.scene.surfaces.len(), commit_id }))
                        },
                    },
                }
            },
            ReconnectPhase::SnapshotAfterRejected { reason } => {
                let snapshot = match event { ReconnectEvent::Snapshot(s) => s, _ => { return self.finish(Err(String::new())); } };
                match receipt_of_snapshot(snapshot, relay) {
                    Some(receipt) => self.finish(Ok(receipt)),
                    None => {
                        self.link = DisplayLinkState::Failed;
                        let m = prefixed("displayd rejected scene reconciliation: ", reason.as_str());
                        self.finish(Err(m))
                    },
                }
            },
            ReconnectPhase::Done => self.finish(Err(String::new())),
        }
    }
}


/// What becomes of a forwarded scene commit once displayd answered it.
pub enum CommitFollowUp {
    /// Answer with this event; `connected` marks the link as up.
    Done { event: DisplayEvent, connected: bool },
    /// displayd refused the scene: look at its snapshot before passing the
    /// refusal on.
    CheckSnapshot { rejection: DisplayEvent },
    /// The transport was lost: mark the link down and run a reconnect.
    Reconcile { transport_error: String },
    /// displayd answered with something else: fail the request.
    Fail { error: String },
}

/// Takes displayd's answer to a forwarded scene commit: a committed scene is
/// noted as forwarded and answered; a refusal is checked against the
/// snapshot; a transport loss leads to a reconnect.
pub fn commit_answer_step(state: &mut CompdRelayState, relay: &RelayScene, answer: Result<DisplayEvent, String>)
    -> (r: CommitFollowUp)
    ensures
        match answer {
            Ok(DisplayEvent::SceneCommitted { .. }) => crate::compd::noted_forwarded(*old(state), *relay, *final(state))
                && r == (CommitFollowUp::Done { event: answer->Ok_0, connected: true }),
            Ok(DisplayEvent::Rejected { .. }) => r == (CommitFollowUp::CheckSnapshot { rejection: answer->Ok_0 })
                && *final(state) == *old(state),
            Ok(ev) => (r matches CommitFollowUp::Fail { error } && error@ == "displayd returned unexpected scene response: "@ + crate::ipc::display_event_name(ev))
                && *final(state) == *old(state),
            Err(t) => r == (CommitFollowUp::Reconcile { transport_error: t }) && *final(state) == *old(state),
        },
{
    match answer {
        Ok(DisplayEvent::SceneCommitted { target, focus, selection, surface_count, commit_id, publication }) => {
            state.note_forwarded(relay);
            CommitFollowUp::Done {
                event: DisplayEvent::SceneCommitted { target, focus, selection, surface_count, commit_id, publication },
                connected: true,
            }
        },
        Ok(DisplayEvent::Rejected { reason }) => CommitFollowUp::CheckSnapshot { rejection: DisplayEvent::Rejected { reason } },
        Ok(other) => CommitFollowUp::Fail { error: prefixed_debug("displayd returned unexpected scene response: ", &other) },
        Err(t) => CommitFollowUp::Reconcile { transport_error: t },
    }
}

/// A refused scene that displayd's snapshot already shows counts as
/// committed; otherwise the refusal is passed on.
pub fn rejection_follow_up(state: &mut CompdRelayState, relay: &RelayScene, snapshot: Result<Option<CommittedSceneState>, String>,
    rejection: DisplayEvent) -> (r: DisplayEvent)
    ensures
        match snapshot_receipt(snapshot, *relay) {
            Some(receipt) => crate::compd::noted_forwarded(*old(state), *relay, *final(state))
                && (r matches DisplayEvent::SceneCommitted { surface_count, commit_id, .. }
                && surface_count == receipt.surface_count && commit_id == receipt.commit_id),
            None => r == rejection && *final(state) == *old(state),
        },
{
    match receipt_of_snapshot(snapshot, relay) {
        Some(receipt) => {
            state.note_forwarded(relay);
            scene_committed_event(relay, receipt)
        },
        None => rejection,
    }
}

/// The end of a reconnect run for a scene commit: a reconciled scene is
/// noted as forwarded and answered as committed; otherwise the scene is
/// deferred and refused with both errors.
pub fn reconcile_follow_up(state: &mut CompdRelayState, relay: &RelayScene, transport_error: &String,
    result: Result<SceneCommitReceipt, String>) -> (r: DisplayEvent)
    ensures
        match result {
            Ok(receipt) => crate::compd::noted_forwarded(*old(state), *relay, *final(state))
                && (r matches DisplayEvent::SceneCommitted { surface_count, commit_id, .. }
                && surface_count == receipt.surface_count && commit_id == receipt.commit_id),
            Err(e) => r matches DisplayEvent::Rejected { reason }
                && reason@ == "compd deferred latest scene after displayd transport loss: "@ + transport_error@
                    + "; reconciliation failed: "@ + e@
                && crate::compd::deferred(*old(state), *relay, reason, *final(state)),
        },
{
    match result {
        Ok(receipt) => {
            state.note_forwarded(relay);
            scene_committed_event(relay, receipt)
        },
        Err(e) => {
            let mut m = chars_of("compd deferred latest scene after displayd transport loss: ");
            push_str(&mut m, transport_error.as_str());
            push_str(&mut m, "; reconciliation failed: ");
            push_str(&mut m, e.as_str());
            let reason = string_from_chars(&m);
            let copy = reason.clone();
            state.defer_latest(relay, copy);
            DisplayEvent::Rejected { reason }
        },
    }
}

/// A scene that retries the deferred version and that displayd's snapshot
/// already shows is answered as committed without sending it again.
pub fn deferred_retry_follow_up(state: &mut CompdRelayState, relay: &RelayScene, snapshot: Result<Option<CommittedSceneState>, String>)
    -> (r: Option<DisplayEvent>)
    ensures
        match snapshot_receipt(snapshot, *relay) {
            Some(receipt) => crate::compd::noted_forwarded(*old(state), *relay, *final(state))
                && (r matches Some(DisplayEvent::SceneCommitted { surface_count, commit_id, .. })
                && surface_count == receipt.surface_count && commit_id == receipt.commit_id),
            None => r is None && *final(state) == *old(state),
        },
{
    match receipt_of_snapshot(snapshot, relay) {
        Some(receipt) => {
            state.note_forwarded(relay);
            Some(scene_committed_event(relay, receipt))
        },
        None => None,
    }
}

/// displayd's answer to a relayed reconciliation: a reconciled scene is
/// noted as forwarded, any other answer passed on; a lost exchange defers
/// the scene and refuses it.
pub fn reconcile_forward_follow_up(state: &mut CompdRelayState, relay: &RelayScene, answer: Result<DisplayEvent, String>)
    -> (r: DisplayEvent)
    ensures
        match answer {
            Ok(DisplayEvent::Reconciled { .. }) => r == answer->Ok_0 && crate::compd::noted_forwarded(*old(state), *relay, *final(state)),
            Ok(e) => r == e && *final(state) == *old(state),
            Err(err) => r matches DisplayEvent::Rejected { reason }
                && reason@ == "compd reconciliation forward failed: "@ + err@
                && crate::compd::deferred(*old(state), *relay, reason, *final(state)),
        },
{
    match answer {
        Ok(DisplayEvent::Reconciled { epoch, scene_generation }) => {
            state.note_forwarded(relay);
            DisplayEvent::Reconciled { epoch, scene_generation }
        },
        Ok(e) => e,
        Err(err) => {
            let reason = prefixed("compd reconciliation forward failed: ", err.as_str());
            let copy = reason.clone();
            state.defer_latest(relay, copy);
            DisplayEvent::Rejected { reason }
        },
    }
}

/// Reads displayd's answer to a scene snapshot query.
pub fn snapshot_from_reply(answer: Result<DisplayEvent, String>) -> (r: Result<Option<CommittedSceneState>, String>)
    ensures
        match answer {
            Ok(DisplayEvent::SceneSnapshot { snapshot }) => r == Ok::<Option<CommittedSceneState>, String>(snapshot),
            Ok(DisplayEvent::Rejected { reason }) => r matches Err(m) && m@ == "displayd rejected scene snapshot query: "@ + reason@,
            Ok(ev) => r matches Err(m) && m@ == "unexpected displayd response: "@ + crate::ipc::display_event_name(ev),
            Err(e) => r == Err::<Option<CommittedSceneState>, String>(e),
        },
{
    match answer {
        Ok(DisplayEvent::SceneSnapshot { snapshot }) => Ok(snapshot),
        Ok(DisplayEvent::Rejected { reason }) => Err(prefixed("displayd rejected scene snapshot query: ", reason.as_str())),
        Ok(other) => Err(prefixed_debug("unexpected displayd response: ", &other)),
        Err(e) => Err(e),
    }
}

} // verus!
