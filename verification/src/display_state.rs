//! displayd's state between commands and the decisions it takes on each
//! display command; the backend calls, clocks and file writes around them
//! are made by the caller, which hands back what they returned.
use vstd::prelude::*;
use crate::ipc::{CommitTarget, CommittedSceneState, DisplayEvent, FocusTarget, OutputGeometry, OutputMode,
    PointerConstraints, SurfaceSnapshot, WaylandSelectionState};
use crate::pixel_transport::PixelTransportStore;
use crate::render::{OutputState, RendererRect, output_valid, spec_framebuffer_words, WL_SHM_FORMAT_XRGB8888};
use crate::service::ServiceRole;
use crate::text::{chars_of, decimal_chars, push_chars, push_str, string_from_chars};

verus! {

/// The presentation feedback kept for one commit.
#[derive(Debug, Clone, Copy, PartialEq, Eq, Structural)]
pub struct FrameFeedback {
    pub commit_id: u64,
    pub timestamp: u64,
    pub refresh_ns: u32,
    pub seq: u64,
    pub flags: u32,
}

/// An output being recorded.
#[derive(Debug, PartialEq, Eq)]
pub struct RecordingState {
    pub session_id: String,
    pub fps: u32,
    pub start_timestamp: u64,
}

/// Everything displayd keeps between commands.
pub struct DisplayState {
    pub last_scene: Option<CommittedSceneState>,
    pub last_scene_epoch: u64,
    pub last_scene_generation: u64,
    pub next_commit_id: u64,
    pub active_recordings: Vec<(String, RecordingState)>,
    pub pointer_constraints: Vec<(String, PointerConstraints)>,
    pub presentation_feedbacks: Vec<FrameFeedback>,
    pub peak_gpu_alloc: u64,
    pub released_alloc_count: u64,
    pub zero_damage_skipped_count: u64,
    pub direct_scanout_count: u64,
    pub composition_frame_count: u64,
    pub next_frame_id: u64,
    pub published_frame_id: u64,
    pub framebuffer: Vec<u32>,
    pub output: OutputState,
    pub pixel_transport: PixelTransportStore,
}

/// The keys of a list of keyed entries are pairwise distinct.
pub open spec fn keys_unique<V>(entries: Seq<(String, V)>) -> bool {
    forall|i: int, j: int| 0 <= i < j < entries.len() ==> entries[i].0@ != entries[j].0@
}

/// The keys of a list of keyed entries.
pub open spec fn entry_keys<V>(entries: Seq<(String, V)>) -> Set<Seq<char>> {
    Set::new(|k: Seq<char>| exists|i: int| 0 <= i < entries.len() && entries[i].0@ == k)
}

/// The feedback recorded last for a commit among the first `n` entries.
pub open spec fn last_feedback(fs: Seq<FrameFeedback>, commit_id: u64, n: int) -> Option<FrameFeedback>
    decreases n,
{
    if n <= 0 {
        None
    } else if fs[n - 1].commit_id == commit_id {
        Some(fs[n - 1])
    } else {
        last_feedback(fs, commit_id, n - 1)
    }
}

/// The output displayd starts with: a 1920x1080 XRGB8888 eDP-1 panel at
/// the origin, generation 0.
pub open spec fn initial_output(o: OutputState) -> bool {
    o.output_id@ == "eDP-1"@ && o.width == 1920 && o.height == 1080 && o.stride == 7680
        && o.format == WL_SHM_FORMAT_XRGB8888 && o.origin_x == 0 && o.origin_y == 0 && o.generation == 0
}

fn initial_output_state() -> (r: OutputState)
    ensures
        initial_output(r),
        output_valid(r),
{
    let r = OutputState {
        output_id: String::from_str("eDP-1"),
        width: 1920,
        height: 1080,
        stride: 7680,
        format: WL_SHM_FORMAT_XRGB8888,
        origin_x: 0,
        origin_y: 0,
        generation: 0,
    };
    proof { reveal_strlit("eDP-1"); }
    r
}

impl DisplayState {
    /// The state is well formed: a valid output and keyed tables without
    /// duplicate keys.
    pub open spec fn wf(&self) -> bool {
        &&& output_valid(self.output)
        &&& keys_unique(self.active_recordings@)
        &&& keys_unique(self.pointer_constraints@)
    }

    /// A fresh state that remembers `last_scene` (the persisted snapshot):
    /// scene epoch and generation continue from it and the next commit id
    /// follows its commit id; without one everything starts at zero and
    /// commits at 1. The framebuffer is empty until the first composition.
    pub fn from_snapshot(last_scene: Option<CommittedSceneState>) -> (r: Self)
        ensures
            r.wf(),
            initial_output(r.output),
            r.last_scene == last_scene,
            match last_scene {
                Some(s) => r.last_scene_epoch == s.scene_epoch && r.last_scene_generation == s.scene_generation
                    && r.next_commit_id == (if s.commit_id == u64::MAX { u64::MAX } else { (s.commit_id + 1) as u64 }),
                None => r.last_scene_epoch == 0 && r.last_scene_generation == 0 && r.next_commit_id == 1,
            },
            r.active_recordings@.len() == 0 && r.pointer_constraints@.len() == 0 && r.presentation_feedbacks@.len() == 0,
            r.peak_gpu_alloc == 0 && r.released_alloc_count == 0 && r.zero_damage_skipped_count == 0,
            r.direct_scanout_count == 0 && r.composition_frame_count == 0,
            r.next_frame_id == 1 && r.published_frame_id == 0,
            r.framebuffer@.len() == 0,
            r.pixel_transport.view().is_empty(),
    {
        let (epoch, generation, next_commit_id) = match &last_scene {
            Some(s) => (s.scene_epoch, s.scene_generation, if s.commit_id == u64::MAX { u64::MAX } else { s.commit_id + 1 }),
            None => (0, 0, 1),
        };
        DisplayState {
            last_scene,
            last_scene_epoch: epoch,
            last_scene_generation: generation,
            next_commit_id,
            active_recordings: Vec::new(),
            pointer_constraints: Vec::new(),
            presentation_feedbacks: Vec::new(),
            peak_gpu_alloc: 0,
            released_alloc_count: 0,
            zero_damage_skipped_count: 0,
            direct_scanout_count: 0,
            composition_frame_count: 0,
            next_frame_id: 1,
            published_frame_id: 0,
            framebuffer: Vec::new(),
            output: initial_output_state(),
            pixel_transport: PixelTransportStore::new(),
        }
    }

    /// A fresh state with no persisted scene.
    pub fn new_test() -> (r: Self)
        ensures
            r.wf(),
            initial_output(r.output),
            r.last_scene is None,
            r.last_scene_epoch == 0 && r.last_scene_generation == 0 && r.next_commit_id == 1,
            r.next_frame_id == 1 && r.published_frame_id == 0,
            r.framebuffer@.len() == 0,
            r.pixel_transport.view().is_empty(),
    {
        Self::from_snapshot(None)
    }
}


/// "stale output generation".
pub open spec fn stale_output_text() -> Seq<char> {
    "stale output generation"@
}

/// The committed scene targets the named output.
pub open spec fn spec_targets_output(scene: CommittedSceneState, output: Seq<char>) -> bool {
    match scene.target {
        CommitTarget::Output { name } => name@ == output,
    }
}

pub fn scene_targets_output(scene: &CommittedSceneState, output: &str) -> (r: bool)
    ensures
        r == spec_targets_output(*scene, output@),
{
    match &scene.target {
        CommitTarget::Output { name } => {
            let o = String::from_str(output);
            *name == o
        },
    }
}

/// "no feedback for commit_id N".
pub open spec fn no_feedback_text(commit_id: u64) -> Seq<char> {
    "no feedback for commit_id "@ + crate::text::decimal_digits(commit_id as nat)
}

impl DisplayState {
    /// Applies a new output geometry: a valid geometry of a later output
    /// generation replaces the output and drops the framebuffer, so the next
    /// composition repaints everything; anything else is refused and changes
    /// nothing.
    pub fn configure_output(&mut self, geometry: OutputGeometry) -> (r: DisplayEvent)
        requires
            old(self).wf(),
        ensures
            final(self).wf(),
            match crate::render::geometry_defect(geometry) {
                Some(m) => (r matches DisplayEvent::Rejected { reason } && reason@ == m) && *final(self) == *old(self),
                None => if geometry.output_generation <= old(self).output.generation {
                    (r matches DisplayEvent::Rejected { reason } && reason@ == stale_output_text()) && *final(self) == *old(self)
                } else {
                    &&& r matches DisplayEvent::ModeApplied { output, mode } && output == geometry.output_id
                        && mode == (OutputMode { name: geometry.output_id, width: geometry.width, height: geometry.height, refresh_hz: 0 })
                    &&& final(self).output.output_id == geometry.output_id && final(self).output.width == geometry.width
                    &&& final(self).output.height == geometry.height && final(self).output.stride == geometry.stride
                    &&& final(self).output.format == geometry.format && final(self).output.origin_x == geometry.origin_x
                    &&& final(self).output.origin_y == geometry.origin_y && final(self).output.generation == geometry.output_generation
                    &&& final(self).framebuffer@.len() == 0
                    &&& final(self).last_scene == old(self).last_scene
                    &&& final(self).next_commit_id == old(self).next_commit_id
                    &&& final(self).next_frame_id == old(self).next_frame_id
                    &&& final(self).pixel_transport == old(self).pixel_transport
                },
            },
    {
        let next = match OutputState::validate(&geometry) {
            Ok(v) => v,
            Err(reason) => { return DisplayEvent::Rejected { reason }; }
        };
        if next.generation <= self.output.generation {
            let reason = String::from_str("stale output generation");
            proof { reveal_strlit("stale output generation"); }
            return DisplayEvent::Rejected { reason };
        }
        self.output = next;
        self.framebuffer = Vec::new();
        let name = geometry.output_id.clone();
        DisplayEvent::ModeApplied {
            output: name,
            mode: OutputMode { name: geometry.output_id, width: geometry.width, height: geometry.height, refresh_hz: 0 },
        }
    }

    /// The last committed scene when it targets the asked output (any output
    /// when none is named).
    pub fn scene_for_output(&self, output: Option<&str>) -> (r: Option<CommittedSceneState>)
        ensures
            match self.last_scene {
                None => r is None,
                Some(s) => match output {
                    None => r matches Some(c) && c.deep_view() == s.deep_view(),
                    Some(name) => if spec_targets_output(s, name@) {
                        r matches Some(c) && c.deep_view() == s.deep_view()
                    } else {
                        r is None
                    },
                },
            },
    {
        let scene = match &self.last_scene {
            None => { return None; },
            Some(s) => s,
        };
        match output {
            None => Some(scene.clone()),
            Some(name) => if scene_targets_output(scene, name) { Some(scene.clone()) } else { None },
        }
    }

    /// Answers a scene snapshot request.
    pub fn scene_snapshot_event(&self, output: Option<String>) -> (r: DisplayEvent)
        ensures
            r matches DisplayEvent::SceneSnapshot { snapshot } && match self.last_scene {
                None => snapshot is None,
                Some(s) => match output {
                    None => snapshot matches Some(c) && c.deep_view() == s.deep_view(),
                    Some(name) => if spec_targets_output(s, name@) {
                        snapshot matches Some(c) && c.deep_view() == s.deep_view()
                    } else {
                        snapshot is None
                    },
                },
            },
    {
        let snapshot = match &output {
            None => self.scene_for_output(None),
            Some(name) => self.scene_for_output(Some(name.as_str())),
        };
        DisplayEvent::SceneSnapshot { snapshot }
    }

    /// The presentation feedback of a commit, or a refusal naming it.
    pub fn presentation_feedback(&self, commit_id: u64) -> (r: DisplayEvent)
        ensures
            match last_feedback(self.presentation_feedbacks@, commit_id, self.presentation_feedbacks@.len() as int) {
                Some(f) => r == (DisplayEvent::FramePresented { commit_id: f.commit_id, timestamp: f.timestamp,
                    refresh_ns: f.refresh_ns, seq: f.seq, flags: f.flags }),
                None => r matches DisplayEvent::Rejected { reason } && reason@ == no_feedback_text(commit_id),
            },
    {
        let mut i = self.presentation_feedbacks.len();
        while i > 0
            invariant
                i <= self.presentation_feedbacks@.len(),
                last_feedback(self.presentation_feedbacks@, commit_id, self.presentation_feedbacks@.len() as int)
                    == last_feedback(self.presentation_feedbacks@, commit_id, i as int),
            decreases i,
        {
            let f = self.presentation_feedbacks[i - 1];
            if f.commit_id == commit_id {
                return DisplayEvent::FramePresented { commit_id: f.commit_id, timestamp: f.timestamp,
                    refresh_ns: f.refresh_ns, seq: f.seq, flags: f.flags };
            }
            i -= 1;
        }
        let mut m = chars_of("no feedback for commit_id ");
        let d = decimal_chars(commit_id);
        push_chars(&mut m, &d);
        DisplayEvent::Rejected { reason: string_from_chars(&m) }
    }

    /// Records the presentation feedback of a commit (a 60 Hz refresh, no
    /// flags) and returns it as an event.
    pub fn store_feedback(&mut self, commit_id: u64, timestamp: u64, seq: u64) -> (r: DisplayEvent)
        ensures
            final(self).presentation_feedbacks@ == old(self).presentation_feedbacks@.push(FrameFeedback {
                commit_id, timestamp, refresh_ns: 16_666_666, seq, flags: 0 }),
            r == (DisplayEvent::FramePresented { commit_id, timestamp, refresh_ns: 16_666_666, seq, flags: 0 }),
            final(self).last_scene == old(self).last_scene,
            final(self).output == old(self).output,
            final(self).framebuffer == old(self).framebuffer,
            final(self).active_recordings == old(self).active_recordings,
            final(self).pointer_constraints == old(self).pointer_constraints,
            final(self).next_commit_id == old(self).next_commit_id,
    {
        self.presentation_feedbacks.push(FrameFeedback { commit_id, timestamp, refresh_ns: 16_666_666, seq, flags: 0 });
        DisplayEvent::FramePresented { commit_id, timestamp, refresh_ns: 16_666_666, seq, flags: 0 }
    }
}


/// Position of the entry with this key.
fn entry_position<V>(entries: &Vec<(String, V)>, key: &String) -> (r: Option<usize>)
    ensures
        match r {
            Some(i) => i < entries@.len() && entries@[i as int].0@ == key@,
            None => forall|i: int| 0 <= i < entries@.len() ==> #[trigger] entries@[i].0@ != key@,
        },
{
    let mut i: usize = 0;
    while i < entries.len()
        invariant
            i <= entries@.len(),
            forall|j: int| 0 <= j < i ==> #[trigger] entries@[j].0@ != key@,
        decreases entries@.len() - i,
    {
        if entries[i].0 == *key {
            return Some(i);
        }
        i += 1;
    }
    None
}

proof fn lemma_remove_keys<V>(entries: Seq<(String, V)>, i: int)
    requires
        keys_unique(entries),
        0 <= i < entries.len(),
    ensures
        keys_unique(entries.remove(i)),
        entry_keys(entries.remove(i)) == entry_keys(entries).remove(entries[i].0@),
{
    let r = entries.remove(i);
    assert forall|k: Seq<char>| entry_keys(r).contains(k) <==> entry_keys(entries).remove(entries[i].0@).contains(k) by {
        if entry_keys(r).contains(k) {
            let j = choose|j: int| 0 <= j < r.len() && r[j].0@ == k;
            if j < i {
                assert(r[j] == entries[j]);
            } else {
                assert(r[j] == entries[j + 1]);
            }
        }
        if entry_keys(entries).remove(entries[i].0@).contains(k) {
            let j = choose|j: int| 0 <= j < entries.len() && entries[j].0@ == k;
            assert(j != i);
            if j < i {
                assert(r[j] == entries[j]);
            } else {
                assert(r[j - 1] == entries[j]);
            }
        }
    }
    assert(entry_keys(r) =~= entry_keys(entries).remove(entries[i].0@));
}

proof fn lemma_push_keys<V>(entries: Seq<(String, V)>, e: (String, V))
    requires
        keys_unique(entries),
        !entry_keys(entries).contains(e.0@),
    ensures
        keys_unique(entries.push(e)),
        entry_keys(entries.push(e)) == entry_keys(entries).insert(e.0@),
{
    let r = entries.push(e);
    assert forall|i: int, j: int| 0 <= i < j < r.len() implies r[i].0@ != r[j].0@ by {
        if j == entries.len() {
            assert(r[i] == entries[i]);
        }
    }
    assert forall|k: Seq<char>| entry_keys(r).contains(k) <==> entry_keys(entries).insert(e.0@).contains(k) by {
        if entry_keys(r).contains(k) {
            let j = choose|j: int| 0 <= j < r.len() && r[j].0@ == k;
            if j < entries.len() {
                assert(r[j] == entries[j]);
            }
        }
        if entry_keys(entries).contains(k) {
            let j = choose|j: int| 0 <= j < entries.len() && entries[j].0@ == k;
            assert(r[j] == entries[j]);
        }
        if k == e.0@ {
            assert(r[entries.len() as int] == e);
        }
    }
    assert(entry_keys(r) =~= entry_keys(entries).insert(e.0@));
}

/// "recording already active for output O".
pub open spec fn recording_active_text(output: Seq<char>) -> Seq<char> {
    "recording already active for output "@ + output
}

/// "no active recording for output O".
pub open spec fn no_recording_text(output: Seq<char>) -> Seq<char> {
    "no active recording for output "@ + output
}

impl DisplayState {
    /// Keeps or drops the pointer constraints of an output: `Unconstrained`
    /// drops them, anything else replaces them; the request is echoed back.
    pub fn set_pointer_constraints(&mut self, output: String, constraints: PointerConstraints) -> (r: DisplayEvent)
        requires
            old(self).wf(),
        ensures
            final(self).wf(),
            constraints is Unconstrained ==> entry_keys(final(self).pointer_constraints@)
                == entry_keys(old(self).pointer_constraints@).remove(output@),
            !(constraints is Unconstrained) ==> {
                &&& entry_keys(final(self).pointer_constraints@) == entry_keys(old(self).pointer_constraints@).insert(output@)
                &&& exists|i: int| 0 <= i < final(self).pointer_constraints@.len()
                    && final(self).pointer_constraints@[i].0@ == output@
                    && #[trigger] final(self).pointer_constraints@[i].1 == constraints
            },
            r matches DisplayEvent::PointerConstraintsApplied { output: o, constraints: _ } && o@ == output@,
            final(self).last_scene == old(self).last_scene,
            final(self).output == old(self).output,
            final(self).framebuffer == old(self).framebuffer,
            final(self).active_recordings == old(self).active_recordings,
            final(self).next_commit_id == old(self).next_commit_id,
    {
        match entry_position(&self.pointer_constraints, &output) {
            Some(i) => {
                proof { lemma_remove_keys(self.pointer_constraints@, i as int); }
                self.pointer_constraints.remove(i);
            },
            None => {
                proof {
                    assert(entry_keys(self.pointer_constraints@) =~= entry_keys(self.pointer_constraints@).remove(output@));
                }
            },
        }
        let echoed = constraints.clone();
        let name = output.clone();
        if !matches!(constraints, PointerConstraints::Unconstrained) {
            proof { lemma_push_keys(self.pointer_constraints@, (output, constraints)); }
            self.pointer_constraints.push((output, constraints));
            assert(self.pointer_constraints@[self.pointer_constraints@.len() - 1].1 == constraints);
        }
        DisplayEvent::PointerConstraintsApplied { output: name, constraints: echoed }
    }

    /// The refusal of a recording request for an output that is already
    /// being recorded, if it is.
    pub fn recording_rejection(&self, output: &String) -> (r: Option<DisplayEvent>)
        ensures
            entry_keys(self.active_recordings@).contains(output@) ==>
                (r matches Some(DisplayEvent::Rejected { reason }) && reason@ == recording_active_text(output@)),
            !entry_keys(self.active_recordings@).contains(output@) ==> r is None,
    {
        match entry_position(&self.active_recordings, output) {
            Some(i) => {
                assert(entry_keys(self.active_recordings@).contains(output@));
                let mut m = chars_of("recording already active for output ");
                push_str(&mut m, output.as_str());
                Some(DisplayEvent::Rejected { reason: string_from_chars(&m) })
            },
            None => None,
        }
    }

    /// Notes that recording of an output has started.
    pub fn note_recording_started(&mut self, output: String, session_id: String, fps: u32, start_timestamp: u64) -> (r: DisplayEvent)
        requires
            old(self).wf(),
            !entry_keys(old(self).active_recordings@).contains(output@),
        ensures
            final(self).wf(),
            final(self).active_recordings@ == old(self).active_recordings@.push((output, RecordingState { session_id, fps, start_timestamp })),
            entry_keys(final(self).active_recordings@) == entry_keys(old(self).active_recordings@).insert(output@),
            r == (DisplayEvent::RecordStarted { output, session_id }),
            final(self).pointer_constraints == old(self).pointer_constraints,
            final(self).last_scene == old(self).last_scene,
            final(self).output == old(self).output,
            final(self).framebuffer == old(self).framebuffer,
    {
        let name = output.clone();
        let id = session_id.clone();
        proof { lemma_push_keys(self.active_recordings@, (output, RecordingState { session_id, fps, start_timestamp })); }
        self.active_recordings.push((output, RecordingState { session_id, fps, start_timestamp }));
        DisplayEvent::RecordStarted { output: name, session_id: id }
    }

    /// Takes the recording of an output out of the table, or the refusal
    /// when none is active.
    pub fn take_recording(&mut self, output: &String) -> (r: Result<RecordingState, DisplayEvent>)
        requires
            old(self).wf(),
        ensures
            final(self).wf(),
            entry_keys(final(self).active_recordings@) == entry_keys(old(self).active_recordings@).remove(output@),
            entry_keys(old(self).active_recordings@).contains(output@) ==> (r matches Ok(rec)
                && exists|i: int| 0 <= i < old(self).active_recordings@.len()
                    && old(self).active_recordings@[i].0@ == output@ && #[trigger] old(self).active_recordings@[i].1 == rec),
            !entry_keys(old(self).active_recordings@).contains(output@) ==> (r matches Err(DisplayEvent::Rejected { reason })
                && reason@ == no_recording_text(output@)),
            final(self).pointer_constraints == old(self).pointer_constraints,
            final(self).last_scene == old(self).last_scene,
            final(self).output == old(self).output,
            final(self).framebuffer == old(self).framebuffer,
    {
        match entry_position(&self.active_recordings, output) {
            Some(i) => {
                proof { lemma_remove_keys(self.active_recordings@, i as int); }
                let (_, rec) = self.active_recordings.remove(i);
                Ok(rec)
            },
            None => {
                proof {
                    assert(entry_keys(self.active_recordings@) =~= entry_keys(self.active_recordings@).remove(output@));
                }
                let mut m = chars_of("no active recording for output ");
                push_str(&mut m, output.as_str());
                Err(DisplayEvent::Rejected { reason: string_from_chars(&m) })
            },
        }
    }
}

/// The answer to the start of a resume: a refusal under fault injection.
pub fn resume_begin_event(fail_resume: bool) -> (r: DisplayEvent)
    ensures
        fail_resume ==> (r matches DisplayEvent::Rejected { reason } && reason@ == "fault injection"@),
        !fail_resume ==> r == DisplayEvent::ResumeStarted,
{
    if fail_resume {
        proof { reveal_strlit("fault injection"); }
        DisplayEvent::Rejected { reason: String::from_str("fault injection") }
    } else {
        DisplayEvent::ResumeStarted
    }
}


/// A composed frame waiting to be published.
pub struct PreparedFrame {
    pub frame_id: u64,
    pub pixels: Vec<u32>,
    pub damage: Vec<RendererRect>,
    pub stats: crate::composer::CompositionStats,
}

/// What to do with a committed scene.
pub enum CommitPlan {
    /// The scene is refused; nothing is published.
    Rejected { reason: String },
    /// Nothing needs repainting; the scene is still recorded.
    Skipped { direct_scanout: bool },
    /// Publish the frame, then record the scene.
    Compose { frame: PreparedFrame, direct_scanout: bool },
}

/// Two surfaces show the same thing without damage: same id, placement and
/// buffer generation, and no damage on either.
pub open spec fn same_static_surface(a: SurfaceSnapshot, b: SurfaceSnapshot) -> bool {
    a.id@ == b.id@ && a.placement == b.placement && a.buffer_generation == b.buffer_generation
        && a.damage_rects@.len() == 0 && b.damage_rects@.len() == 0
}

/// The new surfaces repeat the last scene's surfaces one for one, unchanged
/// and undamaged.
pub open spec fn scene_unchanged(last: Option<CommittedSceneState>, surfaces: Seq<SurfaceSnapshot>) -> bool {
    match last {
        None => false,
        Some(ls) => ls.surfaces@.len() == surfaces.len()
            && forall|i: int| 0 <= i < surfaces.len() ==> #[trigger] same_static_surface(ls.surfaces@[i], surfaces[i]),
    }
}

/// A scene counts as unchanged, and is skipped without composing, only
/// when there was a last scene with as many surfaces, each new surface
/// repeating the last one at its position with the same id, placement and
/// buffer generation, and neither carrying damage: a surface showing a new
/// buffer is never skipped as unchanged.
pub proof fn law_unchanged_scene_repeats_every_buffer(last: Option<CommittedSceneState>, surfaces: Seq<SurfaceSnapshot>)
    requires
        scene_unchanged(last, surfaces),
    ensures
        last is Some,
        last->0.surfaces@.len() == surfaces.len(),
        forall|i: int| 0 <= i < surfaces.len() ==> {
            let old_surface = #[trigger] last->0.surfaces@[i];
            &&& surfaces[i].buffer_generation == old_surface.buffer_generation
            &&& surfaces[i].id@ == old_surface.id@
            &&& surfaces[i].placement == old_surface.placement
            &&& surfaces[i].damage_rects@.len() == 0 && old_surface.damage_rects@.len() == 0
        },
{
    assert forall|i: int| 0 <= i < surfaces.len() implies {
        let old_surface = #[trigger] last->0.surfaces@[i];
        &&& surfaces[i].buffer_generation == old_surface.buffer_generation
        &&& surfaces[i].id@ == old_surface.id@
        &&& surfaces[i].placement == old_surface.placement
        &&& surfaces[i].damage_rects@.len() == 0 && old_surface.damage_rects@.len() == 0
    } by {
        assert(same_static_surface(last->0.surfaces@[i], surfaces[i]));
    }
}

/// A single surface placed at the origin with the output's size.
pub open spec fn fills_output(surfaces: Seq<SurfaceSnapshot>, o: OutputState) -> bool {
    surfaces.len() == 1 && surfaces[0].placement.x == 0 && surfaces[0].placement.y == 0
        && surfaces[0].placement.width == o.width && surfaces[0].placement.height == o.height
}

/// "stale scene epoch E generation G; latest is epoch LE generation LG".
pub open spec fn stale_scene_text(epoch: u64, generation: u64, last_epoch: u64, last_generation: u64) -> Seq<char> {
    "stale scene epoch "@ + crate::text::decimal_digits(epoch as nat) + " generation "@
        + crate::text::decimal_digits(generation as nat) + "; latest is epoch "@
        + crate::text::decimal_digits(last_epoch as nat) + " generation "@
        + crate::text::decimal_digits(last_generation as nat)
}

/// The framebuffer a composition starts from: the current one when it fits
/// the output, else a background-filled one.
pub open spec fn composition_base(fb: Seq<u32>, o: OutputState) -> Seq<u32> {
    if fb.len() == spec_framebuffer_words(o) {
        fb
    } else {
        Seq::new(spec_framebuffer_words(o) as nat, |i: int| crate::render::BACKGROUND_PIXEL)
    }
}

fn background_frame(n: usize) -> (r: Vec<u32>)
    ensures
        r@ == Seq::new(n as nat, |i: int| crate::render::BACKGROUND_PIXEL),
{
    let mut v: Vec<u32> = Vec::new();
    while v.len() < n
        invariant
            v@.len() <= n,
            forall|i: int| 0 <= i < v@.len() ==> #[trigger] v@[i] == crate::render::BACKGROUND_PIXEL,
        decreases n - v@.len(),
    {
        v.push(crate::render::BACKGROUND_PIXEL);
    }
    assert(v@ =~= Seq::new(n as nat, |i: int| crate::render::BACKGROUND_PIXEL));
    v
}

/// Both damage lists hold the same rectangles, so the same surfaces can be
/// painted into them and the same pixels are painted.
proof fn lemma_damage_permutation(store: crate::composer::StoreView, surfaces: Seq<SurfaceSnapshot>,
    a: Seq<RendererRect>, b: Seq<RendererRect>)
    requires
        a.to_multiset() == b.to_multiset(),
    ensures
        crate::composer::spec_damage_ready(store, surfaces, a) == crate::composer::spec_damage_ready(store, surfaces, b),
        crate::composer::spec_sources_ok(store, surfaces, a) == crate::composer::spec_sources_ok(store, surfaces, b),
        a.len() == b.len(),
{
    broadcast use vstd::seq_lib::group_to_multiset_ensures;
    assert(a.len() == a.to_multiset().len());
    assert forall|i: int| 0 <= i < a.len() implies b.contains(#[trigger] a[i]) by {
        assert(a.contains(a[i]));
        assert(a.to_multiset().count(a[i]) > 0);
    }
    assert forall|i: int| 0 <= i < b.len() implies a.contains(#[trigger] b[i]) by {
        assert(b.contains(b[i]));
        assert(b.to_multiset().count(b[i]) > 0);
    }
    if crate::composer::spec_damage_ready(store, surfaces, a) {
        assert forall|i: int, k: int| 0 <= i < b.len() && 0 <= k < surfaces.len()
            implies #[trigger] crate::composer::spec_pair_ready(store, surfaces[k], b[i]) by {
            assert(a.contains(b[i]));
            let j = choose|j: int| 0 <= j < a.len() && a[j] == b[i];
            assert(crate::composer::spec_pair_ready(store, surfaces[k], a[j]));
        }
    }
    if crate::composer::spec_damage_ready(store, surfaces, b) {
        assert forall|i: int, k: int| 0 <= i < a.len() && 0 <= k < surfaces.len()
            implies #[trigger] crate::composer::spec_pair_ready(store, surfaces[k], a[i]) by {
            assert(b.contains(a[i]));
            let j = choose|j: int| 0 <= j < b.len() && b[j] == a[i];
            assert(crate::composer::spec_pair_ready(store, surfaces[k], b[j]));
        }
    }
    if crate::composer::spec_sources_ok(store, surfaces, a) {
        assert forall|d: int, k: int, x: int, y: int| 0 <= d < b.len() && 0 <= k < surfaces.len()
            implies #[trigger] crate::composer::spec_painted(store, surfaces[k], b[d], x, y) by {
            assert(a.contains(b[d]));
            let j = choose|j: int| 0 <= j < a.len() && a[j] == b[d];
            assert(crate::composer::spec_painted(store, surfaces[k], a[j], x, y));
        }
    }
    if crate::composer::spec_sources_ok(store, surfaces, b) {
        assert forall|d: int, k: int, x: int, y: int| 0 <= d < a.len() && 0 <= k < surfaces.len()
            implies #[trigger] crate::composer::spec_painted(store, surfaces[k], a[d], x, y) by {
            assert(b.contains(a[d]));
            let j = choose|j: int| 0 <= j < b.len() && b[j] == a[d];
            assert(crate::composer::spec_painted(store, surfaces[k], b[j], x, y));
        }
    }
}

impl DisplayState {
    /// The fields a commit's preparation leaves alone.
    pub open spec fn keeps_scene_fields(&self, other: &DisplayState) -> bool {
        &&& self.last_scene == other.last_scene
        &&& self.last_scene_epoch == other.last_scene_epoch
        &&& self.last_scene_generation == other.last_scene_generation
        &&& self.next_commit_id == other.next_commit_id
        &&& self.active_recordings == other.active_recordings
        &&& self.pointer_constraints == other.pointer_constraints
        &&& self.presentation_feedbacks == other.presentation_feedbacks
        &&& self.peak_gpu_alloc == other.peak_gpu_alloc
        &&& self.released_alloc_count == other.released_alloc_count
        &&& self.next_frame_id == other.next_frame_id
        &&& self.published_frame_id == other.published_frame_id
        &&& self.framebuffer == other.framebuffer
        &&& self.output == other.output
    }

    fn matches_last_scene(&self, surfaces: &Vec<SurfaceSnapshot>) -> (r: bool)
        ensures
            r == scene_unchanged(self.last_scene, surfaces@),
    {
        let last = match &self.last_scene {
            None => { return false; },
            Some(ls) => ls,
        };
        if last.surfaces.len() != surfaces.len() {
            return false;
        }
        let mut i: usize = 0;
        while i < surfaces.len()
            invariant
                i <= surfaces@.len() == last.surfaces@.len(),
                self.last_scene == Some(*last),
                forall|j: int| 0 <= j < i ==> #[trigger] same_static_surface(last.surfaces@[j], surfaces@[j]),
            decreases surfaces@.len() - i,
        {
            let s1 = &last.surfaces[i];
            let s2 = &surfaces[i];
            if s1.id != s2.id || s1.placement != s2.placement || s1.buffer_generation != s2.buffer_generation
                || s1.damage_rects.len() != 0 || s2.damage_rects.len() != 0 {
                assert(!same_static_surface(last.surfaces@[i as int], surfaces@[i as int]));
                return false;
            }
            i += 1;
        }
        true
    }

    /// Takes a committed scene up to the frame it needs: refuses a stale
    /// scene generation, stores the scene's pixel payloads, refuses a scene
    /// whose payloads are missing, counts skipped, direct-scanout and composed
    /// frames, and composes the damage onto a copy of the framebuffer. A scene
    /// identical to the last one, or one without damage, is skipped; a
    /// payload that cannot be painted refuses the scene. The framebuffer
    /// itself changes only once the frame is published.
    pub fn prepare_commit(&mut self, surfaces: &Vec<SurfaceSnapshot>, pixel_payloads: Vec<crate::pixel_transport::PixelTransportPayload>,
        scene_epoch: u64, scene_generation: u64) -> (r: CommitPlan)
        requires
            old(self).wf(),
            old(self).zero_damage_skipped_count < u64::MAX,
            old(self).direct_scanout_count < u64::MAX,
            old(self).composition_frame_count < u64::MAX,
        ensures
            final(self).wf(),
            final(self).keeps_scene_fields(old(self)),
            ({
                let s = *old(self);
                let f = *final(self);
                let (store1, taken) = crate::composer::submitted(s.pixel_transport.view(), pixel_payloads@, pixel_payloads@.len() as int);
                let unchanged = scene_unchanged(s.last_scene, surfaces@);
                let direct = !unchanged && fills_output(surfaces@, s.output);
                let ready = s.framebuffer@.len() == spec_framebuffer_words(s.output);
                let collected = crate::composer::collected_damage(s.last_scene, surfaces@, ready, crate::render::spec_output_bounds(s.output));
                if crate::render::spec_generation_is_stale(s.last_scene_epoch, s.last_scene_generation, scene_epoch, scene_generation) {
                    &&& r matches CommitPlan::Rejected { reason }
                        && reason@ == stale_scene_text(scene_epoch, scene_generation, s.last_scene_epoch, s.last_scene_generation)
                    &&& f == s
                } else if !taken {
                    &&& r matches CommitPlan::Rejected { reason } && exists|i: int, e: crate::pixel_transport::PixelTransportError|
                        #[trigger] crate::composer::refused_at(s.pixel_transport.view(), pixel_payloads@, i, store1, e)
                        && reason@ == "pixel transport rejected payload: "@ + crate::pixel_transport::transport_error_text(e)
                    &&& f.pixel_transport.view() == store1
                    &&& f.zero_damage_skipped_count == s.zero_damage_skipped_count
                    &&& f.direct_scanout_count == s.direct_scanout_count
                    &&& f.composition_frame_count == s.composition_frame_count
                } else if crate::composer::first_missing_from(store1, surfaces@, 0) is Some {
                    &&& r matches CommitPlan::Rejected { reason } && reason@ == crate::composer::missing_payload_text(
                        surfaces@[crate::composer::first_missing_from(store1, surfaces@, 0)->0].pixel_transport->0)
                    &&& f.pixel_transport.view() == store1
                    &&& f.zero_damage_skipped_count == s.zero_damage_skipped_count
                    &&& f.direct_scanout_count == s.direct_scanout_count
                    &&& f.composition_frame_count == s.composition_frame_count
                } else {
                    &&& f.pixel_transport.view() == store1
                    &&& f.direct_scanout_count == s.direct_scanout_count + (if direct { 1int } else { 0 })
                    &&& f.composition_frame_count == s.composition_frame_count + (if !unchanged && !direct { 1int } else { 0 })
                    &&& f.zero_damage_skipped_count == s.zero_damage_skipped_count
                        + (if unchanged || collected.len() == 0 { 1int } else { 0 })
                    &&& if unchanged || collected.len() == 0 {
                        r == CommitPlan::Skipped { direct_scanout: direct }
                    } else if !crate::composer::spec_damage_ready(store1, surfaces@, collected) {
                        r matches CommitPlan::Rejected { reason } && exists|d: Seq<crate::render::RendererRect>|
                            d.to_multiset() == collected.to_multiset() && crate::composer::rects_sorted(d)
                            && reason@ == #[trigger] crate::composer::spec_damage_error(store1, surfaces@, d)
                    } else if !crate::composer::spec_sources_ok(store1, surfaces@, collected) {
                        r is Rejected
                    } else {
                        r matches CommitPlan::Compose { frame, direct_scanout } && {
                            let base = composition_base(s.framebuffer@, s.output);
                            &&& direct_scanout == direct
                            &&& frame.frame_id == s.next_frame_id
                            &&& frame.damage@.to_multiset() == collected.to_multiset()
                            &&& crate::composer::rects_sorted(frame.damage@)
                            &&& frame.stats.damaged_pixels == crate::composer::spec_damaged(frame.damage@, frame.damage@.len() as int)
                            &&& frame.stats.copied_bytes == (if frame.stats.damaged_pixels * 4 > u64::MAX { u64::MAX as int } else { frame.stats.damaged_pixels * 4 })
                            &&& frame.pixels@.len() == spec_framebuffer_words(s.output)
                            &&& forall|i: int| 0 <= i < frame.pixels@.len() ==> #[trigger] frame.pixels@[i]
                                == (if crate::composer::on_output(s.output, i) && crate::composer::spec_covered(frame.damage@,
                                    crate::composer::fb_x(s.output, i), crate::composer::fb_y(s.output, i), frame.damage@.len() as int) {
                                    crate::composer::spec_stack(store1, surfaces@, crate::composer::fb_x(s.output, i),
                                        crate::composer::fb_y(s.output, i), surfaces@.len() as int)
                                } else {
                                    base[i]
                                })
                        }
                    }
                }
            }),
    {
        if crate::render::scene_generation_is_stale(self.last_scene_epoch, self.last_scene_generation, scene_epoch, scene_generation) {
            let mut m = chars_of("stale scene epoch ");
            let d1 = decimal_chars(scene_epoch);
            push_chars(&mut m, &d1);
            push_str(&mut m, " generation ");
            let d2 = decimal_chars(scene_generation);
            push_chars(&mut m, &d2);
            push_str(&mut m, "; latest is epoch ");
            let d3 = decimal_chars(self.last_scene_epoch);
            push_chars(&mut m, &d3);
            push_str(&mut m, " generation ");
            let d4 = decimal_chars(self.last_scene_generation);
            push_chars(&mut m, &d4);
            return CommitPlan::Rejected { reason: string_from_chars(&m) };
        }
        match crate::composer::submit_pixel_payloads(&mut self.pixel_transport, pixel_payloads) {
            Ok(()) => {},
            Err(e) => {
                let mut m = chars_of("pixel transport rejected payload: ");
                let t = e.text();
                push_str(&mut m, t.as_str());
                return CommitPlan::Rejected { reason: string_from_chars(&m) };
            },
        }
        match crate::composer::verify_pixel_payloads_available(&self.pixel_transport, surfaces) {
            Ok(()) => {},
            Err(reason) => { return CommitPlan::Rejected { reason }; },
        }
        let skipped = self.matches_last_scene(surfaces);
        if skipped {
            self.zero_damage_skipped_count = self.zero_damage_skipped_count + 1;
        }
        let mut direct = false;
        if surfaces.len() == 1 && !skipped {
            let surf = &surfaces[0];
            if surf.placement.x == 0 && surf.placement.y == 0 && surf.placement.width == self.output.width
                && surf.placement.height == self.output.height {
                direct = true;
                self.direct_scanout_count = self.direct_scanout_count + 1;
            }
        }
        if !skipped && !direct {
            self.composition_frame_count = self.composition_frame_count + 1;
        }
        if skipped {
            return CommitPlan::Skipped { direct_scanout: direct };
        }
        let bounds = self.output.bounds();
        let ready = self.framebuffer.len() == self.output.framebuffer_words();
        let damage = crate::composer::effective_damage_rects(&self.last_scene, surfaces, ready, bounds);
        let ghost collected = crate::composer::collected_damage(self.last_scene, surfaces@, ready, bounds);
        proof { lemma_damage_permutation(self.pixel_transport.view(), surfaces@, damage@, collected); }
        if damage.len() == 0 {
            self.zero_damage_skipped_count = self.zero_damage_skipped_count + 1;
            return CommitPlan::Skipped { direct_scanout: direct };
        }
        match crate::composer::validate_surface_pixels_for_damage(&self.pixel_transport, surfaces, &damage) {
            Ok(()) => {},
            Err(reason) => { return CommitPlan::Rejected { reason }; },
        }
        let mut scratch = if ready { self.framebuffer.clone() } else { background_frame(self.output.framebuffer_words()) };
        proof {
            if ready {
                assert(scratch@ =~= self.framebuffer@);
            }
            assert(scratch@ == composition_base(self.framebuffer@, self.output));
            assert forall|d: int| 0 <= d < damage@.len() implies crate::composer::rect_inside(#[trigger] damage@[d],
                crate::render::spec_output_bounds(self.output)) by {
                assert(crate::composer::all_inside(damage@, bounds));
            }
        }
        let stats = match crate::composer::compose_damage_rects(&mut scratch, &self.output, &self.pixel_transport, surfaces, &damage) {
            Ok(stats) => stats,
            Err(reason) => { return CommitPlan::Rejected { reason }; },
        };
        CommitPlan::Compose {
            frame: PreparedFrame { frame_id: self.next_frame_id, pixels: scratch, damage, stats },
            direct_scanout: direct,
        }
    }
}


/// Six words per surface for the scene-composition offload: x, y, width,
/// height, z and visibility.
pub open spec fn commit_words_of(s: SurfaceSnapshot) -> Seq<u32> {
    seq![s.placement.x as u32, s.placement.y as u32, s.placement.width, s.placement.height,
        s.placement.z as u32, if s.placement.visible { 1u32 } else { 0u32 }]
}

pub fn commit_surface_words(surfaces: &Vec<SurfaceSnapshot>) -> (r: Vec<u32>)
    requires
        6 * surfaces@.len() <= usize::MAX,
    ensures
        r@.len() == 6 * surfaces@.len(),
        forall|i: int, k: int| 0 <= i < surfaces@.len() && 0 <= k < 6 ==> #[trigger] r@[6 * i + k] == commit_words_of(surfaces@[i])[k],
{
    let mut words: Vec<u32> = Vec::new();
    let mut i: usize = 0;
    while i < surfaces.len()
        invariant
            i <= surfaces@.len(),
            6 * surfaces@.len() <= usize::MAX,
            words@.len() == 6 * i,
            forall|j: int, k: int| 0 <= j < i && 0 <= k < 6 ==> #[trigger] words@[6 * j + k] == commit_words_of(surfaces@[j])[k],
        decreases surfaces@.len() - i,
    {
        let s = &surfaces[i];
        let ghost before = words@;
        words.push(s.placement.x as u32);
        words.push(s.placement.y as u32);
        words.push(s.placement.width);
        words.push(s.placement.height);
        words.push(s.placement.z as u32);
        words.push(if s.placement.visible { 1u32 } else { 0u32 });
        proof {
            assert forall|j: int, k: int| 0 <= j < i + 1 && 0 <= k < 6 implies #[trigger] words@[6 * j + k] == commit_words_of(surfaces@[j])[k] by {
                if j < i {
                    assert(words@[6 * j + k] == before[6 * j + k]);
                }
            }
        }
        i += 1;
    }
    words
}

/// The refusal reported when the display backend did not take a frame.
pub fn publication_failure_reason(error_text: &str) -> (r: String)
    ensures
        r@ == "display backend publication failed: "@ + error_text@,
{
    let mut m = chars_of("display backend publication failed: ");
    push_str(&mut m, error_text);
    string_from_chars(&m)
}

/// GPU memory a Vulkan-backed displayd accounts for a commit.
pub const SCENE_GPU_ALLOCATION_BYTES: u64 = 134217728;

impl DisplayState {
    /// Makes a published frame current: it becomes the framebuffer, its id
    /// the published one, and frame ids move on (saturating).
    pub fn finish_publication(&mut self, frame: PreparedFrame)
        requires
            old(self).wf(),
        ensures
            final(self).wf(),
            final(self).framebuffer == frame.pixels,
            final(self).published_frame_id == frame.frame_id,
            final(self).next_frame_id == (if frame.frame_id == u64::MAX { u64::MAX } else { (frame.frame_id + 1) as u64 }),
            final(self).last_scene == old(self).last_scene,
            final(self).output == old(self).output,
            final(self).pixel_transport == old(self).pixel_transport,
            final(self).next_commit_id == old(self).next_commit_id,
            final(self).last_scene_epoch == old(self).last_scene_epoch,
            final(self).last_scene_generation == old(self).last_scene_generation,
    {
        let frame_id = frame.frame_id;
        self.framebuffer = frame.pixels;
        self.published_frame_id = frame_id;
        self.next_frame_id = if frame_id == u64::MAX { u64::MAX } else { frame_id + 1 };
    }

    /// GPU accounting of a commit: with a Vulkan backend the commit holds a
    /// fixed allocation when Vulkan is in use (none otherwise) and raises the
    /// peak to it; without one, a first release is counted once a peak was
    /// seen. Returns the bytes held.
    pub fn note_gpu_usage(&mut self, vulkan_present: bool, use_vulkan: bool) -> (r: u64)
        requires
            old(self).wf(),
        ensures
            final(self).wf(),
            vulkan_present ==> {
                &&& r == (if use_vulkan { SCENE_GPU_ALLOCATION_BYTES } else { 0 })
                &&& final(self).peak_gpu_alloc == (if r > old(self).peak_gpu_alloc { r } else { old(self).peak_gpu_alloc })
                &&& final(self).released_alloc_count == old(self).released_alloc_count
            },
            !vulkan_present ==> {
                &&& r == 0
                &&& final(self).peak_gpu_alloc == old(self).peak_gpu_alloc
                &&& final(self).released_alloc_count == (if old(self).peak_gpu_alloc > 0 && old(self).released_alloc_count == 0 {
                    1
                } else {
                    old(self).released_alloc_count
                })
            },
            final(self).last_scene == old(self).last_scene,
            final(self).output == old(self).output,
            final(self).framebuffer == old(self).framebuffer,
            final(self).pixel_transport == old(self).pixel_transport,
            final(self).next_commit_id == old(self).next_commit_id,
            final(self).last_scene_epoch == old(self).last_scene_epoch,
            final(self).last_scene_generation == old(self).last_scene_generation,
    {
        if vulkan_present {
            let bytes = if use_vulkan { SCENE_GPU_ALLOCATION_BYTES } else { 0 };
            if bytes > self.peak_gpu_alloc {
                self.peak_gpu_alloc = bytes;
            }
            bytes
        } else {
            if self.peak_gpu_alloc > 0 && self.released_alloc_count == 0 {
                self.released_alloc_count = 1;
            }
            0
        }
    }

    /// Moves the latest scene epoch and generation forward to a committed
    /// scene's (generation 0 is unversioned and moves nothing).
    pub fn advance_scene_generation(&mut self, scene_epoch: u64, scene_generation: u64)
        requires
            old(self).wf(),
        ensures
            final(self).wf(),
            scene_generation != 0 && scene_epoch > old(self).last_scene_epoch ==> final(self).last_scene_epoch == scene_epoch
                && final(self).last_scene_generation == scene_generation,
            scene_generation != 0 && scene_epoch == old(self).last_scene_epoch && scene_generation > old(self).last_scene_generation
                ==> final(self).last_scene_epoch == scene_epoch && final(self).last_scene_generation == scene_generation,
            !(scene_generation != 0 && (scene_epoch > old(self).last_scene_epoch || (scene_epoch == old(self).last_scene_epoch
                && scene_generation > old(self).last_scene_generation)))
                ==> final(self).last_scene_epoch == old(self).last_scene_epoch
                    && final(self).last_scene_generation == old(self).last_scene_generation,
            final(self).last_scene == old(self).last_scene,
            final(self).output == old(self).output,
            final(self).framebuffer == old(self).framebuffer,
            final(self).pixel_transport == old(self).pixel_transport,
            final(self).next_commit_id == old(self).next_commit_id,
    {
        if scene_generation != 0 {
            if scene_epoch > self.last_scene_epoch {
                self.last_scene_epoch = scene_epoch;
                self.last_scene_generation = scene_generation;
            } else if scene_epoch == self.last_scene_epoch && scene_generation > self.last_scene_generation {
                self.last_scene_generation = scene_generation;
            }
        }
    }

    /// The snapshot of a commit under the next commit id.
    pub fn commit_snapshot(&self, source: ServiceRole, target: CommitTarget, focus: FocusTarget, selection: WaylandSelectionState,
        surfaces: Vec<SurfaceSnapshot>, scene_epoch: u64, scene_generation: u64, unix_timestamp: u64) -> (r: CommittedSceneState)
        ensures
            r == (CommittedSceneState { source, target, focus, selection, surfaces, scene_epoch, scene_generation,
                commit_id: self.next_commit_id, unix_timestamp }),
    {
        CommittedSceneState { source, target, focus, selection, surfaces, scene_epoch, scene_generation,
            commit_id: self.next_commit_id, unix_timestamp }
    }

    /// Remembers a persisted scene as the last one: commit ids continue after
    /// it and, for a versioned scene, its epoch and generation become the
    /// latest.
    pub fn record_commit(&mut self, scene: CommittedSceneState)
        requires
            old(self).wf(),
        ensures
            final(self).wf(),
            final(self).next_commit_id == (if scene.commit_id == u64::MAX { u64::MAX } else { (scene.commit_id + 1) as u64 }),
            scene.scene_generation != 0 ==> final(self).last_scene_epoch == scene.scene_epoch
                && final(self).last_scene_generation == scene.scene_generation,
            scene.scene_generation == 0 ==> final(self).last_scene_epoch == old(self).last_scene_epoch
                && final(self).last_scene_generation == old(self).last_scene_generation,
            final(self).last_scene == Some(scene),
            final(self).output == old(self).output,
            final(self).framebuffer == old(self).framebuffer,
            final(self).pixel_transport == old(self).pixel_transport,
    {
        self.next_commit_id = if scene.commit_id == u64::MAX { u64::MAX } else { scene.commit_id + 1 };
        if scene.scene_generation != 0 {
            self.last_scene_epoch = scene.scene_epoch;
            self.last_scene_generation = scene.scene_generation;
        }
        self.last_scene = Some(scene);
    }

    /// Steps the next commit id once more after a recorded commit.
    pub fn advance_commit_id(&mut self)
        requires
            old(self).wf(),
            old(self).next_commit_id < u64::MAX,
        ensures
            final(self).wf(),
            final(self).next_commit_id == old(self).next_commit_id + 1,
            final(self).last_scene == old(self).last_scene,
            final(self).output == old(self).output,
            final(self).framebuffer == old(self).framebuffer,
            final(self).pixel_transport == old(self).pixel_transport,
    {
        self.next_commit_id = self.next_commit_id + 1;
    }
}

/// Byte size of a captured frame, once its pixel count matches its size.
pub fn capture_payload_len(width: u32, height: u32, pixel_len: usize) -> (r: Result<usize, String>)
    ensures
        (width as int * height as int <= u32::MAX && pixel_len == width as int * height as int) ==>
            (if 4 * pixel_len <= usize::MAX { r == Ok::<usize, String>((4 * pixel_len) as usize) } else {
                r matches Err(m) && m@ == "capture artifact byte size overflow"@ }),
        !(width as int * height as int <= u32::MAX && pixel_len == width as int * height as int) ==> r is Err,
{
    crate::render::validate_capture_pixel_count(width, height, pixel_len)?;
    match pixel_len.checked_mul(4) {
        Some(v) => Ok(v),
        None => {
            proof { reveal_strlit("capture artifact byte size overflow"); }
            Err(String::from_str("capture artifact byte size overflow"))
        },
    }
}

/// Turns captured BGRA pixels into the RGBA8888 artifact bytes: red and blue
/// are swapped in every pixel, then each pixel is written as R, G, B, A.
pub fn capture_artifact_bytes(width: u32, height: u32, pixels: Vec<u32>) -> (r: Result<Vec<u8>, String>)
    ensures
        r is Ok <==> (width as int * height as int <= u32::MAX && pixels@.len() == width as int * height as int
            && 4 * pixels@.len() <= usize::MAX),
        r matches Ok(bytes) ==> bytes@.len() == 4 * pixels@.len()
            && forall|i: int, k: int| 0 <= i < pixels@.len() && 0 <= k < 4 ==>
                #[trigger] bytes@[4 * i + k] == crate::render::spec_rgba(crate::vulkan::swap_red_blue(pixels@[i]))[k],
{
    let mut refined = pixels;
    crate::vulkan::refine_pixels_portable(&mut refined);
    crate::render::encode_rgba8888_artifact_bytes(width, height, refined.as_slice())
}

/// Name of a screenshot artifact: "screenshot-", the sanitized output
/// name, "-", the timestamp and ".raw".
pub fn screenshot_artifact_name(output: &str, unix_timestamp: u64) -> (r: String)
    ensures
        r@ == "screenshot-"@ + crate::transport::spec_sanitize_artifact_filename(output@) + "-"@
            + crate::text::decimal_digits(unix_timestamp as nat) + ".raw"@,
{
    let sanitized = crate::transport::sanitize_artifact_filename(output);
    let mut m = chars_of("screenshot-");
    push_str(&mut m, sanitized.as_str());
    push_str(&mut m, "-");
    let d = decimal_chars(unix_timestamp);
    push_chars(&mut m, &d);
    push_str(&mut m, ".raw");
    string_from_chars(&m)
}

} // verus!
