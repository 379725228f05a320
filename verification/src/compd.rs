//! The scene relay of the compositor: what a scene is, the checks a scene
//! must pass before it is relayed to displayd, its canonical order, the
//! version floor that refuses replays, and the reconciliation of a scene
//! with the surfaces waylandd reports.
use vstd::prelude::*;
use crate::ipc::{
    message_with, LayerMetadata, OutputMode, WaylandSurfaceRole, WaylandSurfaceState, SurfacePlacement, SurfaceRegistrySnapshot,
    CommitTarget, CommittedSceneState, DisplayCommand, DisplayEvent, FocusTarget, SurfaceSnapshot, WaylandSelectionState,
};
use crate::pixel_transport::{PixelTransportHandle, PixelTransportPayload};
use crate::text::{chars_of, decimal_chars, push_chars, push_str, string_from_chars};

verus! {

pub const MAX_RELAY_SURFACES: usize = 4096;
pub const MAX_RELAY_PIXEL_PAYLOADS: usize = 4096;
pub const MAX_RELAY_PIXEL_BYTES: usize = 268435456;
pub const MAX_RELAY_SINGLE_PAYLOAD_BYTES: usize = 67108864;

/// A scene as compd keeps it: the output it targets, focus, selection, the
/// surfaces, and the (epoch, generation) version it was published under.
#[derive(Debug)]
pub struct CompdScene {
    pub target_output: String,
    pub focus: FocusTarget,
    pub selection: WaylandSelectionState,
    pub surfaces: Vec<SurfaceSnapshot>,
    pub scene_epoch: u64,
    pub scene_generation: u64,
}

impl DeepView for CompdScene {
    type V = (Seq<char>, FocusTarget, <WaylandSelectionState as DeepView>::V,
        Seq<<SurfaceSnapshot as DeepView>::V>, u64, u64);

    open spec fn deep_view(&self) -> Self::V {
        (self.target_output@, self.focus, self.selection.deep_view(), self.surfaces.deep_view(),
            self.scene_epoch, self.scene_generation)
    }
}

impl Clone for CompdScene {
    fn clone(&self) -> (r: Self)
        ensures
            r.deep_view() == self.deep_view(),
    {
        let surfaces = self.surfaces.clone();
        assert(surfaces.deep_view() =~= self.surfaces.deep_view());
        CompdScene {
            target_output: self.target_output.clone(),
            focus: self.focus.clone(),
            selection: self.selection.clone(),
            surfaces,
            scene_epoch: self.scene_epoch,
            scene_generation: self.scene_generation,
        }
    }
}

/// How much a relayed scene holds: surfaces, payloads and pixel bytes.
#[derive(Debug, Clone, Copy, PartialEq, Eq, Structural)]
pub struct RelayResourceUsage {
    pub surfaces: usize,
    pub pixel_payloads: usize,
    pub pixel_bytes: usize,
}

/// A scene on its way to displayd, with the pixel payloads it carries.
#[derive(Debug)]
pub struct RelayScene {
    pub scene: CompdScene,
    pub pixel_payloads: Vec<PixelTransportPayload>,
}

/// Lexicographic order on (epoch, generation) versions.
pub open spec fn version_lt(a: (u64, u64), b: (u64, u64)) -> bool {
    a.0 < b.0 || (a.0 == b.0 && a.1 < b.1)
}

pub open spec fn version_le(a: (u64, u64), b: (u64, u64)) -> bool {
    version_lt(a, b) || a == b
}

fn version_less(a: (u64, u64), b: (u64, u64)) -> (r: bool)
    ensures
        r == version_lt(a, b),
{
    a.0 < b.0 || (a.0 == b.0 && a.1 < b.1)
}

impl RelayScene {
    pub open spec fn spec_version(&self) -> (u64, u64) {
        (self.scene.scene_epoch, self.scene.scene_generation)
    }

    /// The (epoch, generation) version of the scene.
    pub fn version(&self) -> (r: (u64, u64))
        ensures
            r == self.spec_version(),
    {
        (self.scene.scene_epoch, self.scene.scene_generation)
    }

    /// The commit command for this scene, payloads copied.
    pub fn to_commit_command(&self) -> (r: DisplayCommand)
        ensures
            r matches DisplayCommand::CommitScene { target, focus, selection, surfaces, pixel_payloads, scene_epoch, scene_generation }
            && target == (CommitTarget::Output { name: self.scene.target_output })
            && focus == self.scene.focus
            && selection.deep_view() == self.scene.selection.deep_view()
            && surfaces.deep_view() == self.scene.surfaces.deep_view()
            && pixel_payloads.deep_view() == self.pixel_payloads.deep_view()
            && scene_epoch == self.scene.scene_epoch && scene_generation == self.scene.scene_generation,
    {
        let surfaces = self.scene.surfaces.clone();
        assert(surfaces.deep_view() =~= self.scene.surfaces.deep_view());
        let pixel_payloads = self.pixel_payloads.clone();
        assert(pixel_payloads.deep_view() =~= self.pixel_payloads.deep_view());
        DisplayCommand::CommitScene {
            target: CommitTarget::Output { name: self.scene.target_output.clone() },
            focus: self.scene.focus.clone(),
            selection: self.scene.selection.clone(),
            surfaces,
            pixel_payloads,
            scene_epoch: self.scene.scene_epoch,
            scene_generation: self.scene.scene_generation,
        }
    }

    /// The commit command for this scene; the payloads move into the command
    /// and the scene is left without them.
    pub fn take_commit_command(&mut self) -> (r: DisplayCommand)
        ensures
            final(self).scene == old(self).scene,
            final(self).pixel_payloads@.len() == 0,
            r matches DisplayCommand::CommitScene { target, focus, selection, surfaces, pixel_payloads, scene_epoch, scene_generation }
            && target == (CommitTarget::Output { name: old(self).scene.target_output })
            && focus == old(self).scene.focus
            && selection.deep_view() == old(self).scene.selection.deep_view()
            && surfaces.deep_view() == old(self).scene.surfaces.deep_view()
            && pixel_payloads == old(self).pixel_payloads
            && scene_epoch == old(self).scene.scene_epoch && scene_generation == old(self).scene.scene_generation,
    {
        let surfaces = self.scene.surfaces.clone();
        assert(surfaces.deep_view() =~= self.scene.surfaces.deep_view());
        let mut payloads: Vec<PixelTransportPayload> = Vec::new();
        std::mem::swap(&mut payloads, &mut self.pixel_payloads);
        DisplayCommand::CommitScene {
            target: CommitTarget::Output { name: self.scene.target_output.clone() },
            focus: self.scene.focus.clone(),
            selection: self.scene.selection.clone(),
            surfaces,
            pixel_payloads: payloads,
            scene_epoch: self.scene.scene_epoch,
            scene_generation: self.scene.scene_generation,
        }
    }

    /// The reconciliation command for this scene under the given display
    /// epoch; the payloads move into the command.
    pub fn take_reconcile_command(&mut self, display_epoch: u64) -> (r: DisplayCommand)
        ensures
            final(self).scene == old(self).scene,
            final(self).pixel_payloads@.len() == 0,
            r matches DisplayCommand::ReconcileScene { epoch, scene_epoch, scene_generation, target, focus, selection, surfaces, pixel_payloads }
            && epoch == display_epoch
            && target == (CommitTarget::Output { name: old(self).scene.target_output })
            && focus == old(self).scene.focus
            && selection.deep_view() == old(self).scene.selection.deep_view()
            && surfaces.deep_view() == old(self).scene.surfaces.deep_view()
            && pixel_payloads == old(self).pixel_payloads
            && scene_epoch == old(self).scene.scene_epoch && scene_generation == old(self).scene.scene_generation,
    {
        let surfaces = self.scene.surfaces.clone();
        assert(surfaces.deep_view() =~= self.scene.surfaces.deep_view());
        let mut payloads: Vec<PixelTransportPayload> = Vec::new();
        std::mem::swap(&mut payloads, &mut self.pixel_payloads);
        DisplayCommand::ReconcileScene {
            epoch: display_epoch,
            scene_epoch: self.scene.scene_epoch,
            scene_generation: self.scene.scene_generation,
            target: CommitTarget::Output { name: self.scene.target_output.clone() },
            focus: self.scene.focus.clone(),
            selection: self.scene.selection.clone(),
            surfaces,
            pixel_payloads: payloads,
        }
    }

    /// Takes the payloads back out of a command built by the two methods
    /// above; any other command leaves the scene without payloads.
    pub fn restore_payloads_from_command(&mut self, command: DisplayCommand)
        ensures
            final(self).scene == old(self).scene,
            match command {
                DisplayCommand::CommitScene { pixel_payloads, .. } => final(self).pixel_payloads == pixel_payloads,
                DisplayCommand::ReconcileScene { pixel_payloads, .. } => final(self).pixel_payloads == pixel_payloads,
                _ => final(self).pixel_payloads@.len() == 0,
            },
    {
        self.pixel_payloads = match command {
            DisplayCommand::CommitScene { pixel_payloads, .. } => pixel_payloads,
            DisplayCommand::ReconcileScene { pixel_payloads, .. } => pixel_payloads,
            _ => Vec::new(),
        };
    }
}

/// Pixel bytes of the first `k` payloads, summed with saturation at
/// `usize::MAX`.
pub open spec fn saturating_pixel_bytes(ps: Seq<PixelTransportPayload>, k: int) -> usize
    decreases k,
{
    if k <= 0 {
        0
    } else {
        let prev = saturating_pixel_bytes(ps, k - 1);
        if prev + ps[k - 1].pixels@.len() > usize::MAX {
            usize::MAX
        } else {
            (prev + ps[k - 1].pixels@.len()) as usize
        }
    }
}

pub open spec fn spec_relay_usage(relay: RelayScene) -> RelayResourceUsage {
    RelayResourceUsage {
        surfaces: relay.scene.surfaces@.len() as usize,
        pixel_payloads: relay.pixel_payloads@.len() as usize,
        pixel_bytes: saturating_pixel_bytes(relay.pixel_payloads@, relay.pixel_payloads@.len() as int),
    }
}

/// Counts the surfaces, payloads and pixel bytes of a relayed scene.
pub fn relay_resource_usage(relay: &RelayScene) -> (r: RelayResourceUsage)
    ensures
        r == spec_relay_usage(*relay),
        r.surfaces as int == relay.scene.surfaces@.len(),
        r.pixel_payloads as int == relay.pixel_payloads@.len(),
{
    let mut bytes: usize = 0;
    let mut i: usize = 0;
    while i < relay.pixel_payloads.len()
        invariant
            i <= relay.pixel_payloads@.len(),
            bytes == saturating_pixel_bytes(relay.pixel_payloads@, i as int),
        decreases relay.pixel_payloads@.len() - i,
    {
        bytes = bytes.saturating_add(relay.pixel_payloads[i].pixels.len());
        i += 1;
    }
    RelayResourceUsage {
        surfaces: relay.scene.surfaces.len(),
        pixel_payloads: relay.pixel_payloads.len(),
        pixel_bytes: bytes,
    }
}

} // verus!

verus! {

/// The newest scene that could not be relayed: only its version, its size
/// and why, never its pixel buffers.
#[derive(Debug)]
pub struct PendingRelayScene {
    pub version: (u64, u64),
    pub usage: RelayResourceUsage,
    pub reason: String,
}

/// What the relay remembers between requests: the newest version it
/// forwarded, the newest deferred scene, and counters.
#[derive(Debug)]
pub struct CompdRelayState {
    pub last_forwarded_epoch: u64,
    pub last_forwarded_generation: u64,
    pub pending: Option<PendingRelayScene>,
    pub accepted_count: u64,
    pub deferred_count: u64,
    pub superseded_count: u64,
}

pub open spec fn forwarded_version(s: CompdRelayState) -> (u64, u64) {
    (s.last_forwarded_epoch, s.last_forwarded_generation)
}

/// The lowest version the relay still accepts: the pending version when it
/// is newer than the forwarded one, else the forwarded one.
pub open spec fn spec_version_floor(s: CompdRelayState) -> (u64, u64) {
    match s.pending {
        Some(p) => if version_lt(forwarded_version(s), p.version) { p.version } else { forwarded_version(s) },
        None => forwarded_version(s),
    }
}

/// Whether a scene of version `incoming` is refused as stale: once anything
/// was forwarded or deferred, the zero version and anything below the floor
/// are refused, and the floor itself only when it is the pending version.
pub open spec fn spec_should_reject(s: CompdRelayState, incoming: (u64, u64)) -> bool {
    let floor = spec_version_floor(s);
    if floor == (0u64, 0u64) {
        false
    } else if incoming == (0u64, 0u64) {
        true
    } else if version_lt(incoming, floor) {
        true
    } else if incoming == floor {
        match s.pending {
            Some(p) => p.version != incoming,
            None => true,
        }
    } else {
        false
    }
}

pub open spec fn saturating_inc(n: u64) -> u64 {
    if n == u64::MAX { n } else { (n + 1) as u64 }
}

impl Default for CompdRelayState {
    fn default() -> (r: Self)
        ensures
            r.last_forwarded_epoch == 0 && r.last_forwarded_generation == 0,
            r.pending is None,
            r.accepted_count == 0 && r.deferred_count == 0 && r.superseded_count == 0,
    {
        CompdRelayState {
            last_forwarded_epoch: 0,
            last_forwarded_generation: 0,
            pending: None,
            accepted_count: 0,
            deferred_count: 0,
            superseded_count: 0,
        }
    }
}

/// The relay state after a scene of `relay`'s version was forwarded.
pub open spec fn noted_forwarded(before: CompdRelayState, relay: RelayScene, after: CompdRelayState) -> bool {
    let v = relay.spec_version();
    let advanced = v != (0u64, 0u64) && version_le(forwarded_version(before), v);
    &&& forwarded_version(after) == (if advanced { v } else { forwarded_version(before) })
    &&& after.pending == (match before.pending {
        Some(p) => if version_le(p.version, v) { None } else { Some(p) },
        None => None,
    })
    &&& after.accepted_count == saturating_inc(before.accepted_count)
    &&& after.deferred_count == before.deferred_count
    &&& after.superseded_count == before.superseded_count
}

/// The relay state after `relay`'s scene was deferred for `reason`.
pub open spec fn deferred(before: CompdRelayState, relay: RelayScene, reason: String, after: CompdRelayState) -> bool {
    let v = relay.spec_version();
    let replace = match before.pending { Some(p) => version_le(p.version, v), None => true };
    &&& forwarded_version(after) == forwarded_version(before)
    &&& replace ==> after.pending == Some(PendingRelayScene {
        version: v,
        usage: spec_relay_usage(relay),
        reason,
    })
    &&& !replace ==> after.pending == before.pending
    &&& after.superseded_count == (if replace && before.pending is Some {
        saturating_inc(before.superseded_count)
    } else {
        before.superseded_count
    })
    &&& after.deferred_count == saturating_inc(before.deferred_count)
    &&& after.accepted_count == before.accepted_count
}

impl CompdRelayState {
    pub fn version_floor(&self) -> (r: (u64, u64))
        ensures
            r == spec_version_floor(*self),
    {
        let forwarded = (self.last_forwarded_epoch, self.last_forwarded_generation);
        match &self.pending {
            Some(p) => if version_less(forwarded, p.version) { p.version } else { forwarded },
            None => forwarded,
        }
    }

    pub fn should_reject_version(&self, incoming: (u64, u64)) -> (r: bool)
        ensures
            r == spec_should_reject(*self, incoming),
    {
        let floor = self.version_floor();
        if floor.0 == 0 && floor.1 == 0 {
            return false;
        }
        if incoming.0 == 0 && incoming.1 == 0 {
            return true;
        }
        if version_less(incoming, floor) {
            return true;
        }
        if incoming.0 == floor.0 && incoming.1 == floor.1 {
            return match &self.pending {
                Some(p) => !(p.version.0 == incoming.0 && p.version.1 == incoming.1),
                None => true,
            };
        }
        false
    }

    /// Records that a scene was relayed: the forwarded version moves up to it
    /// (never for the zero version, never down), a pending scene no newer
    /// than it is dropped, and the accepted count goes up.
    pub fn note_forwarded(&mut self, relay: &RelayScene)
        ensures
            noted_forwarded(*old(self), *relay, *final(self)),
    {
        let version = relay.version();
        let forwarded = (self.last_forwarded_epoch, self.last_forwarded_generation);
        if !(version.0 == 0 && version.1 == 0) && !version_less(version, forwarded) {
            self.last_forwarded_epoch = version.0;
            self.last_forwarded_generation = version.1;
        }
        let clear = match &self.pending {
            Some(p) => !version_less(version, p.version),
            None => false,
        };
        if clear {
            self.pending = None;
        }
        self.accepted_count = self.accepted_count.saturating_add(1);
    }

    /// Defers a scene that could not be relayed. Only the newest deferred
    /// scene is kept: it replaces the pending one unless that is newer, and a
    /// replaced pending scene counts as superseded.
    pub fn defer_latest(&mut self, relay: &RelayScene, reason: String)
        ensures
            deferred(*old(self), *relay, reason, *final(self)),
    {
        let version = relay.version();
        let replace = match &self.pending {
            Some(p) => !version_less(version, p.version),
            None => true,
        };
        if replace {
            if self.pending.is_some() {
                self.superseded_count = self.superseded_count.saturating_add(1);
            }
            let usage = relay_resource_usage(relay);
            self.pending = Some(PendingRelayScene { version, usage, reason });
        }
        self.deferred_count = self.deferred_count.saturating_add(1);
    }
}

/// Relaying a scene never lowers the version floor.
pub proof fn lemma_note_forwarded_keeps_floor(before: CompdRelayState, after: CompdRelayState, v: (u64, u64))
    requires
        forwarded_version(after) == (if v != (0u64, 0u64) && version_le(forwarded_version(before), v) {
            v
        } else {
            forwarded_version(before)
        }),
        after.pending == (match before.pending {
            Some(p) => if version_le(p.version, v) { None } else { Some(p) },
            None => None,
        }),
    ensures
        version_le(spec_version_floor(before), spec_version_floor(after)),
{
}

/// Deferring a scene never lowers the version floor.
pub proof fn lemma_defer_keeps_floor(before: CompdRelayState, after: CompdRelayState, v: (u64, u64))
    requires
        forwarded_version(after) == forwarded_version(before),
        match before.pending {
            Some(p) => if version_le(p.version, v) {
                after.pending matches Some(q) && q.version == v
            } else {
                after.pending == before.pending
            },
            None => after.pending matches Some(q) && q.version == v,
        },
    ensures
        version_le(spec_version_floor(before), spec_version_floor(after)),
{
}

/// Once a scene of a non-zero version has been relayed, that version and
/// every older one are refused as replays.
pub proof fn lemma_forwarded_version_is_rejected(before: CompdRelayState, after: CompdRelayState, v: (u64, u64), w: (u64, u64))
    requires
        v != (0u64, 0u64),
        version_le(w, v),
        forwarded_version(after) == (if version_le(forwarded_version(before), v) { v } else { forwarded_version(before) }),
        after.pending == (match before.pending {
            Some(p) => if version_le(p.version, v) { None } else { Some(p) },
            None => None,
        }),
    ensures
        spec_should_reject(after, w),
{
}

/// A deferred scene whose version is not below the forwarded one stays
/// retryable under that same version.
pub proof fn lemma_deferred_version_is_retryable(s: CompdRelayState, v: (u64, u64))
    requires
        s.pending matches Some(p) && p.version == v,
        version_le(forwarded_version(s), v),
    ensures
        !spec_should_reject(s, v),
{
}

} // verus!

verus! {

/// What is wrong with a relayed scene, in the order the checks run.
#[derive(Debug, Clone, Copy, PartialEq, Eq, Structural)]
pub enum RelayDefectKind {
    EmptyTarget,
    VersionHalfZero,
    SurfaceBudget,
    PayloadBudget,
    ByteBudget,
    DuplicateSurface,
    ZeroDimensions,
    PlacementOverflow,
    HandleSurfaceMismatch,
    HandleSceneGeneration,
    HandleBufferGeneration,
    MissingFocus,
    MissingClipboardOwner,
    MissingPrimaryOwner,
    DuplicatePayload,
    OrphanPayload,
    UnexpectedPayloadHandle,
    PayloadGeneration,
    PayloadZeroDimensions,
    PayloadStrideOverflow,
    PayloadStrideTooSmall,
    PayloadLengthOverflow,
    PayloadLengthMismatch,
    PayloadTooLarge,
    MissingPayload,
}

/// Why a relayed scene was refused: the defect, the index of the surface or
/// payload it concerns (0 where none does), and the message.
#[derive(Debug)]
pub struct RelaySceneError {
    pub kind: RelayDefectKind,
    pub index: usize,
    pub message: String,
}

impl RelaySceneError {
    /// The human-readable message.
    pub fn message(&self) -> (r: String)
        ensures
            r@ == self.message@,
    {
        self.message.clone()
    }
}

/// Some surface before index `i` has the id `id`.
pub open spec fn id_before(ss: Seq<SurfaceSnapshot>, i: int, id: Seq<char>) -> bool {
    exists|j: int| 0 <= j < i && #[trigger] ss[j].id@ == id
}

/// Some surface has the id `id`.
pub open spec fn id_present(ss: Seq<SurfaceSnapshot>, id: Seq<char>) -> bool {
    id_before(ss, ss.len() as int, id)
}

/// What is wrong with surface `i` of a scene of generation `gen`.
pub open spec fn surface_defect(ss: Seq<SurfaceSnapshot>, gen: u64, i: int) -> Option<RelayDefectKind> {
    let s = ss[i];
    if s.id@.len() == 0 || id_before(ss, i, s.id@) {
        Some(RelayDefectKind::DuplicateSurface)
    } else if s.placement.visible && (s.placement.width == 0 || s.placement.height == 0) {
        Some(RelayDefectKind::ZeroDimensions)
    } else if s.placement.x as int + s.placement.width as int > i32::MAX as int
        || s.placement.y as int + s.placement.height as int > i32::MAX as int {
        Some(RelayDefectKind::PlacementOverflow)
    } else {
        match s.pixel_transport {
            Some(h) => if h.surface_id@ != s.id@ {
                Some(RelayDefectKind::HandleSurfaceMismatch)
            } else if gen != 0 && h.scene_generation != gen {
                Some(RelayDefectKind::HandleSceneGeneration)
            } else if s.buffer_generation != 0 && h.buffer_generation != s.buffer_generation {
                Some(RelayDefectKind::HandleBufferGeneration)
            } else {
                None
            },
            None => None,
        }
    }
}

/// The first defective surface among the first `k`, with its index.
pub open spec fn first_surface_defect(ss: Seq<SurfaceSnapshot>, gen: u64, k: int) -> Option<(RelayDefectKind, int)>
    decreases k,
{
    if k <= 0 {
        None
    } else {
        match first_surface_defect(ss, gen, k - 1) {
            Some(d) => Some(d),
            None => match surface_defect(ss, gen, k - 1) {
                Some(kind) => Some((kind, k - 1)),
                None => None,
            },
        }
    }
}

/// Some payload before index `i` has a handle equal to `h`.
pub open spec fn handle_before(ps: Seq<PixelTransportPayload>, i: int, h: (u64, Seq<char>, u64, u64)) -> bool {
    exists|j: int| 0 <= j < i && #[trigger] ps[j].handle.deep_view() == h
}

/// Some surface of the scene references the handle `h`.
pub open spec fn handle_expected(ss: Seq<SurfaceSnapshot>, h: (u64, Seq<char>, u64, u64)) -> bool {
    exists|j: int| 0 <= j < ss.len() && (#[trigger] ss[j].pixel_transport matches Some(e) && e.deep_view() == h)
}

/// What is wrong with payload `i`.
pub open spec fn payload_defect(ps: Seq<PixelTransportPayload>, ss: Seq<SurfaceSnapshot>, gen: u64, i: int) -> Option<RelayDefectKind> {
    let p = ps[i];
    let h = p.handle;
    if handle_before(ps, i, h.deep_view()) {
        Some(RelayDefectKind::DuplicatePayload)
    } else if !id_present(ss, h.surface_id@) {
        Some(RelayDefectKind::OrphanPayload)
    } else if !handle_expected(ss, h.deep_view()) {
        Some(RelayDefectKind::UnexpectedPayloadHandle)
    } else if gen != 0 && h.scene_generation != gen {
        Some(RelayDefectKind::PayloadGeneration)
    } else if p.width == 0 || p.height == 0 {
        Some(RelayDefectKind::PayloadZeroDimensions)
    } else if p.width as int * 4 > u32::MAX as int {
        Some(RelayDefectKind::PayloadStrideOverflow)
    } else if (p.stride as int) < p.width as int * 4 {
        Some(RelayDefectKind::PayloadStrideTooSmall)
    } else if p.stride as int * p.height as int > usize::MAX as int {
        Some(RelayDefectKind::PayloadLengthOverflow)
    } else if p.stride as int * p.height as int != p.pixels@.len() {
        Some(RelayDefectKind::PayloadLengthMismatch)
    } else if p.stride as int * p.height as int > MAX_RELAY_SINGLE_PAYLOAD_BYTES {
        Some(RelayDefectKind::PayloadTooLarge)
    } else {
        None
    }
}

/// The first defective payload among the first `k`, with its index.
pub open spec fn first_payload_defect(ps: Seq<PixelTransportPayload>, ss: Seq<SurfaceSnapshot>, gen: u64, k: int) -> Option<(RelayDefectKind, int)>
    decreases k,
{
    if k <= 0 {
        None
    } else {
        match first_payload_defect(ps, ss, gen, k - 1) {
            Some(d) => Some(d),
            None => match payload_defect(ps, ss, gen, k - 1) {
                Some(kind) => Some((kind, k - 1)),
                None => None,
            },
        }
    }
}

/// Some surface references a handle that no payload carries.
pub open spec fn payload_missing(ss: Seq<SurfaceSnapshot>, ps: Seq<PixelTransportPayload>) -> bool {
    exists|j: int| 0 <= j < ss.len() && (#[trigger] ss[j].pixel_transport matches Some(e)
        && !handle_before(ps, ps.len() as int, e.deep_view()))
}

pub open spec fn focus_missing(scene: CompdScene) -> bool {
    scene.focus matches FocusTarget::Surface { id } && !id_present(scene.surfaces@, id@)
}

pub open spec fn owner_missing(owner: Option<String>, ss: Seq<SurfaceSnapshot>) -> bool {
    owner matches Some(o) && !id_present(ss, o@)
}

/// The first defect of a relayed scene, in the order the checks run: the
/// target, the version, the three budgets, each surface, the focus, the two
/// selection owners, each payload, and (when payloads are required) a
/// referenced payload that is not attached.
pub open spec fn spec_relay_defect(relay: RelayScene, require_transport_payloads: bool) -> Option<(RelayDefectKind, int)> {
    let scene = relay.scene;
    let ss = scene.surfaces@;
    let ps = relay.pixel_payloads@;
    let gen = scene.scene_generation;
    if scene.target_output@.len() == 0 {
        Some((RelayDefectKind::EmptyTarget, 0))
    } else if (scene.scene_epoch == 0) != (scene.scene_generation == 0) {
        Some((RelayDefectKind::VersionHalfZero, 0))
    } else if ss.len() > MAX_RELAY_SURFACES {
        Some((RelayDefectKind::SurfaceBudget, 0))
    } else if ps.len() > MAX_RELAY_PIXEL_PAYLOADS {
        Some((RelayDefectKind::PayloadBudget, 0))
    } else if saturating_pixel_bytes(ps, ps.len() as int) > MAX_RELAY_PIXEL_BYTES {
        Some((RelayDefectKind::ByteBudget, 0))
    } else if first_surface_defect(ss, gen, ss.len() as int) is Some {
        first_surface_defect(ss, gen, ss.len() as int)
    } else if focus_missing(scene) {
        Some((RelayDefectKind::MissingFocus, 0))
    } else if owner_missing(scene.selection.clipboard_owner, ss) {
        Some((RelayDefectKind::MissingClipboardOwner, 0))
    } else if owner_missing(scene.selection.primary_selection_owner, ss) {
        Some((RelayDefectKind::MissingPrimaryOwner, 0))
    } else if first_payload_defect(ps, ss, gen, ps.len() as int) is Some {
        first_payload_defect(ps, ss, gen, ps.len() as int)
    } else if require_transport_payloads && payload_missing(ss, ps) {
        Some((RelayDefectKind::MissingPayload, 0))
    } else {
        None
    }
}

proof fn lemma_no_surface_defect(ss: Seq<SurfaceSnapshot>, gen: u64, k: int)
    requires
        first_surface_defect(ss, gen, k) is None,
    ensures
        forall|i: int| 0 <= i < k ==> #[trigger] surface_defect(ss, gen, i) is None,
    decreases k,
{
    if k > 0 {
        lemma_no_surface_defect(ss, gen, k - 1);
    }
}

proof fn lemma_no_payload_defect(ps: Seq<PixelTransportPayload>, ss: Seq<SurfaceSnapshot>, gen: u64, k: int)
    requires
        first_payload_defect(ps, ss, gen, k) is None,
    ensures
        forall|i: int| 0 <= i < k ==> #[trigger] payload_defect(ps, ss, gen, i) is None,
    decreases k,
{
    if k > 0 {
        lemma_no_payload_defect(ps, ss, gen, k - 1);
    }
}

/// Every scene that passes validation keeps every bound: a named target, a
/// version that is zero in both halves or in neither, at most 4096
/// surfaces and payloads and 256 MiB of pixels; distinct non-empty surface
/// ids, visible surfaces with an area, placements inside the compositor's
/// coordinates and handles that match their surface; a focus and selection
/// owners among the surfaces; payloads with distinct handles that a
/// surface references, of the scene's generation, with a positive size, a
/// stride that holds a row, exactly `stride * height` bytes and at most
/// 64 MiB; and, when payloads are required, a payload for every handle.
pub proof fn law_accepted_relay_scene_is_within_bounds(relay: RelayScene, require_transport_payloads: bool)
    requires
        spec_relay_defect(relay, require_transport_payloads) is None,
    ensures
        ({
            let sc = relay.scene;
            let ss = sc.surfaces@;
            let ps = relay.pixel_payloads@;
            let gen = sc.scene_generation;
            &&& sc.target_output@.len() != 0
            &&& (sc.scene_epoch == 0) == (sc.scene_generation == 0)
            &&& ss.len() <= MAX_RELAY_SURFACES && ps.len() <= MAX_RELAY_PIXEL_PAYLOADS
            &&& saturating_pixel_bytes(ps, ps.len() as int) <= MAX_RELAY_PIXEL_BYTES
            &&& forall|i: int| 0 <= i < ss.len() ==> {
                let s = #[trigger] ss[i];
                &&& s.id@.len() != 0
                &&& s.placement.visible ==> s.placement.width != 0 && s.placement.height != 0
                &&& s.placement.x as int + s.placement.width as int <= i32::MAX as int
                &&& s.placement.y as int + s.placement.height as int <= i32::MAX as int
                &&& s.pixel_transport matches Some(h) ==> h.surface_id@ == s.id@
                    && (gen != 0 ==> h.scene_generation == gen)
                    && (s.buffer_generation != 0 ==> h.buffer_generation == s.buffer_generation)
            }
            &&& forall|i: int, j: int| 0 <= i < j < ss.len() ==> ss[i].id@ != ss[j].id@
            &&& sc.focus matches FocusTarget::Surface { id } ==> id_present(ss, id@)
            &&& sc.selection.clipboard_owner matches Some(o) ==> id_present(ss, o@)
            &&& sc.selection.primary_selection_owner matches Some(o) ==> id_present(ss, o@)
            &&& forall|i: int| 0 <= i < ps.len() ==> {
                let p = #[trigger] ps[i];
                &&& handle_expected(ss, p.handle.deep_view())
                &&& gen != 0 ==> p.handle.scene_generation == gen
                &&& p.width != 0 && p.height != 0
                &&& p.stride as int >= p.width as int * 4
                &&& p.pixels@.len() == p.stride as int * p.height as int
                &&& p.pixels@.len() <= MAX_RELAY_SINGLE_PAYLOAD_BYTES
            }
            &&& forall|i: int, j: int| 0 <= i < j < ps.len() ==> ps[i].handle.deep_view() != ps[j].handle.deep_view()
            &&& require_transport_payloads ==> forall|i: int| 0 <= i < ss.len()
                ==> (#[trigger] ss[i].pixel_transport matches Some(e) ==> handle_before(ps, ps.len() as int, e.deep_view()))
        }),
{
    let sc = relay.scene;
    let ss = sc.surfaces@;
    let ps = relay.pixel_payloads@;
    let gen = sc.scene_generation;
    lemma_no_surface_defect(ss, gen, ss.len() as int);
    lemma_no_payload_defect(ps, ss, gen, ps.len() as int);
    assert forall|i: int, j: int| 0 <= i < j < ss.len() implies ss[i].id@ != ss[j].id@ by {
        assert(surface_defect(ss, gen, j) is None);
        if ss[i].id@ == ss[j].id@ {
            assert(id_before(ss, j, ss[j].id@));
        }
    }
    assert forall|i: int, j: int| 0 <= i < j < ps.len() implies ps[i].handle.deep_view() != ps[j].handle.deep_view() by {
        assert(payload_defect(ps, ss, gen, j) is None);
        if ps[i].handle.deep_view() == ps[j].handle.deep_view() {
            assert(handle_before(ps, j, ps[j].handle.deep_view()));
        }
    }
    assert forall|i: int| 0 <= i < ss.len() implies {
        let s = #[trigger] ss[i];
        &&& s.id@.len() != 0
        &&& s.placement.visible ==> s.placement.width != 0 && s.placement.height != 0
        &&& s.placement.x as int + s.placement.width as int <= i32::MAX as int
        &&& s.placement.y as int + s.placement.height as int <= i32::MAX as int
        &&& s.pixel_transport matches Some(h) ==> h.surface_id@ == s.id@
            && (gen != 0 ==> h.scene_generation == gen)
            && (s.buffer_generation != 0 ==> h.buffer_generation == s.buffer_generation)
    } by {
        assert(surface_defect(ss, gen, i) is None);
    }
    assert forall|i: int| 0 <= i < ps.len() implies {
        let p = #[trigger] ps[i];
        &&& handle_expected(ss, p.handle.deep_view())
        &&& gen != 0 ==> p.handle.scene_generation == gen
        &&& p.width != 0 && p.height != 0
        &&& p.stride as int >= p.width as int * 4
        &&& p.pixels@.len() == p.stride as int * p.height as int
        &&& p.pixels@.len() <= MAX_RELAY_SINGLE_PAYLOAD_BYTES
    } by {
        assert(payload_defect(ps, ss, gen, i) is None);
    }
}

pub open spec fn dec(n: int) -> Seq<char> {
    crate::text::decimal_digits(n as nat)
}

/// The message of each defect.
pub open spec fn relay_defect_message(relay: RelayScene, kind: RelayDefectKind, index: int) -> Seq<char> {
    let ss = relay.scene.surfaces@;
    let ps = relay.pixel_payloads@;
    match kind {
        RelayDefectKind::EmptyTarget => "scene target output must not be empty"@,
        RelayDefectKind::VersionHalfZero => "scene epoch and generation must both be zero or both be non-zero"@,
        RelayDefectKind::SurfaceBudget => "compd surface budget exceeded: "@ + dec(ss.len() as int) + " > 4096"@,
        RelayDefectKind::PayloadBudget => "compd PixelTransport payload budget exceeded: "@ + dec(ps.len() as int) + " > 4096"@,
        RelayDefectKind::ByteBudget => "compd PixelTransport byte budget exceeded: "@
            + dec(saturating_pixel_bytes(ps, ps.len() as int) as int) + " > 268435456"@,
        RelayDefectKind::DuplicateSurface => "scene contains empty or duplicate surface identity"@,
        RelayDefectKind::ZeroDimensions => "visible surface "@ + ss[index].id@ + " has zero dimensions"@,
        RelayDefectKind::PlacementOverflow => "surface "@ + ss[index].id@ + " placement overflows compositor coordinates"@,
        RelayDefectKind::HandleSurfaceMismatch => "PixelTransport surface identity mismatch for "@ + ss[index].id@,
        RelayDefectKind::HandleSceneGeneration => "PixelTransport scene generation mismatch for "@ + ss[index].id@,
        RelayDefectKind::HandleBufferGeneration => "PixelTransport buffer generation mismatch for "@ + ss[index].id@,
        RelayDefectKind::MissingFocus => match relay.scene.focus {
            FocusTarget::Surface { id } => "focused surface "@ + id@ + " is not present in the scene"@,
            FocusTarget::Unfocused => Seq::empty(),
        },
        RelayDefectKind::MissingClipboardOwner => match relay.scene.selection.clipboard_owner {
            Some(o) => "selection owner "@ + o@ + " is not present in the scene"@,
            None => Seq::empty(),
        },
        RelayDefectKind::MissingPrimaryOwner => match relay.scene.selection.primary_selection_owner {
            Some(o) => "selection owner "@ + o@ + " is not present in the scene"@,
            None => Seq::empty(),
        },
        RelayDefectKind::DuplicatePayload => "duplicate PixelTransport payload handle for "@ + ps[index].handle.surface_id@,
        RelayDefectKind::OrphanPayload => "orphan PixelTransport payload for "@ + ps[index].handle.surface_id@,
        RelayDefectKind::UnexpectedPayloadHandle => "PixelTransport payload does not match canonical surface handle"@,
        RelayDefectKind::PayloadGeneration => "PixelTransport payload generation does not match scene generation"@,
        RelayDefectKind::PayloadZeroDimensions => "PixelTransport payload dimensions must be non-zero"@,
        RelayDefectKind::PayloadStrideOverflow => "PixelTransport stride overflow"@,
        RelayDefectKind::PayloadStrideTooSmall => "PixelTransport payload stride is smaller than 32-bit pixel width"@,
        RelayDefectKind::PayloadLengthOverflow => "PixelTransport byte length overflow"@,
        RelayDefectKind::PayloadLengthMismatch => "PixelTransport payload byte length mismatch for "@ + ps[index].handle.surface_id@
            + ": "@ + dec(ps[index].pixels@.len() as int) + " != "@ + dec(ps[index].stride as int * ps[index].height as int),
        RelayDefectKind::PayloadTooLarge => "single PixelTransport payload budget exceeded: "@
            + dec(ps[index].stride as int * ps[index].height as int) + " > 67108864"@,
        RelayDefectKind::MissingPayload => "canonical surface references PixelTransport payload that is not attached"@,
    }
}

} // verus!

verus! {

/// `prefix`, then `mid`, then `suffix`.
pub fn concat3(prefix: &str, mid: &String, suffix: &str) -> (r: String)
    ensures
        r@ == prefix@ + mid@ + suffix@,
{
    let mut out = chars_of(prefix);
    push_str(&mut out, mid.as_str());
    push_str(&mut out, suffix);
    string_from_chars(&out)
}

fn with_number(prefix: &str, n: usize, suffix: &str) -> (r: String)
    ensures
        r@ == prefix@ + dec(n as int) + suffix@,
{
    let mut out = chars_of(prefix);
    let d = decimal_chars(n as u64);
    push_chars(&mut out, &d);
    push_str(&mut out, suffix);
    string_from_chars(&out)
}

/// Whether two handles are equal field by field.
pub fn handle_eq(a: &PixelTransportHandle, b: &PixelTransportHandle) -> (r: bool)
    ensures
        r == (a.deep_view() == b.deep_view()),
{
    a.client_id == b.client_id && a.surface_id == b.surface_id && a.buffer_generation == b.buffer_generation
        && a.scene_generation == b.scene_generation
}

fn id_seen(ss: &Vec<SurfaceSnapshot>, i: usize, id: &String) -> (r: bool)
    requires
        i <= ss@.len(),
    ensures
        r == id_before(ss@, i as int, id@),
{
    let mut j: usize = 0;
    while j < i
        invariant
            j <= i <= ss@.len(),
            forall|k: int| 0 <= k < j ==> #[trigger] ss@[k].id@ != id@,
        decreases i - j,
    {
        if ss[j].id == *id {
            assert(ss@[j as int].id@ == id@);
            return true;
        }
        j += 1;
    }
    false
}

fn check_surface(ss: &Vec<SurfaceSnapshot>, gen: u64, i: usize) -> (r: Option<RelayDefectKind>)
    requires
        i < ss@.len(),
    ensures
        r == surface_defect(ss@, gen, i as int),
{
    let s = &ss[i];
    if s.id.as_str().is_empty() || id_seen(ss, i, &s.id) {
        return Some(RelayDefectKind::DuplicateSurface);
    }
    if s.placement.visible && (s.placement.width == 0 || s.placement.height == 0) {
        return Some(RelayDefectKind::ZeroDimensions);
    }
    let right = s.placement.x as i64 + s.placement.width as i64;
    let bottom = s.placement.y as i64 + s.placement.height as i64;
    if right > 2147483647i64 || bottom > 2147483647i64 {
        return Some(RelayDefectKind::PlacementOverflow);
    }
    match &s.pixel_transport {
        Some(h) => {
            if h.surface_id != s.id {
                Some(RelayDefectKind::HandleSurfaceMismatch)
            } else if gen != 0 && h.scene_generation != gen {
                Some(RelayDefectKind::HandleSceneGeneration)
            } else if s.buffer_generation != 0 && h.buffer_generation != s.buffer_generation {
                Some(RelayDefectKind::HandleBufferGeneration)
            } else {
                None
            }
        },
        None => None,
    }
}

fn check_surfaces(ss: &Vec<SurfaceSnapshot>, gen: u64) -> (r: Option<(RelayDefectKind, usize)>)
    ensures
        match r {
            Some((k, i)) => first_surface_defect(ss@, gen, ss@.len() as int) == Some((k, i as int)),
            None => first_surface_defect(ss@, gen, ss@.len() as int) is None,
        },
{
    let mut i: usize = 0;
    while i < ss.len()
        invariant
            i <= ss@.len(),
            first_surface_defect(ss@, gen, i as int) is None,
        decreases ss@.len() - i,
    {
        match check_surface(ss, gen, i) {
            Some(kind) => {
                proof { lemma_first_surface_defect_stays(ss@, gen, i as int + 1, ss@.len() as int); }
                return Some((kind, i));
            },
            None => {},
        }
        i += 1;
    }
    None
}

proof fn lemma_first_surface_defect_stays(ss: Seq<SurfaceSnapshot>, gen: u64, j: int, k: int)
    requires
        0 <= j <= k,
        first_surface_defect(ss, gen, j) is Some,
    ensures
        first_surface_defect(ss, gen, k) == first_surface_defect(ss, gen, j),
    decreases k - j,
{
    if j < k {
        lemma_first_surface_defect_stays(ss, gen, j, k - 1);
    }
}

proof fn lemma_first_payload_defect_stays(ps: Seq<PixelTransportPayload>, ss: Seq<SurfaceSnapshot>, gen: u64, j: int, k: int)
    requires
        0 <= j <= k,
        first_payload_defect(ps, ss, gen, j) is Some,
    ensures
        first_payload_defect(ps, ss, gen, k) == first_payload_defect(ps, ss, gen, j),
    decreases k - j,
{
    if j < k {
        lemma_first_payload_defect_stays(ps, ss, gen, j, k - 1);
    }
}

fn handle_seen(ps: &Vec<PixelTransportPayload>, i: usize, h: &PixelTransportHandle) -> (r: bool)
    requires
        i <= ps@.len(),
    ensures
        r == handle_before(ps@, i as int, h.deep_view()),
{
    let mut j: usize = 0;
    while j < i
        invariant
            j <= i <= ps@.len(),
            forall|k: int| 0 <= k < j ==> #[trigger] ps@[k].handle.deep_view() != h.deep_view(),
        decreases i - j,
    {
        if handle_eq(&ps[j].handle, h) {
            return true;
        }
        j += 1;
    }
    false
}

fn handle_in_surfaces(ss: &Vec<SurfaceSnapshot>, h: &PixelTransportHandle) -> (r: bool)
    ensures
        r == handle_expected(ss@, h.deep_view()),
{
    let mut j: usize = 0;
    while j < ss.len()
        invariant
            j <= ss@.len(),
            forall|k: int| 0 <= k < j ==> !(#[trigger] ss@[k].pixel_transport matches Some(e) && e.deep_view() == h.deep_view()),
        decreases ss@.len() - j,
    {
        match &ss[j].pixel_transport {
            Some(e) => {
                if handle_eq(e, h) {
                    return true;
                }
            },
            None => {},
        }
        j += 1;
    }
    false
}

fn check_payload(ps: &Vec<PixelTransportPayload>, ss: &Vec<SurfaceSnapshot>, gen: u64, i: usize) -> (r: Option<RelayDefectKind>)
    requires
        i < ps@.len(),
    ensures
        r == payload_defect(ps@, ss@, gen, i as int),
{
    let p = &ps[i];
    let h = &p.handle;
    if handle_seen(ps, i, h) {
        return Some(RelayDefectKind::DuplicatePayload);
    }
    if !id_seen(ss, ss.len(), &h.surface_id) {
        return Some(RelayDefectKind::OrphanPayload);
    }
    if !handle_in_surfaces(ss, h) {
        return Some(RelayDefectKind::UnexpectedPayloadHandle);
    }
    if gen != 0 && h.scene_generation != gen {
        return Some(RelayDefectKind::PayloadGeneration);
    }
    if p.width == 0 || p.height == 0 {
        return Some(RelayDefectKind::PayloadZeroDimensions);
    }
    let minimum_stride = match p.width.checked_mul(4) {
        Some(v) => v,
        None => { return Some(RelayDefectKind::PayloadStrideOverflow); }
    };
    if p.stride < minimum_stride {
        return Some(RelayDefectKind::PayloadStrideTooSmall);
    }
    let required = match (p.stride as usize).checked_mul(p.height as usize) {
        Some(v) => v,
        None => { return Some(RelayDefectKind::PayloadLengthOverflow); }
    };
    if required != p.pixels.len() {
        return Some(RelayDefectKind::PayloadLengthMismatch);
    }
    if required > MAX_RELAY_SINGLE_PAYLOAD_BYTES {
        return Some(RelayDefectKind::PayloadTooLarge);
    }
    None
}

fn check_payloads(ps: &Vec<PixelTransportPayload>, ss: &Vec<SurfaceSnapshot>, gen: u64) -> (r: Option<(RelayDefectKind, usize)>)
    ensures
        match r {
            Some((k, i)) => first_payload_defect(ps@, ss@, gen, ps@.len() as int) == Some((k, i as int)),
            None => first_payload_defect(ps@, ss@, gen, ps@.len() as int) is None,
        },
{
    let mut i: usize = 0;
    while i < ps.len()
        invariant
            i <= ps@.len(),
            first_payload_defect(ps@, ss@, gen, i as int) is None,
        decreases ps@.len() - i,
    {
        match check_payload(ps, ss, gen, i) {
            Some(kind) => {
                proof { lemma_first_payload_defect_stays(ps@, ss@, gen, i as int + 1, ps@.len() as int); }
                return Some((kind, i));
            },
            None => {},
        }
        i += 1;
    }
    None
}

fn any_payload_missing(ss: &Vec<SurfaceSnapshot>, ps: &Vec<PixelTransportPayload>) -> (r: bool)
    ensures
        r == payload_missing(ss@, ps@),
{
    let mut j: usize = 0;
    while j < ss.len()
        invariant
            j <= ss@.len(),
            forall|k: int| 0 <= k < j ==> !(#[trigger] ss@[k].pixel_transport matches Some(e)
                && !handle_before(ps@, ps@.len() as int, e.deep_view())),
        decreases ss@.len() - j,
    {
        match &ss[j].pixel_transport {
            Some(e) => {
                if !handle_seen(ps, ps.len(), e) {
                    return true;
                }
            },
            None => {},
        }
        j += 1;
    }
    false
}

} // verus!

verus! {

fn defect_message(relay: &RelayScene, kind: RelayDefectKind, index: usize) -> (r: String)
    requires
        match kind {
            RelayDefectKind::ZeroDimensions | RelayDefectKind::PlacementOverflow | RelayDefectKind::HandleSurfaceMismatch
            | RelayDefectKind::HandleSceneGeneration | RelayDefectKind::HandleBufferGeneration => index < relay.scene.surfaces@.len(),
            RelayDefectKind::DuplicatePayload | RelayDefectKind::OrphanPayload => index < relay.pixel_payloads@.len(),
            RelayDefectKind::PayloadLengthMismatch | RelayDefectKind::PayloadTooLarge => index < relay.pixel_payloads@.len()
                && relay.pixel_payloads@[index as int].stride as int * relay.pixel_payloads@[index as int].height as int <= usize::MAX,
            _ => true,
        },
    ensures
        r@ == relay_defect_message(*relay, kind, index as int),
{
    match kind {
        RelayDefectKind::EmptyTarget => String::from_str("scene target output must not be empty"),
        RelayDefectKind::VersionHalfZero => String::from_str("scene epoch and generation must both be zero or both be non-zero"),
        RelayDefectKind::SurfaceBudget => with_number("compd surface budget exceeded: ", relay.scene.surfaces.len(), " > 4096"),
        RelayDefectKind::PayloadBudget => with_number("compd PixelTransport payload budget exceeded: ", relay.pixel_payloads.len(), " > 4096"),
        RelayDefectKind::ByteBudget => {
            let usage = relay_resource_usage(relay);
            with_number("compd PixelTransport byte budget exceeded: ", usage.pixel_bytes, " > 268435456")
        },
        RelayDefectKind::DuplicateSurface => String::from_str("scene contains empty or duplicate surface identity"),
        RelayDefectKind::ZeroDimensions => concat3("visible surface ", &relay.scene.surfaces[index].id, " has zero dimensions"),
        RelayDefectKind::PlacementOverflow => concat3("surface ", &relay.scene.surfaces[index].id, " placement overflows compositor coordinates"),
        RelayDefectKind::HandleSurfaceMismatch => message_with("PixelTransport surface identity mismatch for ", &relay.scene.surfaces[index].id),
        RelayDefectKind::HandleSceneGeneration => message_with("PixelTransport scene generation mismatch for ", &relay.scene.surfaces[index].id),
        RelayDefectKind::HandleBufferGeneration => message_with("PixelTransport buffer generation mismatch for ", &relay.scene.surfaces[index].id),
        RelayDefectKind::MissingFocus => match &relay.scene.focus {
            FocusTarget::Surface { id } => concat3("focused surface ", id, " is not present in the scene"),
            FocusTarget::Unfocused => String::new(),
        },
        RelayDefectKind::MissingClipboardOwner => match &relay.scene.selection.clipboard_owner {
            Some(o) => concat3("selection owner ", o, " is not present in the scene"),
            None => String::new(),
        },
        RelayDefectKind::MissingPrimaryOwner => match &relay.scene.selection.primary_selection_owner {
            Some(o) => concat3("selection owner ", o, " is not present in the scene"),
            None => String::new(),
        },
        RelayDefectKind::DuplicatePayload => message_with("duplicate PixelTransport payload handle for ", &relay.pixel_payloads[index].handle.surface_id),
        RelayDefectKind::OrphanPayload => message_with("orphan PixelTransport payload for ", &relay.pixel_payloads[index].handle.surface_id),
        RelayDefectKind::UnexpectedPayloadHandle => String::from_str("PixelTransport payload does not match canonical surface handle"),
        RelayDefectKind::PayloadGeneration => String::from_str("PixelTransport payload generation does not match scene generation"),
        RelayDefectKind::PayloadZeroDimensions => String::from_str("PixelTransport payload dimensions must be non-zero"),
        RelayDefectKind::PayloadStrideOverflow => String::from_str("PixelTransport stride overflow"),
        RelayDefectKind::PayloadStrideTooSmall => String::from_str("PixelTransport payload stride is smaller than 32-bit pixel width"),
        RelayDefectKind::PayloadLengthOverflow => String::from_str("PixelTransport byte length overflow"),
        RelayDefectKind::PayloadLengthMismatch => {
            let p = &relay.pixel_payloads[index];
            let required = (p.stride as usize) * (p.height as usize);
            let mut out = chars_of("PixelTransport payload byte length mismatch for ");
            push_str(&mut out, p.handle.surface_id.as_str());
            push_str(&mut out, ": ");
            let a = decimal_chars(p.pixels.len() as u64);
            push_chars(&mut out, &a);
            push_str(&mut out, " != ");
            let b = decimal_chars(required as u64);
            push_chars(&mut out, &b);
            string_from_chars(&out)
        },
        RelayDefectKind::PayloadTooLarge => {
            let p = &relay.pixel_payloads[index];
            let required = (p.stride as usize) * (p.height as usize);
            with_number("single PixelTransport payload budget exceeded: ", required, " > 67108864")
        },
        RelayDefectKind::MissingPayload => String::from_str("canonical surface references PixelTransport payload that is not attached"),
    }
}

fn relay_error(relay: &RelayScene, kind: RelayDefectKind, index: usize) -> (r: RelaySceneError)
    requires
        match kind {
            RelayDefectKind::ZeroDimensions | RelayDefectKind::PlacementOverflow | RelayDefectKind::HandleSurfaceMismatch
            | RelayDefectKind::HandleSceneGeneration | RelayDefectKind::HandleBufferGeneration => index < relay.scene.surfaces@.len(),
            RelayDefectKind::DuplicatePayload | RelayDefectKind::OrphanPayload => index < relay.pixel_payloads@.len(),
            RelayDefectKind::PayloadLengthMismatch | RelayDefectKind::PayloadTooLarge => index < relay.pixel_payloads@.len()
                && relay.pixel_payloads@[index as int].stride as int * relay.pixel_payloads@[index as int].height as int <= usize::MAX,
            _ => true,
        },
    ensures
        r.kind == kind && r.index == index && r.message@ == relay_defect_message(*relay, kind, index as int),
{
    let message = defect_message(relay, kind, index);
    RelaySceneError { kind, index, message }
}

/// Checks a scene before it is relayed, and counts what it holds. The scene
/// is refused at its first defect (see `spec_relay_defect`), with that
/// defect's message; otherwise its usage is returned.
pub fn validate_relay_scene(relay: &RelayScene, require_transport_payloads: bool) -> (r: Result<RelayResourceUsage, RelaySceneError>)
    ensures
        match spec_relay_defect(*relay, require_transport_payloads) {
            None => r == Ok::<RelayResourceUsage, RelaySceneError>(spec_relay_usage(*relay)),
            Some((kind, index)) => r matches Err(e) && e.kind == kind && e.index as int == index
                && e.message@ == relay_defect_message(*relay, kind, index),
        },
{
    let usage = relay_resource_usage(relay);
    let scene = &relay.scene;
    let ghost ss = relay.scene.surfaces@;
    let ghost ps = relay.pixel_payloads@;
    let ghost gen = relay.scene.scene_generation;
    if scene.target_output.as_str().is_empty() {
        return Err(relay_error(relay, RelayDefectKind::EmptyTarget, 0));
    }
    if (scene.scene_epoch == 0) != (scene.scene_generation == 0) {
        return Err(relay_error(relay, RelayDefectKind::VersionHalfZero, 0));
    }
    if usage.surfaces > MAX_RELAY_SURFACES {
        return Err(relay_error(relay, RelayDefectKind::SurfaceBudget, 0));
    }
    if usage.pixel_payloads > MAX_RELAY_PIXEL_PAYLOADS {
        return Err(relay_error(relay, RelayDefectKind::PayloadBudget, 0));
    }
    if usage.pixel_bytes > MAX_RELAY_PIXEL_BYTES {
        return Err(relay_error(relay, RelayDefectKind::ByteBudget, 0));
    }
    match check_surfaces(&scene.surfaces, scene.scene_generation) {
        Some((kind, index)) => {
            proof { lemma_first_surface_defect_index(ss, gen, ss.len() as int); }
            return Err(relay_error(relay, kind, index));
        },
        None => {},
    }
    let focus_missing = match &scene.focus {
        FocusTarget::Surface { id } => !id_seen(&scene.surfaces, scene.surfaces.len(), id),
        FocusTarget::Unfocused => false,
    };
    if focus_missing {
        return Err(relay_error(relay, RelayDefectKind::MissingFocus, 0));
    }
    let clipboard_missing = match &scene.selection.clipboard_owner {
        Some(o) => !id_seen(&scene.surfaces, scene.surfaces.len(), o),
        None => false,
    };
    if clipboard_missing {
        return Err(relay_error(relay, RelayDefectKind::MissingClipboardOwner, 0));
    }
    let primary_missing = match &scene.selection.primary_selection_owner {
        Some(o) => !id_seen(&scene.surfaces, scene.surfaces.len(), o),
        None => false,
    };
    if primary_missing {
        return Err(relay_error(relay, RelayDefectKind::MissingPrimaryOwner, 0));
    }
    match check_payloads(&relay.pixel_payloads, &scene.surfaces, scene.scene_generation) {
        Some((kind, index)) => {
            proof {
                lemma_first_payload_defect_index(ps, ss, gen, ps.len() as int);
                let k = payload_defect(ps, ss, gen, index as int);
                assert(k == Some(kind));
                assert(kind != RelayDefectKind::ZeroDimensions && kind != RelayDefectKind::PlacementOverflow
                    && kind != RelayDefectKind::HandleSurfaceMismatch && kind != RelayDefectKind::HandleSceneGeneration
                    && kind != RelayDefectKind::HandleBufferGeneration);
            }
            return Err(relay_error(relay, kind, index));
        },
        None => {},
    }
    if require_transport_payloads && any_payload_missing(&scene.surfaces, &relay.pixel_payloads) {
        return Err(relay_error(relay, RelayDefectKind::MissingPayload, 0));
    }
    Ok(usage)
}

proof fn lemma_first_surface_defect_index(ss: Seq<SurfaceSnapshot>, gen: u64, k: int)
    requires
        first_surface_defect(ss, gen, k) is Some,
        k <= ss.len(),
    ensures
        0 <= first_surface_defect(ss, gen, k).unwrap().1 < k,
        surface_defect(ss, gen, first_surface_defect(ss, gen, k).unwrap().1) == Some(first_surface_defect(ss, gen, k).unwrap().0),
    decreases k,
{
    if first_surface_defect(ss, gen, k - 1) is Some {
        lemma_first_surface_defect_index(ss, gen, k - 1);
    }
}

proof fn lemma_first_payload_defect_index(ps: Seq<PixelTransportPayload>, ss: Seq<SurfaceSnapshot>, gen: u64, k: int)
    requires
        first_payload_defect(ps, ss, gen, k) is Some,
        k <= ps.len(),
    ensures
        0 <= first_payload_defect(ps, ss, gen, k).unwrap().1 < k,
        payload_defect(ps, ss, gen, first_payload_defect(ps, ss, gen, k).unwrap().1) == Some(first_payload_defect(ps, ss, gen, k).unwrap().0),
    decreases k,
{
    if first_payload_defect(ps, ss, gen, k - 1) is Some {
        lemma_first_payload_defect_index(ps, ss, gen, k - 1);
    }
}

} // verus!

verus! {

/// `a` and `b` agree on their first `k` characters.
pub open spec fn common_prefix(a: Seq<char>, b: Seq<char>, k: int) -> bool {
    0 <= k <= a.len() && k <= b.len() && forall|i: int| 0 <= i < k ==> #[trigger] a[i] == b[i]
}

/// Lexicographic order of strings by code point, the order of `str::cmp`.
pub open spec fn chars_lt(a: Seq<char>, b: Seq<char>) -> bool {
    exists|k: int| #[trigger] common_prefix(a, b, k) && (
        (k < a.len() && k < b.len() && (a[k] as u32) < (b[k] as u32)) || (k == a.len() && k < b.len()))
}

proof fn lemma_chars_lt_asym(a: Seq<char>, b: Seq<char>)
    requires
        chars_lt(a, b),
    ensures
        !chars_lt(b, a),
{
    let k = choose|k: int| #[trigger] common_prefix(a, b, k) && (
        (k < a.len() && k < b.len() && (a[k] as u32) < (b[k] as u32)) || (k == a.len() && k < b.len()));
    assert forall|m: int| #[trigger] common_prefix(b, a, m) implies !(
        (m < b.len() && m < a.len() && (b[m] as u32) < (a[m] as u32)) || (m == b.len() && m < a.len())) by {
        if m < k {
            assert(a[m] == b[m]);
        } else if m > k {
            assert(b[k] == a[k]);
        }
    }
}

/// Length of the longest common prefix of two strings.
pub open spec fn common_prefix_len(a: Seq<char>, b: Seq<char>) -> nat
    decreases a.len(),
{
    if a.len() == 0 || b.len() == 0 || a[0] != b[0] {
        0
    } else {
        1 + common_prefix_len(a.drop_first(), b.drop_first())
    }
}

proof fn lemma_common_prefix_len(a: Seq<char>, b: Seq<char>)
    ensures
        common_prefix(a, b, common_prefix_len(a, b) as int),
        common_prefix_len(a, b) < a.len() && common_prefix_len(a, b) < b.len()
            ==> a[common_prefix_len(a, b) as int] != b[common_prefix_len(a, b) as int],
    decreases a.len(),
{
    if a.len() > 0 && b.len() > 0 && a[0] == b[0] {
        let (a1, b1) = (a.drop_first(), b.drop_first());
        lemma_common_prefix_len(a1, b1);
        let k = common_prefix_len(a, b) as int;
        assert forall|i: int| 0 <= i < k implies #[trigger] a[i] == b[i] by {
            if i > 0 {
                assert(a[i] == a1[i - 1] && b[i] == b1[i - 1]);
                assert(common_prefix(a1, b1, k - 1));
            }
        }
        if k < a.len() && k < b.len() {
            assert(a[k] == a1[k - 1] && b[k] == b1[k - 1]);
        }
    }
}

/// A character is a Unicode scalar value, so its code point fits in 21 bits.
proof fn lemma_char_in_range(c: char)
    ensures
        0 <= (c as int) <= 0x10FFFF,
{
}

/// Two different strings are ordered one way or the other.
proof fn lemma_chars_lt_total(a: Seq<char>, b: Seq<char>)
    requires
        a != b,
    ensures
        chars_lt(a, b) || chars_lt(b, a),
{
    lemma_common_prefix_len(a, b);
    let k = common_prefix_len(a, b) as int;
    assert(common_prefix(b, a, k));
    if k < a.len() && k < b.len() {
        assert(a[k] != b[k]);
        assert((a[k] as int) != (b[k] as int));
        lemma_char_in_range(a[k]);
        lemma_char_in_range(b[k]);
        assert((a[k] as u32) != (b[k] as u32));
        if (a[k] as u32) < (b[k] as u32) {
            assert(common_prefix(a, b, k));
        } else {
            assert(common_prefix(b, a, k));
        }
    } else if k == a.len() && k == b.len() {
        assert(a =~= b);
    } else if k == a.len() {
        assert(common_prefix(a, b, k));
    } else {
        assert(common_prefix(b, a, k));
    }
}

proof fn lemma_chars_lt_trans(a: Seq<char>, b: Seq<char>, c: Seq<char>)
    requires
        chars_lt(a, b),
        chars_lt(b, c),
    ensures
        chars_lt(a, c),
{
    let k1 = choose|k: int| #[trigger] common_prefix(a, b, k) && (
        (k < a.len() && k < b.len() && (a[k] as u32) < (b[k] as u32)) || (k == a.len() && k < b.len()));
    let k2 = choose|k: int| #[trigger] common_prefix(b, c, k) && (
        (k < b.len() && k < c.len() && (b[k] as u32) < (c[k] as u32)) || (k == b.len() && k < c.len()));
    let k = if k1 <= k2 { k1 } else { k2 };
    assert forall|i: int| 0 <= i < k implies #[trigger] a[i] == c[i] by {
        assert(a[i] == b[i] && b[i] == c[i]);
    }
    assert(common_prefix(a, c, k));
    if k1 < k2 {
        if k1 < a.len() && k1 < b.len() {
            assert(b[k1] == c[k1]);
        }
    } else if k1 > k2 {
        assert(a[k2] == b[k2]);
    }
}

/// Whether `a` sorts strictly before `b`, as `str::cmp` orders them.
pub fn chars_less(a: &str, b: &str) -> (r: bool)
    ensures
        r == chars_lt(a@, b@),
{
    let x = chars_of(a);
    let y = chars_of(b);
    let mut i: usize = 0;
    while i < x.len() && i < y.len() && x[i] == y[i]
        invariant
            common_prefix(x@, y@, i as int),
        decreases x@.len() - i,
    {
        i += 1;
    }
    let r = if i < x.len() && i < y.len() {
        (x[i] as u32) < (y[i] as u32)
    } else {
        i == x.len() && i < y.len()
    };
    proof {
        if r {
            assert(common_prefix(x@, y@, i as int));
        } else {
            assert forall|k: int| #[trigger] common_prefix(x@, y@, k) implies !(
                (k < x@.len() && k < y@.len() && (x@[k] as u32) < (y@[k] as u32)) || (k == x@.len() && k < y@.len())) by {
                if k > i {
                    assert(x@[i as int] == y@[i as int]);
                }
            }
        }
    }
    r
}

/// Canonical stacking order of surfaces: by layer class, then z, then
/// creation sequence, then id.
pub open spec fn surface_before(s: SurfaceSnapshot, t: SurfaceSnapshot) -> bool {
    s.layer_class < t.layer_class
    || (s.layer_class == t.layer_class && s.placement.z < t.placement.z)
    || (s.layer_class == t.layer_class && s.placement.z == t.placement.z && s.creation_sequence < t.creation_sequence)
    || (s.layer_class == t.layer_class && s.placement.z == t.placement.z && s.creation_sequence == t.creation_sequence
        && chars_lt(s.id@, t.id@))
}

proof fn lemma_surface_before_asym(s: SurfaceSnapshot, t: SurfaceSnapshot)
    requires
        surface_before(s, t),
    ensures
        !surface_before(t, s),
{
    if s.layer_class == t.layer_class && s.placement.z == t.placement.z && s.creation_sequence == t.creation_sequence {
        lemma_chars_lt_asym(s.id@, t.id@);
    }
}

proof fn lemma_surface_before_trans(s: SurfaceSnapshot, t: SurfaceSnapshot, u: SurfaceSnapshot)
    requires
        surface_before(s, t),
        surface_before(t, u),
    ensures
        surface_before(s, u),
{
    if s.layer_class == t.layer_class && t.layer_class == u.layer_class && s.placement.z == t.placement.z
        && t.placement.z == u.placement.z && s.creation_sequence == t.creation_sequence
        && t.creation_sequence == u.creation_sequence {
        lemma_chars_lt_trans(s.id@, t.id@, u.id@);
    }
}

proof fn lemma_surface_before_total(s: SurfaceSnapshot, t: SurfaceSnapshot)
    requires
        s.id@ != t.id@,
    ensures
        surface_before(s, t) || surface_before(t, s),
{
    lemma_chars_lt_total(s.id@, t.id@);
}

/// No two surfaces of `s` share an id.
pub open spec fn distinct_surface_ids(s: Seq<SurfaceSnapshot>) -> bool {
    forall|i: int, j: int| 0 <= i < j < s.len() ==> (#[trigger] s[i]).id@ != (#[trigger] s[j]).id@
}

proof fn lemma_sorted_first_before(a: Seq<SurfaceSnapshot>, j: int)
    requires
        surfaces_sorted(a),
        distinct_surface_ids(a),
        0 < j < a.len(),
    ensures
        surface_before(a[0], a[j]),
    decreases j,
{
    assert(!surface_before(a[(j - 1) + 1], a[j - 1]));
    lemma_surface_before_total(a[j - 1], a[j]);
    if j > 1 {
        lemma_sorted_first_before(a, j - 1);
        lemma_surface_before_trans(a[0], a[j - 1], a[j]);
    }
}

/// The canonical order is determined by the surfaces alone: two
/// canonically sorted sequences of the same surfaces, whose ids are pairwise
/// distinct, are the same sequence, whatever order they were given in.
pub proof fn law_canonical_order_is_deterministic(a: Seq<SurfaceSnapshot>, b: Seq<SurfaceSnapshot>)
    requires
        surfaces_sorted(a),
        surfaces_sorted(b),
        a.to_multiset() == b.to_multiset(),
        distinct_surface_ids(a),
    ensures
        a == b,
    decreases a.len(),
{
    broadcast use vstd::seq_lib::group_to_multiset_ensures;
    assert(a.to_multiset().len() == a.len());
    assert(b.to_multiset().len() == b.len());
    if a.len() == 0 {
        assert(b.len() == 0);
        assert(a =~= b);
    } else {
        assert(b.len() == a.len());
        assert(a.contains(a[0]));
        assert(b.to_multiset().count(a[0]) > 0);
        let m = choose|m: int| 0 <= m < b.len() && b[m] == a[0];
        let first = choose|m: int| 0 <= m < b.len() && b[m] == a[0] && forall|k: int| 0 <= k < m ==> b[k] != a[0];
        assert(exists|m: int| 0 <= m < b.len() && b[m] == a[0] && forall|k: int| 0 <= k < m ==> b[k] != a[0]) by {
            lemma_first_occurrence(b, a[0], m);
        }
        if first > 0 {
            let prev = b[first - 1];
            assert(b.contains(prev));
            assert(a.to_multiset().count(prev) > 0);
            let j = choose|j: int| 0 <= j < a.len() && a[j] == prev;
            assert(j != 0);
            lemma_sorted_first_before(a, j);
            assert(!surface_before(b[(first - 1) + 1], b[first - 1]));
            assert(false);
        }
        assert(b[0] == a[0]);
        let (a1, b1) = (a.drop_first(), b.drop_first());
        assert(a.remove(0) =~= a1);
        assert(b.remove(0) =~= b1);
        assert(a1.to_multiset() =~= b1.to_multiset());
        assert forall|i: int| 0 <= i < a1.len() - 1 implies !#[trigger] surface_before(a1[i + 1], a1[i]) by {
            assert(!surface_before(a[(i + 1) + 1], a[i + 1]));
        }
        assert forall|i: int| 0 <= i < b1.len() - 1 implies !#[trigger] surface_before(b1[i + 1], b1[i]) by {
            assert(!surface_before(b[(i + 1) + 1], b[i + 1]));
        }
        assert forall|i: int, j: int| 0 <= i < j < a1.len() implies (#[trigger] a1[i]).id@ != (#[trigger] a1[j]).id@ by {
            assert(a[i + 1].id@ != a[j + 1].id@);
        }
        law_canonical_order_is_deterministic(a1, b1);
        assert(a =~= b) by {
            assert forall|i: int| 0 <= i < a.len() implies a[i] == b[i] by {
                if i > 0 { assert(a[i] == a1[i - 1] && b[i] == b1[i - 1]); }
            }
        }
    }
}

proof fn lemma_first_occurrence(s: Seq<SurfaceSnapshot>, x: SurfaceSnapshot, m: int)
    requires
        0 <= m < s.len(),
        s[m] == x,
    ensures
        exists|f: int| 0 <= f < s.len() && s[f] == x && forall|k: int| 0 <= k < f ==> s[k] != x,
    decreases m,
{
    if exists|k: int| 0 <= k < m && s[k] == x {
        let k = choose|k: int| 0 <= k < m && s[k] == x;
        lemma_first_occurrence(s, x, k);
    } else {
        assert(forall|k: int| 0 <= k < m ==> s[k] != x);
    }
}

fn surface_less(s: &SurfaceSnapshot, t: &SurfaceSnapshot) -> (r: bool)
    ensures
        r == surface_before(*s, *t),
{
    if s.layer_class != t.layer_class {
        return s.layer_class < t.layer_class;
    }
    if s.placement.z != t.placement.z {
        return s.placement.z < t.placement.z;
    }
    if s.creation_sequence != t.creation_sequence {
        return s.creation_sequence < t.creation_sequence;
    }
    chars_less(s.id.as_str(), t.id.as_str())
}

/// Canonical order of payloads: by handle, field by field (client, surface
/// id, buffer generation, scene generation).
pub open spec fn payload_before(p: PixelTransportPayload, q: PixelTransportPayload) -> bool {
    let a = p.handle;
    let b = q.handle;
    a.client_id < b.client_id
    || (a.client_id == b.client_id && chars_lt(a.surface_id@, b.surface_id@))
    || (a.client_id == b.client_id && a.surface_id@ == b.surface_id@ && a.buffer_generation < b.buffer_generation)
    || (a.client_id == b.client_id && a.surface_id@ == b.surface_id@ && a.buffer_generation == b.buffer_generation
        && a.scene_generation < b.scene_generation)
}

proof fn lemma_payload_before_asym(p: PixelTransportPayload, q: PixelTransportPayload)
    requires
        payload_before(p, q),
    ensures
        !payload_before(q, p),
{
    let a = p.handle;
    let b = q.handle;
    if a.client_id == b.client_id {
        if chars_lt(a.surface_id@, b.surface_id@) {
            lemma_chars_lt_asym(a.surface_id@, b.surface_id@);
        }
        if chars_lt(b.surface_id@, a.surface_id@) {
            lemma_chars_lt_asym(b.surface_id@, a.surface_id@);
        }
        if a.surface_id@ == b.surface_id@ {
            assert(!chars_lt(a.surface_id@, b.surface_id@)) by {
                assert forall|k: int| #[trigger] common_prefix(a.surface_id@, b.surface_id@, k) implies !(
                    (k < a.surface_id@.len() && k < b.surface_id@.len() && (a.surface_id@[k] as u32) < (b.surface_id@[k] as u32))
                    || (k == a.surface_id@.len() && k < b.surface_id@.len())) by {}
            }
        }
    }
}

fn payload_less(p: &PixelTransportPayload, q: &PixelTransportPayload) -> (r: bool)
    ensures
        r == payload_before(*p, *q),
{
    let a = &p.handle;
    let b = &q.handle;
    if a.client_id != b.client_id {
        return a.client_id < b.client_id;
    }
    if a.surface_id != b.surface_id {
        let r = chars_less(a.surface_id.as_str(), b.surface_id.as_str());
        return r;
    }
    proof {
        assert(!chars_lt(a.surface_id@, b.surface_id@)) by {
            assert forall|k: int| #[trigger] common_prefix(a.surface_id@, b.surface_id@, k) implies !(
                (k < a.surface_id@.len() && k < b.surface_id@.len() && (a.surface_id@[k] as u32) < (b.surface_id@[k] as u32))
                || (k == a.surface_id@.len() && k < b.surface_id@.len())) by {}
        }
    }
    if a.buffer_generation != b.buffer_generation {
        return a.buffer_generation < b.buffer_generation;
    }
    a.scene_generation < b.scene_generation
}

/// No two neighbouring surfaces are out of canonical order.
pub open spec fn surfaces_sorted(s: Seq<SurfaceSnapshot>) -> bool {
    forall|i: int| 0 <= i < s.len() - 1 ==> !#[trigger] surface_before(s[i + 1], s[i])
}

/// No two neighbouring payloads are out of canonical order.
pub open spec fn payloads_sorted(s: Seq<PixelTransportPayload>) -> bool {
    forall|i: int| 0 <= i < s.len() - 1 ==> !#[trigger] payload_before(s[i + 1], s[i])
}

/// Stable insertion sort of surfaces into canonical order.
pub fn sort_surfaces(v: Vec<SurfaceSnapshot>) -> (r: Vec<SurfaceSnapshot>)
    ensures
        r@.to_multiset() == v@.to_multiset(),
        surfaces_sorted(r@),
{
    broadcast use vstd::seq_lib::group_to_multiset_ensures;
    let mut src = v;
    let mut out: Vec<SurfaceSnapshot> = Vec::new();
    while src.len() > 0
        invariant
            out@.to_multiset().add(src@.to_multiset()) == v@.to_multiset(),
            surfaces_sorted(out@),
        decreases src@.len(),
    {
        let ghost before = src@;
        let x = src.pop().unwrap();
        assert(before =~= src@.push(x));
        let mut j: usize = 0;
        loop
            invariant
                j <= out@.len(),
                forall|k: int| 0 <= k < j ==> #[trigger] surface_before(out@[k], x),
            ensures
                j <= out@.len(),
                forall|k: int| 0 <= k < j ==> #[trigger] surface_before(out@[k], x),
                j < out@.len() ==> !surface_before(out@[j as int], x),
            decreases out@.len() - j,
        {
            if j >= out.len() {
                break;
            }
            if !surface_less(&out[j], &x) {
                break;
            }
            j += 1;
        }
        let ghost old_out = out@;
        out.insert(j, x);
        proof {
            vstd::seq_lib::to_multiset_insert(old_out, j as int, x);
            vstd::seq_lib::to_multiset_build(src@, x);
            assert(out@.to_multiset() =~= old_out.to_multiset().insert(x));
            assert(before.to_multiset() =~= src@.to_multiset().insert(x));
            assert(out@.to_multiset().add(src@.to_multiset()) =~= old_out.to_multiset().add(before.to_multiset()));
            assert forall|i: int| 0 <= i < out@.len() - 1 implies !#[trigger] surface_before(out@[i + 1], out@[i]) by {
                if i + 1 < j {
                    assert(out@[i] == old_out[i] && out@[i + 1] == old_out[i + 1]);
                } else if i + 1 == j {
                    assert(out@[i] == old_out[i] && out@[i + 1] == x);
                    lemma_surface_before_asym(old_out[i], x);
                } else if i == j {
                    assert(out@[i] == x && out@[i + 1] == old_out[i]);
                } else {
                    assert(out@[i] == old_out[i - 1] && out@[i + 1] == old_out[i]);
                    let m = i - 1;
                    assert(!surface_before(old_out[m + 1], old_out[m]));
                    assert(m + 1 == i);
                }
            }
        }
    }
    assert(src@ =~= Seq::<SurfaceSnapshot>::empty());
    out
}

/// Stable insertion sort of payloads into canonical order.
pub fn sort_payloads(v: Vec<PixelTransportPayload>) -> (r: Vec<PixelTransportPayload>)
    ensures
        r@.to_multiset() == v@.to_multiset(),
        payloads_sorted(r@),
{
    broadcast use vstd::seq_lib::group_to_multiset_ensures;
    let mut src = v;
    let mut out: Vec<PixelTransportPayload> = Vec::new();
    while src.len() > 0
        invariant
            out@.to_multiset().add(src@.to_multiset()) == v@.to_multiset(),
            payloads_sorted(out@),
        decreases src@.len(),
    {
        let ghost before = src@;
        let x = src.pop().unwrap();
        assert(before =~= src@.push(x));
        let mut j: usize = 0;
        loop
            invariant
                j <= out@.len(),
                forall|k: int| 0 <= k < j ==> #[trigger] payload_before(out@[k], x),
            ensures
                j <= out@.len(),
                forall|k: int| 0 <= k < j ==> #[trigger] payload_before(out@[k], x),
                j < out@.len() ==> !payload_before(out@[j as int], x),
            decreases out@.len() - j,
        {
            if j >= out.len() {
                break;
            }
            if !payload_less(&out[j], &x) {
                break;
            }
            j += 1;
        }
        let ghost old_out = out@;
        out.insert(j, x);
        proof {
            vstd::seq_lib::to_multiset_insert(old_out, j as int, x);
            vstd::seq_lib::to_multiset_build(src@, x);
            assert(out@.to_multiset() =~= old_out.to_multiset().insert(x));
            assert(before.to_multiset() =~= src@.to_multiset().insert(x));
            assert(out@.to_multiset().add(src@.to_multiset()) =~= old_out.to_multiset().add(before.to_multiset()));
            assert forall|i: int| 0 <= i < out@.len() - 1 implies !#[trigger] payload_before(out@[i + 1], out@[i]) by {
                if i + 1 < j {
                    assert(out@[i] == old_out[i] && out@[i + 1] == old_out[i + 1]);
                } else if i + 1 == j {
                    assert(out@[i] == old_out[i] && out@[i + 1] == x);
                    lemma_payload_before_asym(old_out[i], x);
                } else if i == j {
                    assert(out@[i] == x && out@[i + 1] == old_out[i]);
                } else {
                    assert(out@[i] == old_out[i - 1] && out@[i + 1] == old_out[i]);
                    let m = i - 1;
                    assert(!payload_before(old_out[m + 1], old_out[m]));
                    assert(m + 1 == i);
                }
            }
        }
    }
    assert(src@ =~= Seq::<PixelTransportPayload>::empty());
    out
}

/// Puts the surfaces of a relayed scene into canonical stacking order and
/// its payloads into handle order; nothing else changes.
pub fn canonicalize_relay_scene(relay: &mut RelayScene)
    ensures
        final(relay).scene.surfaces@.to_multiset() == old(relay).scene.surfaces@.to_multiset(),
        surfaces_sorted(final(relay).scene.surfaces@),
        final(relay).pixel_payloads@.to_multiset() == old(relay).pixel_payloads@.to_multiset(),
        payloads_sorted(final(relay).pixel_payloads@),
        final(relay).scene.target_output == old(relay).scene.target_output,
        final(relay).scene.focus == old(relay).scene.focus,
        final(relay).scene.selection == old(relay).scene.selection,
        final(relay).scene.scene_epoch == old(relay).scene.scene_epoch,
        final(relay).scene.scene_generation == old(relay).scene.scene_generation,
{
    let mut surfaces: Vec<SurfaceSnapshot> = Vec::new();
    std::mem::swap(&mut surfaces, &mut relay.scene.surfaces);
    relay.scene.surfaces = sort_surfaces(surfaces);
    let mut payloads: Vec<PixelTransportPayload> = Vec::new();
    std::mem::swap(&mut payloads, &mut relay.pixel_payloads);
    relay.pixel_payloads = sort_payloads(payloads);
}

} // verus!

verus! {

pub const STUB_SCREEN_WIDTH: u32 = 1920;
pub const STUB_SCREEN_HEIGHT: u32 = 1080;
pub const STUB_PANEL_HEIGHT: u32 = 36;

/// Surfaces of these roles can take input focus.
pub open spec fn spec_focusable(role: WaylandSurfaceRole) -> bool {
    role is Toplevel || role is Popup || role is Lock
}

pub fn is_focusable_role(role: &WaylandSurfaceRole) -> (r: bool)
    ensures
        r == spec_focusable(*role),
{
    match role {
        WaylandSurfaceRole::Toplevel | WaylandSurfaceRole::Popup | WaylandSurfaceRole::Lock => true,
        _ => false,
    }
}

/// Height a layer surface gets: its exclusive zone when positive, else the
/// panel height.
pub open spec fn layer_height(m: LayerMetadata) -> u32 {
    if m.exclusive_zone > 0 { m.exclusive_zone as u32 } else { STUB_PANEL_HEIGHT }
}

/// The layout arithmetic of a layer surface stays within `i32`: the sum of
/// the side margins of a surface anchored left and right, and the bottom
/// offset of one anchored to the bottom edge only.
pub open spec fn layout_in_range(role: WaylandSurfaceRole, output: OutputMode) -> bool {
    match role {
        WaylandSurfaceRole::Layer(m) => {
            &&& (m.anchor & 1 != 0 && m.anchor & 2 != 0) ==> i32::MIN <= m.margin_left + m.margin_right <= i32::MAX
            &&& (m.anchor & 4 == 0 && m.anchor & 8 != 0) ==> i32::MIN <= (
                (if output.height >= layer_height(m) { (output.height - layer_height(m)) as u32 } else { 0u32 }) as i32
                - m.margin_bottom) <= i32::MAX
        },
        _ => true,
    }
}

/// Where a surface of a given role is placed on an output: a background
/// covers the output at z 0; a layer surface spans the output between its
/// margins when anchored left and right, takes its exclusive zone (or the
/// panel height) as height, sits at the top or bottom edge it is anchored
/// to, and gets the z of its layer; a toplevel is raised to at least z 30;
/// other roles keep their placement.
pub open spec fn spec_layout(p: SurfacePlacement, role: WaylandSurfaceRole, output: OutputMode) -> SurfacePlacement {
    match role {
        WaylandSurfaceRole::Background => SurfacePlacement {
            x: 0, y: 0, width: output.width, height: output.height, z: 0, visible: p.visible,
        },
        WaylandSurfaceRole::Layer(m) => {
            let margins = m.margin_left + m.margin_right;
            let inset: u32 = if margins > 0 { margins as u32 } else { 0u32 };
            let width: u32 = if m.anchor & 1 != 0 && m.anchor & 2 != 0 {
                if output.width >= inset { (output.width - inset) as u32 } else { 0u32 }
            } else {
                STUB_SCREEN_WIDTH
            };
            let height = layer_height(m);
            let y: i32 = if m.anchor & 4 != 0 {
                m.margin_top
            } else if m.anchor & 8 != 0 {
                ((if output.height >= height { (output.height - height) as u32 } else { 0u32 }) as i32 - m.margin_bottom) as i32
            } else {
                0
            };
            let z: i32 = if m.layer == 0 { 10 } else if m.layer == 1 { 20 } else if m.layer == 2 { 100 }
                else if m.layer == 3 { 200 } else { 100 };
            SurfacePlacement { x: m.margin_left, y, width, height, z, visible: p.visible }
        },
        WaylandSurfaceRole::Toplevel => SurfacePlacement { z: if p.z < 30 { 30 } else { p.z }, ..p },
        _ => p,
    }
}

/// Places a surface by the role waylandd reports for it.
pub fn apply_role_based_layout(surface: &mut SurfaceSnapshot, role: &WaylandSurfaceRole, output: &OutputMode)
    requires
        layout_in_range(*role, *output),
    ensures
        final(surface).placement == spec_layout(old(surface).placement, *role, *output),
        final(surface).id == old(surface).id,
        final(surface).app_id == old(surface).app_id,
        final(surface).buffer_handle == old(surface).buffer_handle,
        final(surface).buffer_generation == old(surface).buffer_generation,
        final(surface).damage_rects == old(surface).damage_rects,
        final(surface).pixel_transport == old(surface).pixel_transport,
        final(surface).layer_class == old(surface).layer_class,
        final(surface).creation_sequence == old(surface).creation_sequence,
{
    match role {
        WaylandSurfaceRole::Background => {
            surface.placement.x = 0;
            surface.placement.y = 0;
            surface.placement.width = output.width;
            surface.placement.height = output.height;
            surface.placement.z = 0;
        },
        WaylandSurfaceRole::Layer(metadata) => {
            let width = if metadata.anchor & 1 != 0 && metadata.anchor & 2 != 0 {
                let margins = metadata.margin_left + metadata.margin_right;
                let inset: u32 = if margins > 0 { margins as u32 } else { 0 };
                output.width.saturating_sub(inset)
            } else {
                STUB_SCREEN_WIDTH
            };
            let height: u32 = if metadata.exclusive_zone > 0 { metadata.exclusive_zone as u32 } else { STUB_PANEL_HEIGHT };
            surface.placement.x = metadata.margin_left;
            if metadata.anchor & 4 != 0 {
                surface.placement.y = metadata.margin_top;
            } else if metadata.anchor & 8 != 0 {
                let room = output.height.saturating_sub(height);
                surface.placement.y = (room as i32) - metadata.margin_bottom;
            } else {
                surface.placement.y = 0;
            }
            surface.placement.width = width;
            surface.placement.height = height;
            surface.placement.z = if metadata.layer == 0 { 10 } else if metadata.layer == 1 { 20 }
                else if metadata.layer == 2 { 100 } else if metadata.layer == 3 { 200 } else { 100 };
        },
        WaylandSurfaceRole::Toplevel => {
            if surface.placement.z < 30 {
                surface.placement.z = 30;
            }
        },
        _ => {},
    }
}

} // verus!

verus! {

pub open spec fn is_active(w: WaylandSurfaceState) -> bool {
    w.mapped && w.buffer_attached
}

/// Index of the registry entry that stands for `id` among the first `k`:
/// the last mapped surface with an attached buffer under that id.
pub open spec fn active_index_upto(reg: Seq<WaylandSurfaceState>, id: Seq<char>, k: int) -> Option<int>
    decreases k,
{
    if k <= 0 {
        None
    } else if is_active(reg[k - 1]) && reg[k - 1].id@ == id {
        Some(k - 1)
    } else {
        active_index_upto(reg, id, k - 1)
    }
}

pub open spec fn active_index(reg: Seq<WaylandSurfaceState>, id: Seq<char>) -> Option<int> {
    active_index_upto(reg, id, reg.len() as int)
}

proof fn lemma_active_index_bounds(reg: Seq<WaylandSurfaceState>, id: Seq<char>, k: int)
    requires
        k <= reg.len(),
    ensures
        active_index_upto(reg, id, k) matches Some(j) ==> 0 <= j < k && is_active(reg[j]) && reg[j].id@ == id,
    decreases k,
{
    if k > 0 {
        lemma_active_index_bounds(reg, id, k - 1);
    }
}

fn find_active(reg: &Vec<WaylandSurfaceState>, id: &String) -> (r: Option<usize>)
    ensures
        match r {
            Some(j) => active_index(reg@, id@) == Some(j as int) && j < reg@.len(),
            None => active_index(reg@, id@) is None,
        },
{
    let mut k: usize = reg.len();
    while k > 0
        invariant
            k <= reg@.len(),
            active_index(reg@, id@) == active_index_upto(reg@, id@, k as int),
        decreases k,
    {
        let w = &reg[k - 1];
        if w.mapped && w.buffer_attached && w.id == *id {
            proof { lemma_active_index_bounds(reg@, id@, k as int); }
            return Some(k - 1);
        }
        k -= 1;
    }
    None
}

/// The focus a surface list falls back to among the first `k` surfaces:
/// the visible, focusable surface with the highest z (the last such one
/// when several share it).
pub open spec fn fallback_focus_upto(ss: Seq<SurfaceSnapshot>, reg: Seq<WaylandSurfaceState>, k: int) -> Option<int>
    decreases k,
{
    if k <= 0 {
        None
    } else {
        let prev = fallback_focus_upto(ss, reg, k - 1);
        let s = ss[k - 1];
        let candidate = s.placement.visible && (active_index(reg, s.id@) matches Some(j) && spec_focusable(reg[j].role));
        if candidate && (prev matches Some(b) ==> ss[b].placement.z <= s.placement.z) {
            Some(k - 1)
        } else {
            prev
        }
    }
}

proof fn lemma_fallback_bounds(ss: Seq<SurfaceSnapshot>, reg: Seq<WaylandSurfaceState>, k: int)
    requires
        k <= ss.len(),
    ensures
        fallback_focus_upto(ss, reg, k) matches Some(b) ==> 0 <= b < k,
    decreases k,
{
    if k > 0 {
        lemma_fallback_bounds(ss, reg, k - 1);
    }
}

/// Surface `j` could take the keyboard focus: it is visible, and the
/// registry reports it active with a focusable role.
pub open spec fn could_take_focus(ss: Seq<SurfaceSnapshot>, reg: Seq<WaylandSurfaceState>, j: int) -> bool {
    ss[j].placement.visible && focusable_id(reg, ss[j].id@)
}

proof fn lemma_fallback_is_topmost(ss: Seq<SurfaceSnapshot>, reg: Seq<WaylandSurfaceState>, k: int)
    requires
        0 <= k <= ss.len(),
    ensures
        match fallback_focus_upto(ss, reg, k) {
            Some(b) => {
                &&& 0 <= b < k && could_take_focus(ss, reg, b)
                &&& forall|j: int| 0 <= j < k && #[trigger] could_take_focus(ss, reg, j) ==> ss[j].placement.z <= ss[b].placement.z
                &&& forall|j: int| b < j < k && #[trigger] could_take_focus(ss, reg, j) ==> ss[j].placement.z < ss[b].placement.z
            },
            None => forall|j: int| 0 <= j < k ==> !#[trigger] could_take_focus(ss, reg, j),
        },
    decreases k,
{
    if k > 0 {
        lemma_fallback_is_topmost(ss, reg, k - 1);
        assert(could_take_focus(ss, reg, k - 1) == (ss[k - 1].placement.visible
            && (active_index(reg, ss[k - 1].id@) matches Some(j) && spec_focusable(reg[j].role))));
    }
}

/// When the previous focus is gone, focus falls back to the topmost surface
/// that can take it (visible, active, focusable), the later one among
/// surfaces of equal z; with no such surface nothing is focused.
pub proof fn law_fallback_focus_is_topmost(ss: Seq<SurfaceSnapshot>, reg: Seq<WaylandSurfaceState>)
    ensures
        match fallback_focus_upto(ss, reg, ss.len() as int) {
            Some(b) => {
                &&& 0 <= b < ss.len() && could_take_focus(ss, reg, b)
                &&& spec_fallback_focus(ss, reg) == Some(ss[b].id@)
                &&& forall|j: int| 0 <= j < ss.len() && #[trigger] could_take_focus(ss, reg, j)
                    ==> ss[j].placement.z <= ss[b].placement.z
                &&& forall|j: int| b < j < ss.len() && #[trigger] could_take_focus(ss, reg, j)
                    ==> ss[j].placement.z < ss[b].placement.z
            },
            None => spec_fallback_focus(ss, reg) is None
                && forall|j: int| 0 <= j < ss.len() ==> !#[trigger] could_take_focus(ss, reg, j),
        },
{
    lemma_fallback_is_topmost(ss, reg, ss.len() as int);
}

/// The focus as an optional surface id.
pub open spec fn focus_id(f: FocusTarget) -> Option<Seq<char>> {
    match f {
        FocusTarget::Surface { id } => Some(id@),
        FocusTarget::Unfocused => None,
    }
}

/// The surface id `id` is active in the registry and can take focus.
pub open spec fn focusable_id(reg: Seq<WaylandSurfaceState>, id: Seq<char>) -> bool {
    active_index(reg, id) matches Some(j) && spec_focusable(reg[j].role)
}

pub open spec fn spec_fallback_focus(ss: Seq<SurfaceSnapshot>, reg: Seq<WaylandSurfaceState>) -> Option<Seq<char>> {
    match fallback_focus_upto(ss, reg, ss.len() as int) {
        Some(b) => Some(ss[b].id@),
        None => None,
    }
}

/// The previous focus when its surface is still active and focusable, else
/// the fallback among the kept surfaces.
pub open spec fn spec_reconcile_focus(previous: FocusTarget, ss: Seq<SurfaceSnapshot>, reg: Seq<WaylandSurfaceState>) -> Option<Seq<char>> {
    match previous {
        FocusTarget::Surface { id } => if focusable_id(reg, id@) { Some(id@) } else { spec_fallback_focus(ss, reg) },
        FocusTarget::Unfocused => spec_fallback_focus(ss, reg),
    }
}

fn focusable_in(reg: &Vec<WaylandSurfaceState>, id: &String) -> (r: bool)
    ensures
        r == focusable_id(reg@, id@),
{
    match find_active(reg, id) {
        Some(j) => is_focusable_role(&reg[j].role),
        None => false,
    }
}

pub fn fallback_focus_target(surfaces: &Vec<SurfaceSnapshot>, registry: &Vec<WaylandSurfaceState>) -> (r: FocusTarget)
    ensures
        focus_id(r) == spec_fallback_focus(surfaces@, registry@),
{
    let mut best: Option<usize> = None;
    let mut i: usize = 0;
    while i < surfaces.len()
        invariant
            i <= surfaces@.len(),
            match best {
                Some(b) => fallback_focus_upto(surfaces@, registry@, i as int) == Some(b as int) && b < i,
                None => fallback_focus_upto(surfaces@, registry@, i as int) is None,
            },
        decreases surfaces@.len() - i,
    {
        let s = &surfaces[i];
        let candidate = s.placement.visible && focusable_in(registry, &s.id);
        let take = candidate && match best {
            Some(b) => surfaces[b].placement.z <= s.placement.z,
            None => true,
        };
        if take {
            best = Some(i);
        }
        i += 1;
    }
    match best {
        Some(b) => FocusTarget::Surface { id: surfaces[b].id.clone() },
        None => FocusTarget::Unfocused,
    }
}

pub fn reconcile_focus(previous_focus: &FocusTarget, surfaces: &Vec<SurfaceSnapshot>, registry: &Vec<WaylandSurfaceState>) -> (r: FocusTarget)
    ensures
        focus_id(r) == spec_reconcile_focus(*previous_focus, surfaces@, registry@),
{
    match previous_focus {
        FocusTarget::Surface { id } => {
            if focusable_in(registry, id) {
                return FocusTarget::Surface { id: id.clone() };
            }
            fallback_focus_target(surfaces, registry)
        },
        FocusTarget::Unfocused => fallback_focus_target(surfaces, registry),
    }
}

/// One selection slot after reconciliation: its owner, payload id, source
/// serial, and whether it changed.
pub struct SelectionSlot {
    pub owner: Option<String>,
    pub payload_id: Option<String>,
    pub source_serial: Option<u64>,
    pub changed: bool,
}

pub open spec fn opt_view(o: Option<String>) -> Option<Seq<char>> {
    match o {
        Some(s) => Some(s@),
        None => None,
    }
}

/// An owner that is still active keeps the slot as it is. An owner that is
/// gone hands the slot to the focused surface when that one is active and
/// focusable (or to nobody), dropping payload id and serial. An empty slot
/// stays empty and loses any stale metadata.
pub open spec fn slot_reconciled(r: SelectionSlot, owner: Option<String>, payload_id: Option<String>, serial: Option<u64>,
    focus: FocusTarget, reg: Seq<WaylandSurfaceState>) -> bool {
    match owner {
        Some(id) => if active_index(reg, id@) is Some {
            opt_view(r.owner) == Some(id@) && opt_view(r.payload_id) == opt_view(payload_id) && r.source_serial == serial && !r.changed
        } else {
            opt_view(r.owner) == (match focus {
                FocusTarget::Surface { id: f } => if focusable_id(reg, f@) { Some(f@) } else { None },
                FocusTarget::Unfocused => None,
            }) && r.payload_id is None && r.source_serial is None && r.changed
        },
        None => r.owner is None && r.payload_id is None && r.source_serial is None
            && r.changed == (payload_id is Some || serial is Some),
    }
}

pub fn reconcile_selection_slot(
    previous_owner: &Option<String>,
    previous_payload_id: &Option<String>,
    previous_source_serial: Option<u64>,
    focus: &FocusTarget,
    registry: &Vec<WaylandSurfaceState>,
) -> (r: SelectionSlot)
    ensures
        slot_reconciled(r, *previous_owner, *previous_payload_id, previous_source_serial, *focus, registry@),
{
    match previous_owner {
        Some(id) => {
            if find_active(registry, id).is_some() {
                SelectionSlot {
                    owner: Some(id.clone()),
                    payload_id: previous_payload_id.clone(),
                    source_serial: previous_source_serial,
                    changed: false,
                }
            } else {
                let handoff = match focus {
                    FocusTarget::Surface { id: f } => if focusable_in(registry, f) { Some(f.clone()) } else { None },
                    FocusTarget::Unfocused => None,
                };
                SelectionSlot { owner: handoff, payload_id: None, source_serial: None, changed: true }
            }
        },
        None => SelectionSlot {
            owner: None,
            payload_id: None,
            source_serial: None,
            changed: previous_payload_id.is_some() || previous_source_serial.is_some(),
        },
    }
}

/// `sel` and the change count `n` are the reconciliation of `previous`
/// under `focus`: each slot as `slot_reconciled` says, offers kept.
pub open spec fn selection_reconciled(sel: WaylandSelectionState, n: int, previous: WaylandSelectionState,
    focus: FocusTarget, reg: Seq<WaylandSurfaceState>) -> bool {
    &&& exists|c: SelectionSlot, p: SelectionSlot|
        slot_reconciled(c, previous.clipboard_owner, previous.clipboard_payload_id, previous.clipboard_source_serial, focus, reg)
        && slot_reconciled(p, previous.primary_selection_owner, previous.primary_selection_payload_id,
            previous.primary_selection_source_serial, focus, reg)
        && opt_view(sel.clipboard_owner) == opt_view(c.owner) && opt_view(sel.clipboard_payload_id) == opt_view(c.payload_id)
        && sel.clipboard_source_serial == c.source_serial
        && opt_view(sel.primary_selection_owner) == opt_view(p.owner)
        && opt_view(sel.primary_selection_payload_id) == opt_view(p.payload_id)
        && sel.primary_selection_source_serial == p.source_serial
        && n == (if c.changed { 1int } else { 0int }) + (if p.changed { 1int } else { 0int })
    &&& sel.clipboard_offer.deep_view() == previous.clipboard_offer.deep_view()
    &&& sel.primary_offer.deep_view() == previous.primary_offer.deep_view()
}

/// Reconciles both selection slots; offers are kept. Returns the new
/// selection and how many slots changed.
pub fn reconcile_selection(previous: &WaylandSelectionState, focus: &FocusTarget, registry: &Vec<WaylandSurfaceState>)
    -> (r: (WaylandSelectionState, usize))
    ensures
        selection_reconciled(r.0, r.1 as int, *previous, *focus, registry@),
{
    let c = reconcile_selection_slot(&previous.clipboard_owner, &previous.clipboard_payload_id,
        previous.clipboard_source_serial, focus, registry);
    let p = reconcile_selection_slot(&previous.primary_selection_owner, &previous.primary_selection_payload_id,
        previous.primary_selection_source_serial, focus, registry);
    let n: usize = (if c.changed { 1 } else { 0 }) + (if p.changed { 1 } else { 0 });
    let copy = previous.clone();
    let ghost cg = c;
    let ghost pg = p;
    let sel = WaylandSelectionState {
        clipboard_owner: c.owner,
        clipboard_payload_id: c.payload_id,
        clipboard_source_serial: c.source_serial,
        clipboard_offer: copy.clipboard_offer,
        primary_selection_owner: p.owner,
        primary_selection_payload_id: p.payload_id,
        primary_selection_source_serial: p.source_serial,
        primary_offer: copy.primary_offer,
    };
    assert(slot_reconciled(cg, previous.clipboard_owner, previous.clipboard_payload_id, previous.clipboard_source_serial, *focus, registry@));
    (sel, n)
}

} // verus!

verus! {

/// The surfaces among the first `k` whose id is active in the registry, in
/// order and unchanged.
pub open spec fn kept_source(ss: Seq<SurfaceSnapshot>, reg: Seq<WaylandSurfaceState>, k: int) -> Seq<SurfaceSnapshot>
    decreases k,
{
    if k <= 0 {
        Seq::empty()
    } else if active_index(reg, ss[k - 1].id@) is Some {
        kept_source(ss, reg, k - 1).push(ss[k - 1])
    } else {
        kept_source(ss, reg, k - 1)
    }
}

/// The ids of the surfaces among the first `k` that are not active.
pub open spec fn dropped_ids(ss: Seq<SurfaceSnapshot>, reg: Seq<WaylandSurfaceState>, k: int) -> Seq<Seq<char>>
    decreases k,
{
    if k <= 0 {
        Seq::empty()
    } else if active_index(reg, ss[k - 1].id@) is Some {
        dropped_ids(ss, reg, k - 1)
    } else {
        dropped_ids(ss, reg, k - 1).push(ss[k - 1].id@)
    }
}

/// How many kept surfaces among the first `k` get a different app id.
pub open spec fn app_id_updates(ss: Seq<SurfaceSnapshot>, reg: Seq<WaylandSurfaceState>, k: int) -> int
    decreases k,
{
    if k <= 0 {
        0
    } else {
        app_id_updates(ss, reg, k - 1) + match active_index(reg, ss[k - 1].id@) {
            Some(j) => if reg[j].app_id@ != ss[k - 1].app_id@ { 1int } else { 0int },
            None => 0int,
        }
    }
}

/// `out` is surface `s` updated from its registry entry `w`: app id, buffer
/// and damage taken from the registry, the pixel handle dropped when the
/// buffer generation changed; placement as given.
pub open spec fn surface_refreshed(out: SurfaceSnapshot, s: SurfaceSnapshot, w: WaylandSurfaceState, placement: SurfacePlacement) -> bool {
    &&& out.id == s.id
    &&& out.app_id@ == w.app_id@
    &&& opt_view(out.buffer_handle) == opt_view(w.buffer_handle)
    &&& out.buffer_generation == w.buffer_generation
    &&& out.damage_rects@ == w.damage_rects@
    &&& out.pixel_transport == (if s.buffer_generation != w.buffer_generation { None } else { s.pixel_transport })
    &&& out.layer_class == s.layer_class
    &&& out.creation_sequence == s.creation_sequence
    &&& out.placement == placement
}

/// `out` is surface `s` refreshed from its active registry entry, placed by
/// that entry's role when `laid_out`, else where it was.
pub open spec fn refreshed_from_registry(out: SurfaceSnapshot, s: SurfaceSnapshot, reg: Seq<WaylandSurfaceState>,
    output: OutputMode, laid_out: bool) -> bool {
    match active_index(reg, s.id@) {
        Some(j) => surface_refreshed(out, s, reg[j], if laid_out { spec_layout(s.placement, reg[j].role, output) } else { s.placement }),
        None => false,
    }
}

/// What reconciling a scene with the registry produced.
#[derive(Debug)]
pub struct SceneReconcileResult {
    pub scene: CompdScene,
    pub dropped_surface_ids: Vec<String>,
    pub updated_app_ids: usize,
    pub selection_handoffs: usize,
}

proof fn lemma_kept_source_active(ss: Seq<SurfaceSnapshot>, reg: Seq<WaylandSurfaceState>, k: int)
    requires
        0 <= k <= ss.len(),
    ensures
        forall|i: int| 0 <= i < kept_source(ss, reg, k).len() ==> #[trigger] active_index(reg, kept_source(ss, reg, k)[i].id@) is Some,
        kept_source(ss, reg, k).len() <= k,
    decreases k,
{
    if k > 0 {
        lemma_kept_source_active(ss, reg, k - 1);
    }
}

proof fn lemma_app_id_updates_bound(ss: Seq<SurfaceSnapshot>, reg: Seq<WaylandSurfaceState>, k: int)
    requires
        0 <= k,
    ensures
        0 <= app_id_updates(ss, reg, k) <= k,
    decreases k,
{
    if k > 0 {
        lemma_app_id_updates_bound(ss, reg, k - 1);
    }
}

pub open spec fn same_focus_fields(x: SurfaceSnapshot, y: SurfaceSnapshot) -> bool {
    x.id@ == y.id@ && x.placement == y.placement
}

/// The fallback focus reads only the ids, visibility and z of surfaces.
proof fn lemma_fallback_same(a: Seq<SurfaceSnapshot>, b: Seq<SurfaceSnapshot>, reg: Seq<WaylandSurfaceState>, k: int)
    requires
        0 <= k <= a.len(),
        a.len() == b.len(),
        forall|i: int| 0 <= i < a.len() ==> #[trigger] same_focus_fields(a[i], b[i]),
    ensures
        fallback_focus_upto(a, reg, k) == fallback_focus_upto(b, reg, k),
    decreases k,
{
    if k > 0 {
        lemma_fallback_same(a, b, reg, k - 1);
        lemma_fallback_bounds(a, reg, k - 1);
        assert(same_focus_fields(a[k - 1], b[k - 1]));
        if let Some(p) = fallback_focus_upto(a, reg, k - 1) {
            assert(same_focus_fields(a[p], b[p]));
        }
    }
}

/// The registry reports a surface with this id mapped with a buffer.
pub open spec fn registry_has_active(reg: Seq<WaylandSurfaceState>, id: Seq<char>) -> bool {
    exists|j: int| 0 <= j < reg.len() && is_active(reg[j]) && #[trigger] reg[j].id@ == id
}

/// The surfaces the registry reports active.
pub open spec fn active_in(reg: Seq<WaylandSurfaceState>) -> spec_fn(SurfaceSnapshot) -> bool {
    |s: SurfaceSnapshot| registry_has_active(reg, s.id@)
}

/// The surfaces the registry does not report active.
pub open spec fn inactive_in(reg: Seq<WaylandSurfaceState>) -> spec_fn(SurfaceSnapshot) -> bool {
    |s: SurfaceSnapshot| !registry_has_active(reg, s.id@)
}

pub open spec fn surface_id_of() -> spec_fn(SurfaceSnapshot) -> Seq<char> {
    |s: SurfaceSnapshot| s.id@
}

proof fn lemma_active_index_exists(reg: Seq<WaylandSurfaceState>, id: Seq<char>, k: int)
    requires
        0 <= k <= reg.len(),
    ensures
        active_index_upto(reg, id, k) is Some <==> exists|j: int| 0 <= j < k && is_active(reg[j]) && #[trigger] reg[j].id@ == id,
    decreases k,
{
    if k > 0 {
        lemma_active_index_exists(reg, id, k - 1);
        if is_active(reg[k - 1]) && reg[k - 1].id@ == id {
            assert(reg[k - 1].id@ == id);
        } else {
            assert forall|j: int| 0 <= j < k && is_active(reg[j]) && #[trigger] reg[j].id@ == id implies j < k - 1 by {}
        }
    }
}

proof fn lemma_kept_is_filter(ss: Seq<SurfaceSnapshot>, reg: Seq<WaylandSurfaceState>, k: int)
    requires
        0 <= k <= ss.len(),
    ensures
        kept_source(ss, reg, k) == ss.take(k).filter(active_in(reg)),
        dropped_ids(ss, reg, k) == ss.take(k).filter(inactive_in(reg)).map_values(surface_id_of()),
    decreases k,
{
    if k == 0 {
        reveal(Seq::filter);
        assert(ss.take(0) =~= Seq::<SurfaceSnapshot>::empty());
        assert(ss.take(0).filter(inactive_in(reg)).map_values(surface_id_of()) =~= Seq::<Seq<char>>::empty());
    } else {
        lemma_kept_is_filter(ss, reg, k - 1);
        lemma_active_index_exists(reg, ss[k - 1].id@, reg.len() as int);
        reveal(Seq::filter);
        let t = ss.take(k);
        assert(t.len() == k);
        assert(t.drop_last() =~= ss.take(k - 1));
        assert(t.last() == ss[k - 1]);
        let a0 = ss.take(k - 1).filter(active_in(reg));
        let f0 = ss.take(k - 1).filter(inactive_in(reg));
        assert(t.filter(active_in(reg)) == (if active_in(reg)(t.last()) { t.drop_last().filter(active_in(reg)).push(t.last()) }
            else { t.drop_last().filter(active_in(reg)) }));
        assert(t.filter(inactive_in(reg)) == (if inactive_in(reg)(t.last()) { t.drop_last().filter(inactive_in(reg)).push(t.last()) }
            else { t.drop_last().filter(inactive_in(reg)) }));
        if registry_has_active(reg, ss[k - 1].id@) {
            assert(active_index(reg, ss[k - 1].id@) is Some);
            assert(t.filter(active_in(reg)) == a0.push(ss[k - 1]));
            assert(t.filter(inactive_in(reg)) == f0);
        } else {
            assert(active_index(reg, ss[k - 1].id@) is None);
            assert(t.filter(active_in(reg)) == a0);
            assert(t.filter(inactive_in(reg)) == f0.push(ss[k - 1]));
            assert(f0.push(ss[k - 1]).map_values(surface_id_of()) =~= f0.map_values(surface_id_of()).push(ss[k - 1].id@));
        }
    }
}

/// Reconciling a scene with the registry keeps exactly the surfaces the
/// registry reports mapped with a buffer, in the scene's order, and drops
/// the ids of the others, in the scene's order.
pub proof fn law_reconcile_keeps_active_surfaces_in_order(ss: Seq<SurfaceSnapshot>, reg: Seq<WaylandSurfaceState>)
    ensures
        kept_source(ss, reg, ss.len() as int) == ss.filter(active_in(reg)),
        dropped_ids(ss, reg, ss.len() as int) == ss.filter(inactive_in(reg)).map_values(surface_id_of()),
{
    lemma_kept_is_filter(ss, reg, ss.len() as int);
    assert(ss.take(ss.len() as int) =~= ss);
}

/// Brings a scene in line with the surfaces waylandd reports: surfaces
/// that are no longer mapped with a buffer are dropped (their ids
/// reported), the rest take app id, buffer and damage from the registry and
/// lose a pixel handle of an older buffer generation; focus and selection
/// are reconciled over the kept surfaces; then each kept surface is placed
/// by its role.
pub fn reconcile_scene_with_registry(scene: CompdScene, registry: &SurfaceRegistrySnapshot, output_mode: &OutputMode)
    -> (r: SceneReconcileResult)
    requires
        forall|j: int| 0 <= j < registry.surfaces@.len() ==> #[trigger] layout_in_range(registry.surfaces@[j].role, *output_mode),
    ensures
        ({
            let ss = scene.surfaces@;
            let reg = registry.surfaces@;
            let kept = kept_source(ss, reg, ss.len() as int);
            let focus = spec_reconcile_focus(scene.focus, kept, reg);
            &&& r.scene.surfaces@.len() == kept.len()
            &&& forall|i: int| 0 <= i < kept.len() ==> #[trigger] refreshed_from_registry(r.scene.surfaces@[i], kept[i], reg, *output_mode, true)
            &&& r.dropped_surface_ids.deep_view() == dropped_ids(ss, reg, ss.len() as int)
            &&& r.updated_app_ids as int == app_id_updates(ss, reg, ss.len() as int)
            &&& focus_id(r.scene.focus) == focus
            &&& exists|f: FocusTarget| focus_id(f) == focus
                && selection_reconciled(r.scene.selection, r.selection_handoffs as int, registry.selection, f, reg)
            &&& r.scene.target_output == scene.target_output
            &&& r.scene.scene_epoch == scene.scene_epoch
            &&& r.scene.scene_generation == scene.scene_generation
        }),
{
    let ghost ss = scene.surfaces@;
    let ghost reg = registry.surfaces@;
    let CompdScene { target_output, focus, selection, surfaces, scene_epoch, scene_generation } = scene;
    let _ = selection;
    let n = surfaces.len();
    let mut src = surfaces;
    let mut kept: Vec<SurfaceSnapshot> = Vec::new();
    let mut dropped: Vec<String> = Vec::new();
    let mut updated: usize = 0;
    let mut i: usize = 0;
    while i < n
        invariant
            i <= n == ss.len(),
            src@ == ss.subrange(i as int, n as int),
            reg == registry.surfaces@,
            kept@.len() == kept_source(ss, reg, i as int).len(),
            forall|k: int| 0 <= k < kept@.len() ==> #[trigger] refreshed_from_registry(kept@[k], kept_source(ss, reg, i as int)[k], reg, *output_mode, false),
            dropped.deep_view() == dropped_ids(ss, reg, i as int),
            updated as int == app_id_updates(ss, reg, i as int),
        decreases n - i,
    {
        proof { lemma_app_id_updates_bound(ss, reg, i as int + 1); }
        let mut surface = src.remove(0);
        assert(surface == ss[i as int]);
        match find_active(&registry.surfaces, &surface.id) {
            Some(j) => {
                let w = &registry.surfaces[j];
                if surface.app_id != w.app_id {
                    surface.app_id = w.app_id.clone();
                    updated = updated + 1;
                }
                let changed = surface.buffer_generation != w.buffer_generation;
                surface.buffer_handle = w.buffer_handle.clone();
                surface.buffer_generation = w.buffer_generation;
                let rects = w.damage_rects.clone();
                assert(rects@ =~= w.damage_rects@);
                surface.damage_rects = rects;
                if changed {
                    surface.pixel_transport = None;
                }
                let ghost before = kept@;
                kept.push(surface);
                proof {
                    let ks = kept_source(ss, reg, i as int + 1);
                    assert(ks == kept_source(ss, reg, i as int).push(ss[i as int]));
                    assert forall|k: int| 0 <= k < kept@.len() implies #[trigger] refreshed_from_registry(kept@[k], ks[k], reg, *output_mode, false) by {
                        if k < before.len() {
                            assert(ks[k] == kept_source(ss, reg, i as int)[k]);
                            assert(kept@[k] == before[k]);
                        }
                    }
                }
            },
            None => {
                let ghost before = dropped.deep_view();
                dropped.push(surface.id);
                proof {
                    assert(dropped.deep_view() =~= before.push(ss[i as int].id@));
                }
            },
        }
        i += 1;
        assert(src@ =~= ss.subrange(i as int, n as int));
    }
    let ghost kept_src = kept_source(ss, reg, n as int);
    proof {
        assert forall|k: int| 0 <= k < kept@.len() implies #[trigger] same_focus_fields(kept@[k], kept_src[k]) by {
            assert(refreshed_from_registry(kept@[k], kept_src[k], reg, *output_mode, false));
        }
        lemma_fallback_same(kept@, kept_src, reg, kept@.len() as int);
        lemma_fallback_bounds(kept_src, reg, kept_src.len() as int);
        if let Some(b) = fallback_focus_upto(kept_src, reg, kept_src.len() as int) {
            assert(same_focus_fields(kept@[b], kept_src[b]));
        }
    }
    let new_focus = reconcile_focus(&focus, &kept, &registry.surfaces);
    assert(focus_id(new_focus) == spec_reconcile_focus(focus, kept_src, reg));
    let (new_selection, handoffs) = reconcile_selection(&registry.selection, &new_focus, &registry.surfaces);
    let mut laid: Vec<SurfaceSnapshot> = Vec::new();
    let m = kept.len();
    let mut idx: usize = 0;
    while idx < m
        invariant
            idx <= m == kept_src.len(),
            reg == registry.surfaces@,
            forall|j: int| 0 <= j < reg.len() ==> #[trigger] layout_in_range(reg[j].role, *output_mode),
            kept@.len() == m - idx,
            forall|k: int| 0 <= k < kept@.len() ==> #[trigger] refreshed_from_registry(kept@[k], kept_src[k + idx], reg, *output_mode, false),
            laid@.len() == idx,
            forall|k: int| 0 <= k < idx ==> #[trigger] refreshed_from_registry(laid@[k], kept_src[k], reg, *output_mode, true),
        decreases m - idx,
    {
        let ghost before = kept@;
        let mut s = kept.remove(0);
        assert(refreshed_from_registry(before[0], kept_src[0 + idx as int], reg, *output_mode, false));
        assert(active_index(reg, kept_src[0 + idx as int].id@) is Some);
        assert(before[0] == s);
        let j = match find_active(&registry.surfaces, &s.id) {
            Some(j) => j,
            None => { proof { assert(false); } 0 },
        };
        apply_role_based_layout(&mut s, &registry.surfaces[j].role, output_mode);
        laid.push(s);
        proof {
            assert forall|k: int| 0 <= k < kept@.len() implies #[trigger] refreshed_from_registry(kept@[k], kept_src[k + (idx + 1)], reg, *output_mode, false) by {
                assert(kept@[k] == before[k + 1]);
                assert(kept_src[(k + 1) + idx] == kept_src[k + (idx + 1)]);
            }
        }
        idx += 1;
    }
    SceneReconcileResult {
        scene: CompdScene {
            target_output,
            focus: new_focus,
            selection: new_selection,
            surfaces: laid,
            scene_epoch,
            scene_generation,
        },
        dropped_surface_ids: dropped,
        updated_app_ids: updated,
        selection_handoffs: handoffs,
    }
}

} // verus!

verus! {

/// Eight words per surface for the GPU prefilter: x, y, width, height, z,
/// visibility, and the low 32 bits of buffer generation and creation
/// sequence.
pub open spec fn surface_words(s: SurfaceSnapshot) -> Seq<u32> {
    seq![s.placement.x as u32, s.placement.y as u32, s.placement.width, s.placement.height,
        s.placement.z as u32, if s.placement.visible { 1u32 } else { 0u32 },
        s.buffer_generation as u32, s.creation_sequence as u32]
}

pub fn scene_surface_words(surfaces: &Vec<SurfaceSnapshot>) -> (r: Vec<u32>)
    requires
        8 * surfaces@.len() <= usize::MAX,
    ensures
        r@.len() == 8 * surfaces@.len(),
        forall|i: int, k: int| 0 <= i < surfaces@.len() && 0 <= k < 8 ==> #[trigger] r@[8 * i + k] == surface_words(surfaces@[i])[k],
{
    let mut words: Vec<u32> = Vec::new();
    let mut i: usize = 0;
    while i < surfaces.len()
        invariant
            i <= surfaces@.len(),
            words@.len() == 8 * i,
            forall|j: int, k: int| 0 <= j < i && 0 <= k < 8 ==> #[trigger] words@[8 * j + k] == surface_words(surfaces@[j])[k],
        decreases surfaces@.len() - i,
    {
        let s = &surfaces[i];
        let ghost before = words@;
        words.push(s.placement.x as u32);
        words.push(s.placement.y as u32);
        words.push(s.placement.width);
        words.push(s.placement.height);
        words.push(s.placement.z as u32);
        words.push(if s.placement.visible { 1u32 } else { 0u32 });
        words.push(s.buffer_generation as u32);
        words.push(s.creation_sequence as u32);
        proof {
            assert forall|j: int, k: int| 0 <= j < i + 1 && 0 <= k < 8 implies #[trigger] words@[8 * j + k] == surface_words(surfaces@[j])[k] by {
                if j < i {
                    assert(words@[8 * j + k] == before[8 * j + k]);
                }
            }
        }
        i += 1;
    }
    words
}

/// Surface count and commit id of a committed scene.
#[derive(Debug, Clone, Copy, PartialEq, Eq, Structural)]
pub struct SceneCommitReceipt {
    pub surface_count: usize,
    pub commit_id: u64,
}

/// The scene a displayd snapshot describes.
pub fn scene_from_snapshot(snapshot: &CommittedSceneState) -> (r: CompdScene)
    ensures
        r.target_output == (match snapshot.target { CommitTarget::Output { name } => name }),
        r.focus == snapshot.focus,
        r.selection.deep_view() == snapshot.selection.deep_view(),
        r.surfaces.deep_view() == snapshot.surfaces.deep_view(),
        r.scene_epoch == snapshot.scene_epoch,
        r.scene_generation == snapshot.scene_generation,
{
    let surfaces = snapshot.surfaces.clone();
    assert(surfaces.deep_view() =~= snapshot.surfaces.deep_view());
    CompdScene {
        target_output: match &snapshot.target { CommitTarget::Output { name } => name.clone() },
        focus: snapshot.focus.clone(),
        selection: snapshot.selection.clone(),
        surfaces,
        scene_epoch: snapshot.scene_epoch,
        scene_generation: snapshot.scene_generation,
    }
}

pub open spec fn snapshot_output(s: CommittedSceneState) -> Seq<char> {
    match s.target { CommitTarget::Output { name } => name@ }
}

/// The commit id displayd gave a reconciled scene, read from its snapshot:
/// there must be one, for the same output and version, with a non-zero id.
pub fn reconciliation_commit_id(snapshot: Option<CommittedSceneState>, relay: &RelayScene) -> (r: Result<u64, String>)
    ensures
        match snapshot {
            None => r is Err,
            Some(s) => if snapshot_output(s) == relay.scene.target_output@ && s.scene_epoch == relay.scene.scene_epoch
                && s.scene_generation == relay.scene.scene_generation && s.commit_id != 0 {
                r == Ok::<u64, String>(s.commit_id)
            } else {
                r is Err
            },
        },
        snapshot is None ==> (r matches Err(m) && m@ == "displayd reconciliation produced no scene snapshot"@),
{
    let snapshot = match snapshot {
        Some(s) => s,
        None => { return Err(String::from_str("displayd reconciliation produced no scene snapshot")); }
    };
    let output = match &snapshot.target { CommitTarget::Output { name } => name };
    if *output != relay.scene.target_output {
        let mut m = chars_of("displayd reconciliation snapshot target mismatch: ");
        push_str(&mut m, output.as_str());
        push_str(&mut m, " != ");
        push_str(&mut m, relay.scene.target_output.as_str());
        return Err(string_from_chars(&m));
    }
    if snapshot.scene_epoch != relay.scene.scene_epoch || snapshot.scene_generation != relay.scene.scene_generation {
        let mut m = chars_of("displayd reconciliation snapshot version mismatch: epoch=");
        let a = decimal_chars(snapshot.scene_epoch);
        push_chars(&mut m, &a);
        push_str(&mut m, " generation=");
        let b = decimal_chars(snapshot.scene_generation);
        push_chars(&mut m, &b);
        push_str(&mut m, " expected epoch=");
        let c = decimal_chars(relay.scene.scene_epoch);
        push_chars(&mut m, &c);
        push_str(&mut m, " generation=");
        let d = decimal_chars(relay.scene.scene_generation);
        push_chars(&mut m, &d);
        return Err(string_from_chars(&m));
    }
    if snapshot.commit_id == 0 {
        return Err(String::from_str("displayd reconciliation snapshot has invalid commit id"));
    }
    Ok(snapshot.commit_id)
}

/// Whether displayd already holds this scene, read from its snapshot: no
/// snapshot, or one of another output or version, is no match; a match with
/// a zero commit id is an error; otherwise its receipt.
pub fn matching_snapshot_receipt(snapshot: Option<CommittedSceneState>, relay: &RelayScene)
    -> (r: Result<Option<SceneCommitReceipt>, String>)
    ensures
        match snapshot {
            None => r == Ok::<Option<SceneCommitReceipt>, String>(None),
            Some(s) => if !(snapshot_output(s) == relay.scene.target_output@ && s.scene_epoch == relay.scene.scene_epoch
                && s.scene_generation == relay.scene.scene_generation) {
                r == Ok::<Option<SceneCommitReceipt>, String>(None)
            } else if s.commit_id == 0 {
                r matches Err(m) && m@ == "matching displayd scene snapshot has invalid commit id"@
            } else {
                r == Ok::<Option<SceneCommitReceipt>, String>(Some(SceneCommitReceipt {
                    surface_count: s.surfaces@.len() as usize,
                    commit_id: s.commit_id,
                }))
            },
        },
{
    let snapshot = match snapshot {
        Some(s) => s,
        None => { return Ok(None); }
    };
    let output = match &snapshot.target { CommitTarget::Output { name } => name };
    if *output != relay.scene.target_output || snapshot.scene_epoch != relay.scene.scene_epoch
        || snapshot.scene_generation != relay.scene.scene_generation {
        return Ok(None);
    }
    if snapshot.commit_id == 0 {
        return Err(String::from_str("matching displayd scene snapshot has invalid commit id"));
    }
    Ok(Some(SceneCommitReceipt { surface_count: snapshot.surfaces.len(), commit_id: snapshot.commit_id }))
}

/// The event that reports a relayed scene as committed.
pub fn scene_committed_event(relay: &RelayScene, receipt: SceneCommitReceipt) -> (r: DisplayEvent)
    ensures
        r matches DisplayEvent::SceneCommitted { target, focus, selection, surface_count, commit_id, publication }
        && target == (CommitTarget::Output { name: relay.scene.target_output })
        && focus == relay.scene.focus
        && selection.deep_view() == relay.scene.selection.deep_view()
        && surface_count == receipt.surface_count && commit_id == receipt.commit_id && publication is None,
{
    DisplayEvent::SceneCommitted {
        target: CommitTarget::Output { name: relay.scene.target_output.clone() },
        focus: relay.scene.focus.clone(),
        selection: relay.scene.selection.clone(),
        surface_count: receipt.surface_count,
        commit_id: receipt.commit_id,
        publication: None,
    }
}

} // verus!

verus! {

/// Which relay command a scene arrived in.
#[derive(Debug, Clone, Copy, PartialEq, Eq, Structural)]
pub enum RelayKind {
    Commit,
    Reconcile,
}

/// A display command split for the relay: the scene it carries (with the
/// display epoch of a reconciliation), or the command itself when it
/// carries none and is forwarded as it is.
pub fn relay_scene_from_command(command: DisplayCommand) -> (r: Result<(RelayScene, Option<u64>), DisplayCommand>)
    ensures
        match command {
            DisplayCommand::CommitScene { target, focus, selection, surfaces, pixel_payloads, scene_epoch, scene_generation } =>
                r matches Ok((relay, epoch)) && epoch is None
                && relay.scene.target_output == (match target { CommitTarget::Output { name } => name })
                && relay.scene.focus == focus && relay.scene.selection == selection && relay.scene.surfaces == surfaces
                && relay.pixel_payloads == pixel_payloads
                && relay.scene.scene_epoch == scene_epoch && relay.scene.scene_generation == scene_generation,
            DisplayCommand::ReconcileScene { epoch, scene_epoch, scene_generation, target, focus, selection, surfaces, pixel_payloads } =>
                r matches Ok((relay, e)) && e == Some(epoch)
                && relay.scene.target_output == (match target { CommitTarget::Output { name } => name })
                && relay.scene.focus == focus && relay.scene.selection == selection && relay.scene.surfaces == surfaces
                && relay.pixel_payloads == pixel_payloads
                && relay.scene.scene_epoch == scene_epoch && relay.scene.scene_generation == scene_generation,
            _ => r == Err::<(RelayScene, Option<u64>), DisplayCommand>(command),
        },
{
    match command {
        DisplayCommand::CommitScene { target, focus, selection, surfaces, pixel_payloads, scene_epoch, scene_generation } => {
            let target_output = match target { CommitTarget::Output { name } => name };
            Ok((RelayScene {
                scene: CompdScene { target_output, focus, selection, surfaces, scene_epoch, scene_generation },
                pixel_payloads,
            }, None))
        },
        DisplayCommand::ReconcileScene { epoch, scene_epoch, scene_generation, target, focus, selection, surfaces, pixel_payloads } => {
            let target_output = match target { CommitTarget::Output { name } => name };
            Ok((RelayScene {
                scene: CompdScene { target_output, focus, selection, surfaces, scene_epoch, scene_generation },
                pixel_payloads,
            }, Some(epoch)))
        },
        other => Err(other),
    }
}

pub open spec fn scene_word(kind: RelayKind) -> Seq<char> {
    match kind {
        RelayKind::Commit => "scene"@,
        RelayKind::Reconcile => "reconciliation scene"@,
    }
}

/// Why a malformed scene is refused.
pub open spec fn malformed_reason(kind: RelayKind, message: Seq<char>) -> Seq<char> {
    "compd rejected malformed "@ + scene_word(kind) + ": "@ + message
}

/// Why a stale scene is refused, with its version and the floor.
pub open spec fn stale_reason(kind: RelayKind, version: (u64, u64), floor: (u64, u64)) -> Seq<char> {
    "compd rejected stale "@ + scene_word(kind) + " epoch="@ + dec(version.0 as int) + " generation="@
        + dec(version.1 as int) + " floor=("@ + dec(floor.0 as int) + ", "@ + dec(floor.1 as int) + ")"@
}

fn scene_word_exec(kind: RelayKind) -> (r: &'static str)
    ensures
        r@ == scene_word(kind),
{
    match kind {
        RelayKind::Commit => "scene",
        RelayKind::Reconcile => "reconciliation scene",
    }
}

/// Admits a scene for relaying: puts it in canonical order, then refuses it
/// when it is malformed (its first defect) or stale for the relay state.
pub fn admit_relay_scene(relay: &mut RelayScene, state: &CompdRelayState, kind: RelayKind) -> (r: Result<RelayResourceUsage, String>)
    ensures
        final(relay).scene.surfaces@.to_multiset() == old(relay).scene.surfaces@.to_multiset(),
        surfaces_sorted(final(relay).scene.surfaces@),
        final(relay).pixel_payloads@.to_multiset() == old(relay).pixel_payloads@.to_multiset(),
        payloads_sorted(final(relay).pixel_payloads@),
        final(relay).scene.target_output == old(relay).scene.target_output,
        final(relay).scene.focus == old(relay).scene.focus,
        final(relay).scene.selection == old(relay).scene.selection,
        final(relay).spec_version() == old(relay).spec_version(),
        match spec_relay_defect(*final(relay), true) {
            Some((k, i)) => r matches Err(m) && m@ == malformed_reason(kind, relay_defect_message(*final(relay), k, i)),
            None => if spec_should_reject(*state, final(relay).spec_version()) {
                r matches Err(m) && m@ == stale_reason(kind, final(relay).spec_version(), spec_version_floor(*state))
            } else {
                r == Ok::<RelayResourceUsage, String>(spec_relay_usage(*final(relay)))
            },
        },
{
    canonicalize_relay_scene(relay);
    let usage = match validate_relay_scene(relay, true) {
        Ok(u) => u,
        Err(e) => {
            let mut m = chars_of("compd rejected malformed ");
            push_str(&mut m, scene_word_exec(kind));
            push_str(&mut m, ": ");
            push_str(&mut m, e.message.as_str());
            return Err(string_from_chars(&m));
        },
    };
    let version = relay.version();
    if state.should_reject_version(version) {
        let floor = state.version_floor();
        let mut m = chars_of("compd rejected stale ");
        push_str(&mut m, scene_word_exec(kind));
        push_str(&mut m, " epoch=");
        let a = decimal_chars(version.0);
        push_chars(&mut m, &a);
        push_str(&mut m, " generation=");
        let b = decimal_chars(version.1);
        push_chars(&mut m, &b);
        push_str(&mut m, " floor=(");
        let c = decimal_chars(floor.0);
        push_chars(&mut m, &c);
        push_str(&mut m, ", ");
        let d = decimal_chars(floor.1);
        push_chars(&mut m, &d);
        push_str(&mut m, ")");
        return Err(string_from_chars(&m));
    }
    Ok(usage)
}

/// A scene is being retried when it has exactly the version of the pending
/// deferred scene.
pub fn is_retrying_deferred(state: &CompdRelayState, relay: &RelayScene) -> (r: bool)
    ensures
        r == (state.pending matches Some(p) && p.version == relay.spec_version()),
{
    match &state.pending {
        Some(p) => p.version.0 == relay.scene.scene_epoch && p.version.1 == relay.scene.scene_generation,
        None => false,
    }
}

/// Whether a reconciliation answer accepts this scene: the same display
/// epoch and the scene's generation.
pub fn reconciled_event_matches(event: &DisplayEvent, epoch: u64, relay: &RelayScene) -> (r: bool)
    ensures
        r == (event matches DisplayEvent::Reconciled { epoch: e, scene_generation: g }
            && e == epoch && g == relay.scene.scene_generation),
{
    match event {
        DisplayEvent::Reconciled { epoch: e, scene_generation: g } => *e == epoch && *g == relay.scene.scene_generation,
        _ => false,
    }
}

fn demo_surface(id: &str, app_id: &str, placement: SurfacePlacement) -> (r: SurfaceSnapshot)
    ensures
        r.id@ == id@ && r.app_id@ == app_id@ && r.placement == placement,
        r.buffer_handle is None && r.buffer_generation == 0 && r.damage_rects@.len() == 0,
        r.pixel_transport is None && r.layer_class == 0 && r.creation_sequence == 0,
{
    SurfaceSnapshot {
        id: String::from_str(id),
        app_id: String::from_str(app_id),
        placement,
        buffer_handle: None,
        buffer_generation: 0,
        damage_rects: Vec::new(),
        pixel_transport: None,
        layer_class: 0,
        creation_sequence: 0,
    }
}

/// An empty selection: no owners, payloads, serials or offers.
pub fn empty_selection() -> (r: WaylandSelectionState)
    ensures
        r.clipboard_owner is None && r.clipboard_payload_id is None && r.clipboard_source_serial is None
            && r.clipboard_offer is None && r.primary_selection_owner is None
            && r.primary_selection_payload_id is None && r.primary_selection_source_serial is None
            && r.primary_offer is None,
{
    WaylandSelectionState {
        clipboard_owner: None,
        clipboard_payload_id: None,
        clipboard_source_serial: None,
        clipboard_offer: None,
        primary_selection_owner: None,
        primary_selection_payload_id: None,
        primary_selection_source_serial: None,
        primary_offer: None,
    }
}

/// The demo scene: a terminal focused over a wallpaper on `eDP-1`.
pub fn mock_demo_scene() -> (r: CompdScene)
    ensures
        r.target_output@ == "eDP-1"@,
        r.focus matches FocusTarget::Surface { id } && id@ == "konsole-1"@,
        r.surfaces@.len() == 2,
        r.surfaces@[0].id@ == "konsole-1"@ && r.surfaces@[0].app_id@ == "org.kde.konsole"@,
        r.surfaces@[0].placement == (SurfacePlacement { x: 100, y: 100, width: 800, height: 600, z: 10, visible: true }),
        r.surfaces@[1].id@ == "background-1"@ && r.surfaces@[1].app_id@ == "org.kde.plasmashell.wallpaper"@,
        r.surfaces@[1].placement == (SurfacePlacement { x: 0, y: 0, width: 1920, height: 1080, z: 0, visible: true }),
        r.scene_epoch == 1 && r.scene_generation == 1,
{
    let mut surfaces: Vec<SurfaceSnapshot> = Vec::new();
    surfaces.push(demo_surface("konsole-1", "org.kde.konsole",
        SurfacePlacement { x: 100, y: 100, width: 800, height: 600, z: 10, visible: true }));
    surfaces.push(demo_surface("background-1", "org.kde.plasmashell.wallpaper",
        SurfacePlacement { x: 0, y: 0, width: 1920, height: 1080, z: 0, visible: true }));
    CompdScene {
        target_output: String::from_str("eDP-1"),
        focus: FocusTarget::Surface { id: String::from_str("konsole-1") },
        selection: empty_selection(),
        surfaces,
        scene_epoch: 1,
        scene_generation: 1,
    }
}

/// Renders an optional owner for a log line: the id, or `none`.
pub fn format_owner(owner: &Option<String>) -> (r: String)
    ensures
        r@ == (match owner { Some(o) => o@, None => "none"@ }),
{
    match owner {
        Some(o) => o.clone(),
        None => String::from_str("none"),
    }
}

} // verus!
