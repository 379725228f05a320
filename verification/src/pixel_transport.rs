//! Generation-bound pixel payloads handed from clients to the renderer, and
//! the store that keeps only the newest payload per client surface.
use vstd::prelude::*;

verus! {

/// Identity of one pixel payload: the client, its surface, and the buffer and
/// scene generations it belongs to.
#[derive(Debug, PartialEq, Eq, PartialOrd, Ord, Hash, Default)]
pub struct PixelTransportHandle {
    pub client_id: u64,
    pub surface_id: String,
    pub buffer_generation: u64,
    pub scene_generation: u64,
}

impl DeepView for PixelTransportHandle {
    type V = (u64, Seq<char>, u64, u64);

    open spec fn deep_view(&self) -> Self::V {
        (self.client_id, self.surface_id@, self.buffer_generation, self.scene_generation)
    }
}

impl Clone for PixelTransportHandle {
    fn clone(&self) -> (r: Self)
        ensures
            r == *self,
    {
        PixelTransportHandle {
            client_id: self.client_id,
            surface_id: self.surface_id.clone(),
            buffer_generation: self.buffer_generation,
            scene_generation: self.scene_generation,
        }
    }
}

/// Raw 32-bit pixels of one surface buffer.
#[derive(Debug, PartialEq, Eq, Default)]
pub struct PixelTransportPayload {
    pub handle: PixelTransportHandle,
    pub pixels: Vec<u8>,
    pub width: u32,
    pub height: u32,
    pub stride: u32,
    pub format: u32,
}

impl DeepView for PixelTransportPayload {
    type V = ((u64, Seq<char>, u64, u64), Seq<u8>, u32, u32, u32, u32);

    open spec fn deep_view(&self) -> Self::V {
        (self.handle.deep_view(), self.pixels@, self.width, self.height, self.stride, self.format)
    }
}

impl Clone for PixelTransportPayload {
    fn clone(&self) -> (r: Self)
        ensures
            r.deep_view() == self.deep_view(),
    {
        let pixels = self.pixels.clone();
        assert(pixels@ =~= self.pixels@);
        PixelTransportPayload {
            handle: self.handle.clone(),
            pixels,
            width: self.width,
            height: self.height,
            stride: self.stride,
            format: self.format,
        }
    }
}

} // verus!

verus! {

/// Why a payload was refused.
#[derive(Debug, Clone, PartialEq, Eq)]
pub enum PixelTransportError {
    StaleGeneration { current: PixelTransportHandle, incoming: PixelTransportHandle },
    InvalidPayload { reason: String },
}

/// The text of a handle, laid out as `Debug` lays out the struct; the
/// surface id is quoted as it is.
pub open spec fn handle_text(h: PixelTransportHandle) -> Seq<char> {
    "PixelTransportHandle { client_id: "@ + crate::text::decimal_digits(h.client_id as nat) + ", surface_id: \""@
        + h.surface_id@ + "\", buffer_generation: "@ + crate::text::decimal_digits(h.buffer_generation as nat)
        + ", scene_generation: "@ + crate::text::decimal_digits(h.scene_generation as nat) + " }"@
}

/// The text of a refusal, laid out as `Debug` lays out the enum; strings
/// are quoted as they are.
pub open spec fn transport_error_text(e: PixelTransportError) -> Seq<char> {
    match e {
        PixelTransportError::StaleGeneration { current, incoming } =>
            "StaleGeneration { current: "@ + handle_text(current) + ", incoming: "@ + handle_text(incoming) + " }"@,
        PixelTransportError::InvalidPayload { reason } => "InvalidPayload { reason: \""@ + reason@ + "\" }"@,
    }
}

fn push_handle_text(m: &mut Vec<char>, h: &PixelTransportHandle)
    ensures
        final(m)@ == old(m)@ + handle_text(*h),
{
    let ghost start = m@;
    crate::text::push_str(m, "PixelTransportHandle { client_id: ");
    let a = crate::text::decimal_chars(h.client_id);
    crate::text::push_chars(m, &a);
    crate::text::push_str(m, ", surface_id: \"");
    crate::text::push_str(m, h.surface_id.as_str());
    crate::text::push_str(m, "\", buffer_generation: ");
    let b = crate::text::decimal_chars(h.buffer_generation);
    crate::text::push_chars(m, &b);
    crate::text::push_str(m, ", scene_generation: ");
    let c = crate::text::decimal_chars(h.scene_generation);
    crate::text::push_chars(m, &c);
    crate::text::push_str(m, " }");
    assert(m@ =~= start + handle_text(*h));
}

impl PixelTransportError {
    /// The refusal as text (see `transport_error_text`).
    pub fn text(&self) -> (r: String)
        ensures
            r@ == transport_error_text(*self),
    {
        let mut m: Vec<char> = Vec::new();
        match self {
            PixelTransportError::StaleGeneration { current, incoming } => {
                crate::text::push_str(&mut m, "StaleGeneration { current: ");
                push_handle_text(&mut m, current);
                crate::text::push_str(&mut m, ", incoming: ");
                push_handle_text(&mut m, incoming);
                crate::text::push_str(&mut m, " }");
            },
            PixelTransportError::InvalidPayload { reason } => {
                crate::text::push_str(&mut m, "InvalidPayload { reason: \"");
                crate::text::push_str(&mut m, reason.as_str());
                crate::text::push_str(&mut m, "\" }");
            },
        }
        assert(m@ =~= transport_error_text(*self));
        crate::text::string_from_chars(&m)
    }
}

/// The key under which a payload is kept: its client and surface.
pub open spec fn surface_key(h: PixelTransportHandle) -> (u64, Seq<char>) {
    (h.client_id, h.surface_id@)
}

/// `left` belongs to a strictly later (scene, buffer) generation than `right`;
/// handles are compared through their views.
pub open spec fn spec_is_newer(left: (u64, Seq<char>, u64, u64), right: (u64, Seq<char>, u64, u64)) -> bool {
    left.3 > right.3 || (left.3 == right.3 && left.2 > right.2)
}

/// Bytes a payload must at least hold: `stride * height`.
pub open spec fn required_payload_bytes(p: PixelTransportPayload) -> int {
    p.stride as int * p.height as int
}

/// The first problem with a payload's shape, if any.
pub open spec fn payload_defect(p: PixelTransportPayload) -> Option<Seq<char>> {
    if p.width == 0 || p.height == 0 {
        Some("payload dimensions must be non-zero"@)
    } else if (p.stride as int) < (if p.width as int * 4 > u32::MAX { u32::MAX as int } else { p.width as int * 4 }) {
        Some("payload stride is smaller than 32-bit pixel width"@)
    } else if (p.pixels@.len() as int) < required_payload_bytes(p) {
        Some("payload byte length is smaller than stride * height"@)
    } else {
        None
    }
}

/// Checks the shape of a payload: non-zero dimensions, a stride that holds a
/// row of 32-bit pixels, and at least `stride * height` bytes.
pub fn validate_payload(payload: &PixelTransportPayload) -> (r: Result<(), PixelTransportError>)
    ensures
        payload_defect(*payload) is None ==> r is Ok,
        payload_defect(*payload) matches Some(m) ==> (r matches Err(PixelTransportError::InvalidPayload { reason }) && reason@ == m),
{
    if payload.width == 0 || payload.height == 0 {
        return Err(PixelTransportError::InvalidPayload {
            reason: String::from_str("payload dimensions must be non-zero"),
        });
    }
    let row_bytes: u64 = payload.width as u64 * 4;
    let min_stride: u64 = if row_bytes > u32::MAX as u64 { u32::MAX as u64 } else { row_bytes };
    if (payload.stride as u64) < min_stride {
        return Err(PixelTransportError::InvalidPayload {
            reason: String::from_str("payload stride is smaller than 32-bit pixel width"),
        });
    }
    let stride64 = payload.stride as u64;
    let height64 = payload.height as u64;
    assert(stride64 * height64 <= u32::MAX as u64 * u32::MAX as u64) by (nonlinear_arith)
        requires stride64 <= u32::MAX as u64, height64 <= u32::MAX as u64;
    let required: u64 = stride64 * height64;
    if (payload.pixels.len() as u64) < required {
        return Err(PixelTransportError::InvalidPayload {
            reason: String::from_str("payload byte length is smaller than stride * height"),
        });
    }
    Ok(())
}

/// Whether `left` belongs to a strictly later generation than `right`.
pub fn is_newer_handle(left: &PixelTransportHandle, right: &PixelTransportHandle) -> (r: bool)
    ensures
        r == spec_is_newer(left.deep_view(), right.deep_view()),
{
    left.scene_generation > right.scene_generation
        || (left.scene_generation == right.scene_generation
            && left.buffer_generation > right.buffer_generation)
}

/// The store's representation invariant: payload keys are distinct, and the
/// ghost map holds exactly those keys, each with its payload.
pub open spec fn pair_inv(
    payloads: Seq<PixelTransportPayload>,
    contents: Map<(u64, Seq<char>), <PixelTransportPayload as DeepView>::V>,
) -> bool {
    &&& forall|i: int, j: int| 0 <= i < j < payloads.len()
        ==> surface_key(#[trigger] payloads[i].handle) != surface_key(#[trigger] payloads[j].handle)
    &&& forall|i: int| 0 <= i < payloads.len()
        ==> #[trigger] contents.contains_key(surface_key(payloads[i].handle))
            && contents[surface_key(payloads[i].handle)] == payloads[i].deep_view()
    &&& forall|k: (u64, Seq<char>)| #[trigger] contents.contains_key(k)
        ==> exists|i: int| 0 <= i < payloads.len() && surface_key(payloads[i].handle) == k
}

/// The entries of `m` that belong to clients other than `client_id`.
pub open spec fn without_client(
    m: Map<(u64, Seq<char>), <PixelTransportPayload as DeepView>::V>,
    client_id: u64,
) -> Map<(u64, Seq<char>), <PixelTransportPayload as DeepView>::V> {
    m.restrict(m.dom().filter(|k: (u64, Seq<char>)| k.0 != client_id))
}

pub proof fn lemma_without_client_contains(
    m: Map<(u64, Seq<char>), <PixelTransportPayload as DeepView>::V>,
    client_id: u64,
    k: (u64, Seq<char>),
)
    ensures
        without_client(m, client_id).contains_key(k) == (m.contains_key(k) && k.0 != client_id),
        without_client(m, client_id).contains_key(k) ==> without_client(m, client_id)[k] == m[k],
{
}

/// What a lookup by `h` finds in the stored payloads `m`: the payload of
/// `h`'s surface when it carries exactly `h`'s generations.
pub open spec fn found_under(
    m: Map<(u64, Seq<char>), <PixelTransportPayload as DeepView>::V>,
    h: PixelTransportHandle,
) -> Option<<PixelTransportPayload as DeepView>::V> {
    if m.contains_key(surface_key(h)) && m[surface_key(h)].0 == h.deep_view() {
        Some(m[surface_key(h)])
    } else {
        None
    }
}

/// Once `submit` accepts a payload (the store becomes `before` with the
/// payload stored under its surface), a lookup by the payload's handle finds
/// exactly that payload, a lookup by any other generation of the same
/// surface finds nothing, and lookups of other surfaces find what they found
/// before.
pub proof fn law_lookup_after_accepted_submit(
    before: Map<(u64, Seq<char>), <PixelTransportPayload as DeepView>::V>,
    p: PixelTransportPayload,
    h: PixelTransportHandle,
)
    ensures
        ({
            let after = before.insert(surface_key(p.handle), p.deep_view());
            &&& found_under(after, p.handle) == Some(p.deep_view())
            &&& surface_key(h) == surface_key(p.handle) && h.deep_view() != p.handle.deep_view()
                ==> found_under(after, h) is None
            &&& surface_key(h) != surface_key(p.handle) ==> found_under(after, h) == found_under(before, h)
        }),
{
}

/// Keeps the newest payload of every client surface.
pub struct PixelTransportStore {
    payloads: Vec<PixelTransportPayload>,
    contents: Ghost<Map<(u64, Seq<char>), <PixelTransportPayload as DeepView>::V>>,
}

impl PixelTransportStore {
    #[verifier::type_invariant]
    spec fn store_inv(self) -> bool {
        pair_inv(self.payloads@, self.contents@)
    }

    /// The stored payloads, by client and surface.
    pub closed spec fn view(&self) -> Map<(u64, Seq<char>), <PixelTransportPayload as DeepView>::V> {
        self.contents@
    }

    pub fn new() -> (r: Self)
        ensures
            r.view() == Map::<(u64, Seq<char>), <PixelTransportPayload as DeepView>::V>::empty(),
    {
        PixelTransportStore { payloads: Vec::new(), contents: Ghost(Map::empty()) }
    }

    fn position_of(&self, client_id: u64, surface_id: &String) -> (r: Option<usize>)
        ensures
            r matches Some(i) ==> i < self.payloads@.len()
                && surface_key(self.payloads@[i as int].handle) == (client_id, surface_id@),
            r is None ==> forall|i: int| 0 <= i < self.payloads@.len()
                ==> surface_key(#[trigger] self.payloads@[i].handle) != (client_id, surface_id@),
    {
        let mut i: usize = 0;
        while i < self.payloads.len()
            invariant
                i <= self.payloads@.len(),
                forall|k: int| 0 <= k < i ==> surface_key(#[trigger] self.payloads@[k].handle) != (client_id, surface_id@),
            decreases self.payloads@.len() - i,
        {
            if self.payloads[i].handle.client_id == client_id && self.payloads[i].handle.surface_id == *surface_id {
                return Some(i);
            }
            i += 1;
        }
        None
    }

    /// The handle of the payload held for a client surface, if any.
    pub fn latest_handle_for_surface(&self, client_id: u64, surface_id: &String) -> (r: Option<PixelTransportHandle>)
        ensures
            self.view().contains_key((client_id, surface_id@)) ==> (r matches Some(h)
                && h.deep_view() == self.view()[(client_id, surface_id@)].0),
            !self.view().contains_key((client_id, surface_id@)) ==> r is None,
    {
        proof { use_type_invariant(self); }
        match self.position_of(client_id, surface_id) {
            Some(i) => Some(self.payloads[i].handle.clone()),
            None => {
                proof {
                    if self.contents@.contains_key((client_id, surface_id@)) {
                        let k = (client_id, surface_id@);
                        let j = choose|j: int| 0 <= j < self.payloads@.len() && surface_key(self.payloads@[j].handle) == k;
                        assert(surface_key(self.payloads@[j].handle) != k);
                    }
                }
                None
            }
        }
    }

    /// Stores a payload unless its shape is invalid or the surface already holds
    /// a payload of a later generation; it replaces whatever the surface held.
    pub fn submit(&mut self, payload: PixelTransportPayload) -> (r: Result<(), PixelTransportError>)
        ensures
            ({
                let k = surface_key(payload.handle);
                let before = old(self).view();
                if payload_defect(payload) is Some {
                    &&& r matches Err(PixelTransportError::InvalidPayload { reason }) && reason@ == payload_defect(payload)->0
                    &&& final(self).view() == before
                } else if before.contains_key(k) && spec_is_newer(before[k].0, payload.handle.deep_view()) {
                    &&& r matches Err(PixelTransportError::StaleGeneration { current, incoming })
                        && current.deep_view() == before[k].0 && incoming == payload.handle
                    &&& final(self).view() == before
                } else {
                    &&& r is Ok
                    &&& final(self).view() == before.insert(k, payload.deep_view())
                }
            }),
    {
        proof { use_type_invariant(&*self); }
        validate_payload(&payload)?;
        if let Some(current) = self.latest_handle_for_surface(payload.handle.client_id, &payload.handle.surface_id) {
            if is_newer_handle(&current, &payload.handle) {
                return Err(PixelTransportError::StaleGeneration { current, incoming: payload.handle });
            }
        }
        let ghost k = surface_key(payload.handle);
        let ghost before = self.contents@;
        let pos = self.position_of(payload.handle.client_id, &payload.handle.surface_id);
        let ghost pv = payload.deep_view();
        let mut taken_store = PixelTransportStore::new();
        std::mem::swap(&mut taken_store, self);
        let PixelTransportStore { payloads: mut payloads, contents: _ } = taken_store;
        let ghost old_payloads = payloads@;
        assert(pair_inv(old_payloads, before));
        match pos {
            Some(i) => {
                payloads.set(i, payload);
                proof { lemma_replace_keeps_inv(old_payloads, before, i as int, payloads@[i as int]); }
            }
            None => {
                payloads.push(payload);
                proof { lemma_push_keeps_inv(old_payloads, before, payloads@.last()); }
            }
        }
        *self = PixelTransportStore { payloads, contents: Ghost(before.insert(k, pv)) };
        Ok(())
    }

    /// The payload stored under exactly this handle (same client, surface and
    /// generations), if any.
    pub fn lookup(&self, handle: &PixelTransportHandle) -> (r: Option<&PixelTransportPayload>)
        ensures
            match found_under(self.view(), *handle) {
                Some(v) => r matches Some(p) && p.deep_view() == v,
                None => r is None,
            },
    {
        proof { use_type_invariant(self); }
        match self.position_of(handle.client_id, &handle.surface_id) {
            Some(i) => {
                let p = &self.payloads[i];
                proof {
                    assert(self.contents@.contains_key(surface_key(self.payloads@[i as int].handle)));
                }
                if p.handle.buffer_generation == handle.buffer_generation
                    && p.handle.scene_generation == handle.scene_generation
                {
                    Some(p)
                } else {
                    None
                }
            }
            None => {
                proof {
                    let k = surface_key(*handle);
                    if self.contents@.contains_key(k) {
                        let j = choose|j: int| 0 <= j < self.payloads@.len() && surface_key(self.payloads@[j].handle) == k;
                        assert(surface_key(self.payloads@[j].handle) != k);
                    }
                }
                None
            }
        }
    }

    /// Drops every payload of one client and keeps all others.
    pub fn invalidate_client(&mut self, client_id: u64)
        ensures
            final(self).view() == without_client(old(self).view(), client_id),
    {
        proof { use_type_invariant(&*self); }
        let ghost before = self.contents@;
        let ghost target = without_client(before, client_id);
        let mut taken_store = PixelTransportStore::new();
        std::mem::swap(&mut taken_store, self);
        let PixelTransportStore { payloads: mut payloads, contents: _ } = taken_store;
        let ghost mut m = before;
        loop
            invariant
                pair_inv(payloads@, m),
                target == without_client(before, client_id),
                forall|k: (u64, Seq<char>)| #[trigger] m.contains_key(k) ==> before.contains_key(k) && m[k] == before[k],
                forall|k: (u64, Seq<char>)| #[trigger] before.contains_key(k) && k.0 != client_id ==> m.contains_key(k),
            ensures
                pair_inv(payloads@, target),
            decreases payloads@.len(),
        {
            let found = index_of_client(&payloads, client_id);
            if found.is_none() {
                proof {
                    assert forall|k: (u64, Seq<char>)| m.contains_key(k) implies k.0 != client_id by {
                        let a = choose|a: int| 0 <= a < payloads@.len() && surface_key(payloads@[a].handle) == k;
                        assert(payloads@[a].handle.client_id != client_id);
                    }
                    assert forall|k: (u64, Seq<char>)| #[trigger] m.dom().contains(k) <==> target.dom().contains(k) by {
                        lemma_without_client_contains(before, client_id, k);
                    }
                    assert forall|k: (u64, Seq<char>)| #[trigger] target.dom().contains(k) implies target[k] == before[k] by {
                        lemma_without_client_contains(before, client_id, k);
                    }
                    assert(m.dom() =~= target.dom());
                    assert(m =~= target);
                }
                break;
            }
            let idx = found.unwrap();
            let ghost removed = surface_key(payloads@[idx as int].handle);
            let ghost old_seq = payloads@;
            let _dropped = payloads.remove(idx);
            proof {
                lemma_remove_keeps_inv(old_seq, m, idx as int);
                m = m.remove(removed);
            }
        }
        *self = PixelTransportStore { payloads, contents: Ghost(target) };
    }

    /// Number of stored payloads, one per client surface.
    pub fn len(&self) -> (r: usize)
        ensures
            r == self.view().len(),
    {
        proof {
            use_type_invariant(self);
            lemma_store_len(self.payloads@, self.contents@);
        }
        self.payloads.len()
    }

    pub fn is_empty(&self) -> (r: bool)
        ensures
            r == (self.view().len() == 0),
    {
        self.len() == 0
    }
}

impl Default for PixelTransportStore {
    fn default() -> (r: Self)
        ensures
            r.view() == Map::<(u64, Seq<char>), <PixelTransportPayload as DeepView>::V>::empty(),
    {
        PixelTransportStore::new()
    }
}

fn index_of_client(payloads: &Vec<PixelTransportPayload>, client_id: u64) -> (r: Option<usize>)
    ensures
        r matches Some(i) ==> i < payloads@.len() && payloads@[i as int].handle.client_id == client_id,
        r is None ==> forall|a: int| 0 <= a < payloads@.len() ==> (#[trigger] payloads@[a]).handle.client_id != client_id,
{
    let mut idx: usize = 0;
    while idx < payloads.len()
        invariant
            idx <= payloads@.len(),
            forall|a: int| 0 <= a < idx ==> (#[trigger] payloads@[a]).handle.client_id != client_id,
        decreases payloads@.len() - idx,
    {
        if payloads[idx].handle.client_id == client_id {
            return Some(idx);
        }
        idx += 1;
    }
    None
}

proof fn lemma_replace_keeps_inv(
    s: Seq<PixelTransportPayload>,
    m: Map<(u64, Seq<char>), <PixelTransportPayload as DeepView>::V>,
    i: int,
    p: PixelTransportPayload,
)
    requires
        pair_inv(s, m),
        0 <= i < s.len(),
        surface_key(s[i].handle) == surface_key(p.handle),
    ensures
        pair_inv(s.update(i, p), m.insert(surface_key(p.handle), p.deep_view())),
{
    let s2 = s.update(i, p);
    let m2 = m.insert(surface_key(p.handle), p.deep_view());
    assert forall|a: int, b: int| 0 <= a < b < s2.len() implies
        surface_key(#[trigger] s2[a].handle) != surface_key(#[trigger] s2[b].handle) by {
        assert(surface_key(s[a].handle) != surface_key(s[b].handle));
    }
    assert forall|a: int| 0 <= a < s2.len() implies #[trigger] m2.contains_key(surface_key(s2[a].handle))
        && m2[surface_key(s2[a].handle)] == s2[a].deep_view() by {
        if a != i {
            assert(surface_key(s[a].handle) != surface_key(s[i].handle));
        }
    }
    assert forall|k: (u64, Seq<char>)| #[trigger] m2.contains_key(k) implies
        exists|a: int| 0 <= a < s2.len() && surface_key(s2[a].handle) == k by {
        if k == surface_key(p.handle) {
            assert(surface_key(s2[i].handle) == k);
        } else {
            let a = choose|a: int| 0 <= a < s.len() && surface_key(s[a].handle) == k;
            assert(surface_key(s2[a].handle) == k);
        }
    }
}

proof fn lemma_push_keeps_inv(
    s: Seq<PixelTransportPayload>,
    m: Map<(u64, Seq<char>), <PixelTransportPayload as DeepView>::V>,
    p: PixelTransportPayload,
)
    requires
        pair_inv(s, m),
        forall|a: int| 0 <= a < s.len() ==> surface_key(#[trigger] s[a].handle) != surface_key(p.handle),
    ensures
        pair_inv(s.push(p), m.insert(surface_key(p.handle), p.deep_view())),
{
    let s2 = s.push(p);
    let m2 = m.insert(surface_key(p.handle), p.deep_view());
    assert forall|a: int, b: int| 0 <= a < b < s2.len() implies
        surface_key(#[trigger] s2[a].handle) != surface_key(#[trigger] s2[b].handle) by {
        if b < s.len() {
            assert(surface_key(s[a].handle) != surface_key(s[b].handle));
        }
    }
    assert forall|a: int| 0 <= a < s2.len() implies #[trigger] m2.contains_key(surface_key(s2[a].handle))
        && m2[surface_key(s2[a].handle)] == s2[a].deep_view() by {
    }
    assert forall|k: (u64, Seq<char>)| #[trigger] m2.contains_key(k) implies
        exists|a: int| 0 <= a < s2.len() && surface_key(s2[a].handle) == k by {
        if k == surface_key(p.handle) {
            assert(surface_key(s2[s.len() as int].handle) == k);
        } else {
            let a = choose|a: int| 0 <= a < s.len() && surface_key(s[a].handle) == k;
            assert(surface_key(s2[a].handle) == k);
        }
    }
}

proof fn lemma_remove_keeps_inv(
    s: Seq<PixelTransportPayload>,
    m: Map<(u64, Seq<char>), <PixelTransportPayload as DeepView>::V>,
    i: int,
)
    requires
        pair_inv(s, m),
        0 <= i < s.len(),
    ensures
        pair_inv(s.remove(i), m.remove(surface_key(s[i].handle))),
{
    let s2 = s.remove(i);
    let key = surface_key(s[i].handle);
    let m2 = m.remove(key);
    assert forall|a: int, b: int| 0 <= a < b < s2.len() implies
        surface_key(#[trigger] s2[a].handle) != surface_key(#[trigger] s2[b].handle) by {
        let a0 = if a < i { a } else { a + 1 };
        let b0 = if b < i { b } else { b + 1 };
        assert(surface_key(s[a0].handle) != surface_key(s[b0].handle));
    }
    assert forall|a: int| 0 <= a < s2.len() implies #[trigger] m2.contains_key(surface_key(s2[a].handle))
        && m2[surface_key(s2[a].handle)] == s2[a].deep_view() by {
        let a0 = if a < i { a } else { a + 1 };
        assert(s2[a] == s[a0]);
        assert(surface_key(s[a0].handle) != key);
        assert(m.contains_key(surface_key(s[a0].handle)));
    }
    assert forall|k: (u64, Seq<char>)| #[trigger] m2.contains_key(k) implies
        exists|a: int| 0 <= a < s2.len() && surface_key(s2[a].handle) == k by {
        let a0 = choose|a0: int| 0 <= a0 < s.len() && surface_key(s[a0].handle) == k;
        assert(a0 != i);
        let a = if a0 < i { a0 } else { a0 - 1 };
        assert(s2[a] == s[a0]);
    }
}

/// A map whose keys are exactly the distinct keys of a sequence has as many
/// entries as the sequence.
proof fn lemma_store_len(
    s: Seq<PixelTransportPayload>,
    m: Map<(u64, Seq<char>), <PixelTransportPayload as DeepView>::V>,
)
    requires
        forall|i: int, j: int| 0 <= i < j < s.len() ==> surface_key(#[trigger] s[i].handle) != surface_key(#[trigger] s[j].handle),
        forall|i: int| 0 <= i < s.len() ==> #[trigger] m.contains_key(surface_key(s[i].handle)),
        forall|k: (u64, Seq<char>)| #[trigger] m.contains_key(k) ==> exists|i: int| 0 <= i < s.len() && surface_key(s[i].handle) == k,
    ensures
        m.len() == s.len(),
    decreases s.len(),
{
    if s.len() == 0 {
        assert(m.dom() =~= Set::empty());
    } else {
        let last = s.last();
        let k = surface_key(last.handle);
        let s2 = s.drop_last();
        let m2 = m.remove(k);
        assert forall|k2: (u64, Seq<char>)| #[trigger] m2.contains_key(k2) implies exists|i: int| 0 <= i < s2.len() && surface_key(s2[i].handle) == k2 by {
            let i = choose|i: int| 0 <= i < s.len() && surface_key(s[i].handle) == k2;
            assert(i != s.len() - 1);
            assert(surface_key(s2[i].handle) == k2);
        }
        assert forall|i: int| 0 <= i < s2.len() implies #[trigger] m2.contains_key(surface_key(s2[i].handle)) by {
            assert(surface_key(s[i].handle) != surface_key(s[s.len() - 1].handle));
            assert(m.contains_key(surface_key(s[i].handle)));
        }
        lemma_store_len(s2, m2);
        assert(m.dom().finite()) by {
            lemma_map_dom_finite(s, m);
        }
        assert(m.dom().contains(k));
    }
}

proof fn lemma_map_dom_finite(
    s: Seq<PixelTransportPayload>,
    m: Map<(u64, Seq<char>), <PixelTransportPayload as DeepView>::V>,
)
    requires
        forall|k: (u64, Seq<char>)| #[trigger] m.contains_key(k) ==> exists|i: int| 0 <= i < s.len() && surface_key(s[i].handle) == k,
    ensures
        m.dom().finite(),
{
    let keys = Set::new(|k: (u64, Seq<char>)| exists|i: int| 0 <= i < s.len() && surface_key(s[i].handle) == k);
    let img = s.map_values(|p: PixelTransportPayload| surface_key(p.handle)).to_set();
    assert(m.dom().subset_of(img)) by {
        assert forall|k: (u64, Seq<char>)| m.dom().contains(k) implies img.contains(k) by {
            let i = choose|i: int| 0 <= i < s.len() && surface_key(s[i].handle) == k;
            assert(s.map_values(|p: PixelTransportPayload| surface_key(p.handle))[i] == k);
        }
    }
    vstd::seq_lib::seq_to_set_is_finite(s.map_values(|p: PixelTransportPayload| surface_key(p.handle)));
    vstd::set_lib::lemma_set_subset_finite(img, m.dom());
}

} // verus!
