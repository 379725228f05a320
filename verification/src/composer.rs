//! Damage-limited software composition of a committed scene into displayd's
//! framebuffer: where surface pixels come from, which payloads a scene
//! needs, and how damage rectangles are repainted back to front.
use vstd::prelude::*;
use crate::ipc::SurfaceSnapshot;
use crate::pixel_transport::{PixelTransportHandle, PixelTransportPayload, PixelTransportStore, surface_key};
use crate::render::{RendererRect, rect_contains, spec_surface_bounds, spec_intersect, surface_output_bounds, spec_compose, compose_source_over, BACKGROUND_PIXEL, OutputState, output_valid, spec_fb_offset, spec_framebuffer_words, spec_output_bounds, framebuffer_offset_for_output, fallback_surface_pixel, le_word, spec_decode, spec_fallback_pixel, PixelFormatPolicy, SourcePixel, WL_SHM_FORMAT_ARGB8888, WL_SHM_FORMAT_XRGB8888, decode_source_pixel};
use crate::text::{chars_of, decimal_chars, push_chars, push_str, string_from_chars};

verus! {

/// A stored payload, as the store's view holds it: handle, bytes, width,
/// height, stride and wire format.
pub type PayloadView = <PixelTransportPayload as DeepView>::V;

/// The store's view: payloads by client and surface.
pub type StoreView = Map<(u64, Seq<char>), PayloadView>;

/// The payload stored under exactly this handle.
pub open spec fn spec_lookup(store: StoreView, h: PixelTransportHandle) -> Option<PayloadView> {
    let k = surface_key(h);
    if store.contains_key(k) && store[k].0 == h.deep_view() { Some(store[k]) } else { None }
}

/// Byte offset of output pixel `(x, y)` in a surface's payload: the pixel
/// must lie at or right/below the surface origin and inside the payload,
/// and its four bytes must be present; every step must fit in `usize`.
pub open spec fn spec_source_offset(p: PayloadView, s: SurfaceSnapshot, x: int, y: int) -> Option<int> {
    let lx = x - s.placement.x;
    let ly = y - s.placement.y;
    if lx < i32::MIN || lx > i32::MAX || ly < i32::MIN || ly > i32::MAX {
        None
    } else if lx < 0 || ly < 0 || lx >= p.2 || ly >= p.3 {
        None
    } else if ly * p.4 > usize::MAX || lx * 4 > usize::MAX || ly * p.4 + lx * 4 + 4 > usize::MAX {
        None
    } else if ly * p.4 + lx * 4 + 4 > p.1.len() {
        None
    } else {
        Some(ly * p.4 + lx * 4)
    }
}

/// Why output pixel `(x, y)` of a surface cannot be read from payload `p`,
/// naming the first check that fails (the text is meaningful where
/// `spec_source_offset` is `None`).
pub open spec fn spec_source_offset_error(p: PayloadView, s: SurfaceSnapshot, x: int, y: int) -> Seq<char> {
    let lx = x - s.placement.x;
    let ly = y - s.placement.y;
    if lx < i32::MIN || lx > i32::MAX {
        "source x offset overflow"@
    } else if ly < i32::MIN || ly > i32::MAX {
        "source y offset overflow"@
    } else if lx < 0 || ly < 0 {
        "source coordinate outside surface "@ + s.id@
    } else if lx >= p.2 || ly >= p.3 {
        "source coordinate outside payload "@ + s.id@
    } else if ly * p.4 > usize::MAX {
        "source row offset overflow"@
    } else if lx * 4 > usize::MAX {
        "source column offset overflow"@
    } else if ly * p.4 + lx * 4 > usize::MAX {
        "source pixel offset overflow"@
    } else if ly * p.4 + lx * 4 + 4 > usize::MAX {
        "source pixel end overflow"@
    } else {
        "pixel payload is too short for surface "@ + s.id@
    }
}

/// The pixel policy of a wire format, if it is one the renderer reads.
pub open spec fn spec_policy(format: u32) -> Option<PixelFormatPolicy> {
    if format == WL_SHM_FORMAT_ARGB8888 {
        Some(PixelFormatPolicy::PremultipliedArgb8888)
    } else if format == WL_SHM_FORMAT_XRGB8888 {
        Some(PixelFormatPolicy::OpaqueXrgb8888)
    } else {
        None
    }
}

/// What a surface contributes at output pixel `(x, y)`: `None` is a
/// failure (missing payload, unreadable bytes, unknown format or a
/// malformed premultiplied pixel), `Some(None)` means the surface's
/// fallback colour (no payload attached, or a point past the payload's
/// edge), `Some(Some(p))` a decoded payload pixel.
pub open spec fn spec_pixel_for_surface(store: StoreView, s: SurfaceSnapshot, x: int, y: int) -> Option<Option<SourcePixel>> {
    match s.pixel_transport {
        None => Some(None),
        Some(h) => match spec_lookup(store, h) {
            None => None,
            Some(p) => if x - s.placement.x < i32::MIN || x - s.placement.x > i32::MAX
                || y - s.placement.y < i32::MIN || y - s.placement.y > i32::MAX {
                None
            } else {
                let lx = if x - s.placement.x < 0 { 0 } else { x - s.placement.x };
                let ly = if y - s.placement.y < 0 { 0 } else { y - s.placement.y };
                if lx >= p.2 || ly >= p.3 {
                    Some(None)
                } else {
                    match spec_source_offset(p, s, x, y) {
                        None => None,
                        Some(off) => match spec_policy(p.5) {
                            None => None,
                            Some(policy) => match spec_decode(le_word(p.1[off], p.1[off + 1], p.1[off + 2], p.1[off + 3]), policy) {
                                None => None,
                                Some(px) => Some(Some(px)),
                            },
                        },
                    }
                }
            },
        },
    }
}

/// The source pixel drawn for a surface at `(x, y)`, its fallback colour
/// standing in where it has no payload pixel.
pub open spec fn spec_source_pixel(store: StoreView, s: SurfaceSnapshot, x: int, y: int) -> Option<SourcePixel> {
    match spec_pixel_for_surface(store, s, x, y) {
        None => None,
        Some(None) => Some(SourcePixel::Opaque(spec_fallback_pixel(s))),
        Some(Some(p)) => Some(p),
    }
}

fn le_word_of(b0: u8, b1: u8, b2: u8, b3: u8) -> (r: u32)
    ensures
        r == le_word(b0, b1, b2, b3),
{
    let r = (b0 as u32) | ((b1 as u32) << 8u32) | ((b2 as u32) << 16u32) | ((b3 as u32) << 24u32);
    assert(r == le_word(b0, b1, b2, b3)) by (bit_vector)
        requires r == (b0 as u32) | ((b1 as u32) << 8u32) | ((b2 as u32) << 16u32) | ((b3 as u32) << 24u32);
    r
}

/// "missing pixel payload for client C surface S buffer B scene G".
pub open spec fn missing_payload_text(h: PixelTransportHandle) -> Seq<char> {
    "missing pixel payload for client "@ + crate::text::decimal_digits(h.client_id as nat) + " surface "@
        + h.surface_id@ + " buffer "@ + crate::text::decimal_digits(h.buffer_generation as nat) + " scene "@
        + crate::text::decimal_digits(h.scene_generation as nat)
}

pub fn missing_payload_reason(handle: &PixelTransportHandle) -> (r: String)
    ensures
        r@ == missing_payload_text(*handle),
{
    let mut m = chars_of("missing pixel payload for client ");
    let a = decimal_chars(handle.client_id);
    push_chars(&mut m, &a);
    push_str(&mut m, " surface ");
    push_str(&mut m, handle.surface_id.as_str());
    push_str(&mut m, " buffer ");
    let b = decimal_chars(handle.buffer_generation);
    push_chars(&mut m, &b);
    push_str(&mut m, " scene ");
    let c = decimal_chars(handle.scene_generation);
    push_chars(&mut m, &c);
    string_from_chars(&m)
}

fn message_for_surface(prefix: &str, id: &String) -> (r: String)
    ensures
        r@ == prefix@ + id@,
{
    let mut m = chars_of(prefix);
    push_str(&mut m, id.as_str());
    string_from_chars(&m)
}

/// Byte offset in the payload of output pixel `(x, y)` of a surface.
pub fn source_pixel_offset(payload: &PixelTransportPayload, surface: &SurfaceSnapshot, x: i32, y: i32) -> (r: Result<usize, String>)
    ensures
        match spec_source_offset(payload.deep_view(), *surface, x as int, y as int) {
            Some(off) => r == Ok::<usize, String>(off as usize),
            None => r matches Err(m) && m@ == spec_source_offset_error(payload.deep_view(), *surface, x as int, y as int),
        },
{
    proof {
        reveal_strlit("source x offset overflow");
        reveal_strlit("source y offset overflow");
        reveal_strlit("source row offset overflow");
        reveal_strlit("source column offset overflow");
        reveal_strlit("source pixel offset overflow");
        reveal_strlit("source pixel end overflow");
    }
    let local_x = match x.checked_sub(surface.placement.x) {
        Some(v) => v,
        None => { return Err(String::from_str("source x offset overflow")); }
    };
    let local_y = match y.checked_sub(surface.placement.y) {
        Some(v) => v,
        None => { return Err(String::from_str("source y offset overflow")); }
    };
    if local_x < 0 || local_y < 0 {
        return Err(message_for_surface("source coordinate outside surface ", &surface.id));
    }
    let lx = local_x as u32;
    let ly = local_y as u32;
    if lx >= payload.width || ly >= payload.height {
        return Err(message_for_surface("source coordinate outside payload ", &surface.id));
    }
    let row = match (ly as usize).checked_mul(payload.stride as usize) {
        Some(v) => v,
        None => { return Err(String::from_str("source row offset overflow")); }
    };
    let col = match (lx as usize).checked_mul(4) {
        Some(v) => v,
        None => { return Err(String::from_str("source column offset overflow")); }
    };
    let offset = match row.checked_add(col) {
        Some(v) => v,
        None => { return Err(String::from_str("source pixel offset overflow")); }
    };
    let end = match offset.checked_add(4) {
        Some(v) => v,
        None => { return Err(String::from_str("source pixel end overflow")); }
    };
    if end > payload.pixels.len() {
        return Err(message_for_surface("pixel payload is too short for surface ", &surface.id));
    }
    Ok(offset)
}

/// The pixel a surface shows at output pixel `(x, y)`, `None` standing for
/// its fallback colour.
pub fn pixel_for_surface(store: &PixelTransportStore, surface: &SurfaceSnapshot, x: i32, y: i32) -> (r: Result<Option<SourcePixel>, String>)
    ensures
        match spec_pixel_for_surface(store.view(), *surface, x as int, y as int) {
            Some(v) => r == Ok::<Option<SourcePixel>, String>(v),
            None => r is Err,
        },
{
    let handle = match &surface.pixel_transport {
        None => { return Ok(None); },
        Some(h) => h,
    };
    let payload = match store.lookup(handle) {
        Some(p) => p,
        None => { return Err(missing_payload_reason(handle)); }
    };
    let dx = match x.checked_sub(surface.placement.x) {
        Some(v) => v,
        None => { return Err(String::from_str("source x offset overflow")); }
    };
    let dy = match y.checked_sub(surface.placement.y) {
        Some(v) => v,
        None => { return Err(String::from_str("source y offset overflow")); }
    };
    let local_x: u32 = if dx < 0 { 0 } else { dx as u32 };
    let local_y: u32 = if dy < 0 { 0 } else { dy as u32 };
    if local_x >= payload.width || local_y >= payload.height {
        return Ok(None);
    }
    let offset = source_pixel_offset(payload, surface, x, y)?;
    proof { assert(payload.pixels@.len() == payload.pixels.len()); }
    let word = le_word_of(payload.pixels[offset], payload.pixels[offset + 1], payload.pixels[offset + 2], payload.pixels[offset + 3]);
    let policy = PixelFormatPolicy::from_wire_format(payload.format)?;
    let px = decode_source_pixel(word, policy)?;
    Ok(Some(px))
}


/// `width * 4`, saturating at `u32::MAX`.
pub open spec fn sat_row_bytes(width: u32) -> int {
    if width as int * 4 > u32::MAX { u32::MAX as int } else { width as int * 4 }
}

/// A payload the renderer can read: a known format, non-zero size and a
/// stride that holds a row of 32-bit pixels.
pub open spec fn spec_payload_usable(p: PayloadView) -> bool {
    &&& spec_policy(p.5) is Some
    &&& p.2 > 0 && p.3 > 0
    &&& p.4 >= sat_row_bytes(p.2)
}

/// Every pixel of `r` can be read from the surface's payload (a surface
/// without a payload needs nothing).
pub open spec fn spec_rect_ready(store: StoreView, s: SurfaceSnapshot, r: RendererRect) -> bool {
    match s.pixel_transport {
        None => true,
        Some(h) => match spec_lookup(store, h) {
            None => false,
            Some(p) => spec_payload_usable(p)
                && forall|x: int, y: int| rect_contains(r, x, y) ==> #[trigger] spec_source_offset(p, s, x, y) is Some,
        },
    }
}

/// The part of damage rectangle `d` that surface `s` covers, if any.
pub open spec fn spec_copy_rect(s: SurfaceSnapshot, d: RendererRect) -> Option<RendererRect> {
    match spec_surface_bounds(s) {
        None => None,
        Some(b) => spec_intersect(b, d),
    }
}

/// Surface `s` can be painted into damage rectangle `d`.
pub open spec fn spec_pair_ready(store: StoreView, s: SurfaceSnapshot, d: RendererRect) -> bool {
    match spec_copy_rect(s, d) {
        None => true,
        Some(c) => spec_rect_ready(store, s, c),
    }
}

/// Every surface can be painted into every damage rectangle.
pub open spec fn spec_damage_ready(store: StoreView, surfaces: Seq<SurfaceSnapshot>, damage: Seq<RendererRect>) -> bool {
    forall|i: int, k: int| 0 <= i < damage.len() && 0 <= k < surfaces.len()
        ==> #[trigger] spec_pair_ready(store, surfaces[k], damage[i])
}

/// `(x, y)` is the first pixel of `r`, row by row, that cannot be read
/// from payload `p`.
pub open spec fn first_unreadable(p: PayloadView, s: SurfaceSnapshot, r: RendererRect, x: int, y: int) -> bool {
    &&& rect_contains(r, x, y)
    &&& spec_source_offset(p, s, x, y) is None
    &&& forall|x2: int, y2: int| rect_contains(r, x2, y2) && (y2 < y || (y2 == y && x2 < x))
        ==> #[trigger] spec_source_offset(p, s, x2, y2) is Some
}

proof fn lemma_first_unreadable_unique(p: PayloadView, s: SurfaceSnapshot, r: RendererRect, x: int, y: int)
    requires
        first_unreadable(p, s, r, x, y),
    ensures
        (choose|a: int, b: int| first_unreadable(p, s, r, a, b)) == (x, y),
{
    let (a, b) = choose|a: int, b: int| first_unreadable(p, s, r, a, b);
    assert(first_unreadable(p, s, r, a, b));
    if b < y || (b == y && a < x) {
        assert(spec_source_offset(p, s, a, b) is Some);
    }
    if y < b || (y == b && x < a) {
        assert(spec_source_offset(p, s, x, y) is Some);
    }
}

/// Why rectangle `r` of a surface cannot be painted: its payload is
/// missing, of an unknown format, empty or with a too short stride, or
/// else the first unreadable pixel, row by row.
pub open spec fn spec_rect_error(store: StoreView, s: SurfaceSnapshot, r: RendererRect) -> Seq<char> {
    match s.pixel_transport {
        None => Seq::empty(),
        Some(h) => match spec_lookup(store, h) {
            None => missing_payload_text(h),
            Some(p) => if spec_policy(p.5) is None {
                "unsupported pixel format "@ + crate::text::decimal_digits(p.5 as nat)
            } else if p.2 == 0 || p.3 == 0 {
                "invalid zero-sized pixel payload for surface "@ + s.id@
            } else if p.4 < sat_row_bytes(p.2) {
                "invalid stride "@ + crate::text::decimal_digits(p.4 as nat) + " for surface "@ + s.id@
            } else {
                let (x, y) = choose|x: int, y: int| first_unreadable(p, s, r, x, y);
                spec_source_offset_error(p, s, x, y)
            },
        },
    }
}

/// Checks that every pixel of `rect` can be read from the surface's payload.
pub fn validate_surface_pixel_rect(store: &PixelTransportStore, surface: &SurfaceSnapshot, rect: RendererRect) -> (r: Result<(), String>)
    ensures
        r is Ok <==> spec_rect_ready(store.view(), *surface, rect),
        r matches Err(m) ==> m@ == spec_rect_error(store.view(), *surface, rect),
{
    let handle = match &surface.pixel_transport {
        None => { return Ok(()); },
        Some(h) => h,
    };
    let payload = match store.lookup(handle) {
        Some(p) => p,
        None => { return Err(missing_payload_reason(handle)); }
    };
    let _policy = PixelFormatPolicy::from_wire_format(payload.format)?;
    if payload.width == 0 || payload.height == 0 {
        return Err(message_for_surface("invalid zero-sized pixel payload for surface ", &surface.id));
    }
    let min_stride: u32 = if payload.width > 1073741823 { 4294967295 } else { payload.width * 4 };
    if payload.stride < min_stride {
        let mut m = chars_of("invalid stride ");
        let d = decimal_chars(payload.stride as u64);
        push_chars(&mut m, &d);
        push_str(&mut m, " for surface ");
        push_str(&mut m, surface.id.as_str());
        return Err(string_from_chars(&m));
    }
    let ghost p = payload.deep_view();
    let mut y = rect.y0;
    while y < rect.y1
        invariant
            p == payload.deep_view(),
            rect.y0 <= y,
            surface.pixel_transport is Some,
            spec_lookup(store.view(), surface.pixel_transport->0) == Some(p),
            spec_payload_usable(p),
            forall|px: int, py: int| rect_contains(rect, px, py) && py < y ==> #[trigger] spec_source_offset(p, *surface, px, py) is Some,
        decreases rect.y1 - y,
    {
        let mut x = rect.x0;
        while x < rect.x1
            invariant
                p == payload.deep_view(),
                rect.y0 <= y < rect.y1,
                rect.x0 <= x,
                surface.pixel_transport is Some,
                spec_lookup(store.view(), surface.pixel_transport->0) == Some(p),
                spec_payload_usable(p),
                forall|px: int, py: int| rect_contains(rect, px, py) && (py < y || (py == y && px < x))
                    ==> #[trigger] spec_source_offset(p, *surface, px, py) is Some,
            decreases rect.x1 - x,
        {
            match source_pixel_offset(payload, surface, x, y) {
                Ok(_) => {},
                Err(e) => {
                    assert(rect_contains(rect, x as int, y as int) && spec_source_offset(p, *surface, x as int, y as int) is None);
                    assert(!spec_rect_ready(store.view(), *surface, rect));
                    proof { lemma_first_unreadable_unique(p, *surface, rect, x as int, y as int); }
                    return Err(e);
                },
            }
            x = x + 1;
        }
        y = y + 1;
    }
    Ok(())
}

/// `(i, k)` is the first pair, damage rectangle by damage rectangle and
/// surface by surface, where surface `k` cannot be painted into damage `i`.
pub open spec fn first_unready_pair(store: StoreView, surfaces: Seq<SurfaceSnapshot>, damage: Seq<RendererRect>, i: int, k: int) -> bool {
    &&& 0 <= i < damage.len() && 0 <= k < surfaces.len()
    &&& !spec_pair_ready(store, surfaces[k], damage[i])
    &&& forall|i2: int, k2: int| 0 <= i2 < damage.len() && 0 <= k2 < surfaces.len() && (i2 < i || (i2 == i && k2 < k))
        ==> #[trigger] spec_pair_ready(store, surfaces[k2], damage[i2])
}

proof fn lemma_first_unready_pair_unique(store: StoreView, surfaces: Seq<SurfaceSnapshot>, damage: Seq<RendererRect>, i: int, k: int)
    requires
        first_unready_pair(store, surfaces, damage, i, k),
    ensures
        (choose|a: int, b: int| first_unready_pair(store, surfaces, damage, a, b)) == (i, k),
{
    let (a, b) = choose|a: int, b: int| first_unready_pair(store, surfaces, damage, a, b);
    assert(first_unready_pair(store, surfaces, damage, a, b));
    if a < i || (a == i && b < k) {
        assert(spec_pair_ready(store, surfaces[b], damage[a]));
    }
    if i < a || (i == a && k < b) {
        assert(spec_pair_ready(store, surfaces[k], damage[i]));
    }
}

/// Why the damage cannot be painted: the reason of the first surface and
/// damage rectangle that do not fit (see `first_unready_pair`).
pub open spec fn spec_damage_error(store: StoreView, surfaces: Seq<SurfaceSnapshot>, damage: Seq<RendererRect>) -> Seq<char> {
    let (i, k) = choose|i: int, k: int| first_unready_pair(store, surfaces, damage, i, k);
    spec_rect_error(store, surfaces[k], spec_copy_rect(surfaces[k], damage[i])->0)
}

/// Checks every surface against every damage rectangle it overlaps; the
/// first pair that does not fit gives the refusal.
pub fn validate_surface_pixels_for_damage(store: &PixelTransportStore, surfaces: &Vec<SurfaceSnapshot>,
    damage_rects: &Vec<RendererRect>) -> (r: Result<(), String>)
    ensures
        r is Ok <==> spec_damage_ready(store.view(), surfaces@, damage_rects@),
        r matches Err(m) ==> m@ == spec_damage_error(store.view(), surfaces@, damage_rects@),
{
    let mut i: usize = 0;
    while i < damage_rects.len()
        invariant
            i <= damage_rects@.len(),
            forall|a: int, k: int| 0 <= a < i && 0 <= k < surfaces@.len()
                ==> #[trigger] spec_pair_ready(store.view(), surfaces@[k], damage_rects@[a]),
        decreases damage_rects@.len() - i,
    {
        let damage = damage_rects[i];
        let mut k: usize = 0;
        while k < surfaces.len()
            invariant
                i < damage_rects@.len(),
                damage == damage_rects@[i as int],
                k <= surfaces@.len(),
                forall|a: int, j: int| 0 <= a < i && 0 <= j < surfaces@.len()
                    ==> #[trigger] spec_pair_ready(store.view(), surfaces@[j], damage_rects@[a]),
                forall|j: int| 0 <= j < k ==> #[trigger] spec_pair_ready(store.view(), surfaces@[j], damage),
            decreases surfaces@.len() - k,
        {
            let surface = &surfaces[k];
            match surface_output_bounds(surface) {
                None => {},
                Some(bounds) => match bounds.intersect(damage) {
                    None => {},
                    Some(copy_rect) => {
                        let res = validate_surface_pixel_rect(store, surface, copy_rect);
                        if res.is_err() {
                            assert(!spec_pair_ready(store.view(), surfaces@[k as int], damage_rects@[i as int]));
                            proof {
                                assert(first_unready_pair(store.view(), surfaces@, damage_rects@, i as int, k as int));
                                lemma_first_unready_pair_unique(store.view(), surfaces@, damage_rects@, i as int, k as int);
                            }
                            return res;
                        }
                    },
                },
            }
            k += 1;
        }
        i += 1;
    }
    Ok(())
}

/// The surface names no payload, or one the store holds.
pub open spec fn payload_present(store: StoreView, s: SurfaceSnapshot) -> bool {
    s.pixel_transport matches Some(h) ==> spec_lookup(store, h) is Some
}

/// Index of the first surface, from `i` on, whose payload is missing.
pub open spec fn first_missing_from(store: StoreView, surfaces: Seq<SurfaceSnapshot>, i: int) -> Option<int>
    decreases surfaces.len() - i,
{
    if i < 0 || i >= surfaces.len() {
        None
    } else if !payload_present(store, surfaces[i]) {
        Some(i)
    } else {
        first_missing_from(store, surfaces, i + 1)
    }
}

/// Every surface that names a payload has it in the store, checked in
/// order: the first one that does not is reported.
pub fn verify_pixel_payloads_available(store: &PixelTransportStore, surfaces: &Vec<SurfaceSnapshot>) -> (r: Result<(), String>)
    ensures
        match first_missing_from(store.view(), surfaces@, 0) {
            None => r is Ok,
            Some(k) => r matches Err(m) && m@ == missing_payload_text(surfaces@[k].pixel_transport->0),
        },
{
    let mut k: usize = 0;
    while k < surfaces.len()
        invariant
            k <= surfaces@.len(),
            first_missing_from(store.view(), surfaces@, 0) == first_missing_from(store.view(), surfaces@, k as int),
        decreases surfaces@.len() - k,
    {
        match &surfaces[k].pixel_transport {
            None => {},
            Some(handle) => {
                if store.lookup(handle).is_none() {
                    let m = missing_payload_reason(handle);
                    assert(surfaces@[k as int].pixel_transport == Some(*handle));
                    return Err(m);
                }
            },
        }
        k += 1;
    }
    Ok(())
}


/// Words in one framebuffer row.
pub open spec fn row_words(o: OutputState) -> int {
    (o.stride / 4) as int
}

/// Output x coordinate of framebuffer word `i`.
pub open spec fn fb_x(o: OutputState, i: int) -> int {
    o.origin_x + i % row_words(o)
}

/// Output y coordinate of framebuffer word `i`.
pub open spec fn fb_y(o: OutputState, i: int) -> int {
    o.origin_y + i / row_words(o)
}

/// Framebuffer word `i` holds a pixel of the output, not row padding.
pub open spec fn on_output(o: OutputState, i: int) -> bool {
    i % row_words(o) < o.width
}

/// Word `i` holds output pixel `(x, y)` and that pixel lies in `r`.
pub open spec fn word_in_rect(o: OutputState, i: int, r: RendererRect) -> bool {
    on_output(o, i) && rect_contains(r, fb_x(o, i), fb_y(o, i))
}

/// `r` is a non-empty rectangle inside `outer`.
pub open spec fn rect_inside(r: RendererRect, outer: RendererRect) -> bool {
    r.x0 < r.x1 && r.y0 < r.y1 && outer.x0 <= r.x0 && r.x1 <= outer.x1 && outer.y0 <= r.y0 && r.y1 <= outer.y1
}

/// The framebuffer word of an output pixel sits in the framebuffer and maps
/// back to that pixel.
pub proof fn lemma_offset_word(o: OutputState, x: int, y: int)
    requires
        output_valid(o),
        spec_fb_offset(o, x, y) is Some,
    ensures
        ({
            let i = spec_fb_offset(o, x, y)->0;
            &&& 0 <= i < spec_framebuffer_words(o)
            &&& on_output(o, i) && fb_x(o, i) == x && fb_y(o, i) == y
        }),
{
    let w = row_words(o);
    let lx = x - o.origin_x;
    let ly = y - o.origin_y;
    let i = ly * w + lx;
    assert(w >= o.width);
    vstd::arithmetic::div_mod::lemma_fundamental_div_mod_converse(i, w, ly, lx);
    assert(i < w * o.height) by (nonlinear_arith)
        requires i == ly * w + lx, 0 <= lx < w, 0 <= ly < o.height;
    assert(w * o.height == spec_framebuffer_words(o)) by (nonlinear_arith)
        requires w == (o.stride / 4) as int;
    assert(0 <= i) by (nonlinear_arith)
        requires i == ly * w + lx, 0 <= lx, 0 <= ly, w >= 1;
}

/// A framebuffer word that holds an output pixel is that pixel's word.
pub proof fn lemma_word_offset(o: OutputState, i: int)
    requires
        output_valid(o),
        0 <= i < spec_framebuffer_words(o),
        on_output(o, i),
    ensures
        spec_fb_offset(o, fb_x(o, i), fb_y(o, i)) == Some(i),
{
    let w = row_words(o);
    assert(w >= 1);
    vstd::arithmetic::div_mod::lemma_fundamental_div_mod(i, w);
    vstd::arithmetic::div_mod::lemma_mod_pos_bound(i, w);
    assert(i / w < o.height) by (nonlinear_arith)
        requires i < w * o.height, i == w * (i / w) + i % w, 0 <= i % w, w >= 1;
    assert(i / w >= 0) by (nonlinear_arith)
        requires i >= 0, w >= 1;
    assert(w * o.height == spec_framebuffer_words(o)) by (nonlinear_arith)
        requires w == (o.stride / 4) as int;
    assert((i / w) * w + i % w == i) by (nonlinear_arith)
        requires i == w * (i / w) + i % w;
}

/// Two framebuffer words that hold the same output pixel are the same word.
pub proof fn lemma_word_unique(o: OutputState, i: int, j: int)
    requires
        output_valid(o),
        0 <= i < spec_framebuffer_words(o),
        0 <= j < spec_framebuffer_words(o),
        on_output(o, i),
        on_output(o, j),
        fb_x(o, i) == fb_x(o, j),
        fb_y(o, i) == fb_y(o, j),
    ensures
        i == j,
{
    lemma_word_offset(o, i);
    lemma_word_offset(o, j);
}

/// Paints every output pixel of `rect` with `pixel`.
pub fn fill_framebuffer_rect(framebuffer: &mut Vec<u32>, output: &OutputState, rect: RendererRect, pixel: u32) -> (r: Result<(), String>)
    requires
        output_valid(*output),
        old(framebuffer)@.len() == spec_framebuffer_words(*output),
        rect_inside(rect, spec_output_bounds(*output)),
    ensures
        r is Ok,
        final(framebuffer)@.len() == old(framebuffer)@.len(),
        forall|i: int| 0 <= i < old(framebuffer)@.len() ==> #[trigger] final(framebuffer)@[i]
            == (if word_in_rect(*output, i, rect) { pixel } else { old(framebuffer)@[i] }),
{
    let ghost o = *output;
    let ghost start = framebuffer@;
    let mut y = rect.y0;
    while y < rect.y1
        invariant
            o == *output,
            output_valid(o),
            rect_inside(rect, spec_output_bounds(o)),
            rect.y0 <= y <= rect.y1,
            framebuffer@.len() == start.len() == spec_framebuffer_words(o),
            forall|i: int| 0 <= i < start.len() ==> #[trigger] framebuffer@[i]
                == (if word_in_rect(o, i, rect) && fb_y(o, i) < y { pixel } else { start[i] }),
        decreases rect.y1 - y,
    {
        let row_start = match framebuffer_offset_for_output(output, output.origin_x, y) {
            Ok(v) => v,
            Err(e) => { return Err(e); }
        };
        let mut x = rect.x0;
        while x < rect.x1
            invariant
                o == *output,
                output_valid(o),
                rect_inside(rect, spec_output_bounds(o)),
                rect.y0 <= y < rect.y1,
                rect.x0 <= x <= rect.x1,
                row_start as int == (y - o.origin_y) * row_words(o),
                framebuffer@.len() == start.len() == spec_framebuffer_words(o),
                forall|i: int| 0 <= i < start.len() ==> #[trigger] framebuffer@[i]
                    == (if word_in_rect(o, i, rect) && (fb_y(o, i) < y || (fb_y(o, i) == y && fb_x(o, i) < x)) { pixel } else { start[i] }),
            decreases rect.x1 - x,
        {
            let local = (x as i64 - output.origin_x as i64) as usize;
            assert(spec_fb_offset(o, x as int, y as int) == Some(row_start + local));
            proof { lemma_offset_word(o, x as int, y as int); }
            let index = row_start + local;
            let ghost before = framebuffer@;
            framebuffer.set(index, pixel);
            proof {
                assert forall|i: int| 0 <= i < start.len() implies #[trigger] framebuffer@[i]
                    == (if word_in_rect(o, i, rect) && (fb_y(o, i) < y || (fb_y(o, i) == y && fb_x(o, i) < x + 1)) { pixel } else { start[i] }) by {
                    if i != index {
                        assert(framebuffer@[i] == before[i]);
                        if on_output(o, i) && fb_x(o, i) == x && fb_y(o, i) == y {
                            lemma_word_unique(o, i, index as int);
                        }
                    }
                }
            }
            x = x + 1;
        }
        y = y + 1;
    }
    Ok(())
}


/// Every pixel of `rect` has a source pixel in surface `s`.
pub open spec fn rect_sources_ok(store: StoreView, s: SurfaceSnapshot, rect: RendererRect) -> bool {
    forall|x: int, y: int| rect_contains(rect, x, y) ==> #[trigger] spec_source_pixel(store, s, x, y) is Some
}

/// Blends a surface's pixels over every output pixel of `rect`, which lies
/// inside the surface and the output; fails at the first pixel that has no
/// source pixel, leaving the framebuffer partly painted.
pub fn copy_surface_rect(framebuffer: &mut Vec<u32>, output: &OutputState, store: &PixelTransportStore,
    surface: &SurfaceSnapshot, rect: RendererRect, fallback_pixel: u32) -> (r: Result<(), String>)
    requires
        output_valid(*output),
        old(framebuffer)@.len() == spec_framebuffer_words(*output),
        rect_inside(rect, spec_output_bounds(*output)),
        spec_surface_bounds(*surface) matches Some(b) && rect_inside(rect, b),
        fallback_pixel == spec_fallback_pixel(*surface),
    ensures
        final(framebuffer)@.len() == old(framebuffer)@.len(),
        r is Ok <==> rect_sources_ok(store.view(), *surface, rect),
        r is Ok ==> forall|i: int| 0 <= i < old(framebuffer)@.len() ==> #[trigger] final(framebuffer)@[i]
            == (if word_in_rect(*output, i, rect) {
                spec_compose(spec_source_pixel(store.view(), *surface, fb_x(*output, i), fb_y(*output, i))->0, old(framebuffer)@[i])
            } else {
                old(framebuffer)@[i]
            }),
{
    let ghost o = *output;
    let ghost start = framebuffer@;
    let ghost sv = store.view();
    let mut y = rect.y0;
    while y < rect.y1
        invariant
            o == *output,
            sv == store.view(),
            output_valid(o),
            rect_inside(rect, spec_output_bounds(o)),
            spec_surface_bounds(*surface) matches Some(b) && rect_inside(rect, b),
            fallback_pixel == spec_fallback_pixel(*surface),
            rect.y0 <= y <= rect.y1,
            framebuffer@.len() == start.len() == spec_framebuffer_words(o),
            start == old(framebuffer)@,
            forall|px: int, py: int| rect_contains(rect, px, py) && py < y ==> #[trigger] spec_source_pixel(sv, *surface, px, py) is Some,
            forall|i: int| 0 <= i < start.len() ==> #[trigger] framebuffer@[i]
                == (if word_in_rect(o, i, rect) && fb_y(o, i) < y {
                    spec_compose(spec_source_pixel(sv, *surface, fb_x(o, i), fb_y(o, i))->0, start[i])
                } else { start[i] }),
        decreases rect.y1 - y,
    {
        let row_start = match framebuffer_offset_for_output(output, output.origin_x, y) {
            Ok(v) => v,
            Err(e) => { return Err(e); }
        };
        let mut x = rect.x0;
        while x < rect.x1
            invariant
                o == *output,
                sv == store.view(),
                output_valid(o),
                rect_inside(rect, spec_output_bounds(o)),
                spec_surface_bounds(*surface) matches Some(b) && rect_inside(rect, b),
                fallback_pixel == spec_fallback_pixel(*surface),
                rect.y0 <= y < rect.y1,
                rect.x0 <= x <= rect.x1,
                row_start as int == (y - o.origin_y) * row_words(o),
                framebuffer@.len() == start.len() == spec_framebuffer_words(o),
                start == old(framebuffer)@,
                forall|px: int, py: int| rect_contains(rect, px, py) && (py < y || (py == y && px < x))
                    ==> #[trigger] spec_source_pixel(sv, *surface, px, py) is Some,
                forall|i: int| 0 <= i < start.len() ==> #[trigger] framebuffer@[i]
                    == (if word_in_rect(o, i, rect) && (fb_y(o, i) < y || (fb_y(o, i) == y && fb_x(o, i) < x)) {
                        spec_compose(spec_source_pixel(sv, *surface, fb_x(o, i), fb_y(o, i))->0, start[i])
                    } else { start[i] }),
            decreases rect.x1 - x,
        {
            let local = (x as i64 - output.origin_x as i64) as usize;
            assert(spec_fb_offset(o, x as int, y as int) == Some(row_start + local));
            proof { lemma_offset_word(o, x as int, y as int); }
            let index = row_start + local;
            let src = match pixel_for_surface(store, surface, x, y) {
                Ok(Some(p)) => p,
                Ok(None) => SourcePixel::Opaque(fallback_pixel),
                Err(e) => {
                    assert(rect_contains(rect, x as int, y as int) && spec_source_pixel(sv, *surface, x as int, y as int) is None);
                    return Err(e);
                },
            };
            assert(framebuffer@[index as int] == start[index as int]);
            let composed = compose_source_over(src, framebuffer[index]);
            let ghost before = framebuffer@;
            framebuffer.set(index, composed);
            proof {
                assert forall|i: int| 0 <= i < start.len() implies #[trigger] framebuffer@[i]
                    == (if word_in_rect(o, i, rect) && (fb_y(o, i) < y || (fb_y(o, i) == y && fb_x(o, i) < x + 1)) {
                        spec_compose(spec_source_pixel(sv, *surface, fb_x(o, i), fb_y(o, i))->0, start[i])
                    } else { start[i] }) by {
                    if i != index {
                        assert(framebuffer@[i] == before[i]);
                        if on_output(o, i) && fb_x(o, i) == x && fb_y(o, i) == y {
                            lemma_word_unique(o, i, index as int);
                        }
                    }
                }
            }
            x = x + 1;
        }
        y = y + 1;
    }
    Ok(())
}


/// Pixel and byte counts of one composition.
#[derive(Debug, Clone, Copy, PartialEq, Eq, Structural)]
pub struct CompositionStats {
    pub damaged_pixels: u64,
    pub copied_bytes: u64,
}

/// Surface `s` is visible and covers output pixel `(x, y)`.
pub open spec fn surface_covers(s: SurfaceSnapshot, x: int, y: int) -> bool {
    match spec_surface_bounds(s) {
        Some(b) => rect_contains(b, x, y),
        None => false,
    }
}

/// The colour of output pixel `(x, y)` after painting the background and
/// then the first `k` surfaces back to front over it.
pub open spec fn spec_stack(store: StoreView, surfaces: Seq<SurfaceSnapshot>, x: int, y: int, k: int) -> u32
    decreases k,
{
    if k <= 0 {
        BACKGROUND_PIXEL
    } else {
        let below = spec_stack(store, surfaces, x, y, k - 1);
        if surface_covers(surfaces[k - 1], x, y) {
            match spec_source_pixel(store, surfaces[k - 1], x, y) {
                Some(src) => spec_compose(src, below),
                None => below,
            }
        } else {
            below
        }
    }
}

/// Output pixel `(x, y)` lies in one of the first `n` damage rectangles.
pub open spec fn spec_covered(damage: Seq<RendererRect>, x: int, y: int, n: int) -> bool
    decreases n,
{
    if n <= 0 { false } else { rect_contains(damage[n - 1], x, y) || spec_covered(damage, x, y, n - 1) }
}

/// Where surface `s` is painted inside damage rectangle `d`, it has a source
/// pixel at `(x, y)`.
pub open spec fn spec_painted(store: StoreView, s: SurfaceSnapshot, d: RendererRect, x: int, y: int) -> bool {
    surface_covers(s, x, y) && rect_contains(d, x, y) ==> spec_source_pixel(store, s, x, y) is Some
}

/// Every pixel that composition paints has a source pixel.
pub open spec fn spec_sources_ok(store: StoreView, surfaces: Seq<SurfaceSnapshot>, damage: Seq<RendererRect>) -> bool {
    forall|d: int, k: int, x: int, y: int| 0 <= d < damage.len() && 0 <= k < surfaces.len()
        ==> #[trigger] spec_painted(store, surfaces[k], damage[d], x, y)
}

/// Pixels in the first `n` damage rectangles, counted with overlaps and
/// saturating at `u64::MAX`.
pub open spec fn spec_damaged(damage: Seq<RendererRect>, n: int) -> int
    decreases n,
{
    if n <= 0 {
        0
    } else {
        let sum = spec_damaged(damage, n - 1) + (damage[n - 1].x1 - damage[n - 1].x0) * (damage[n - 1].y1 - damage[n - 1].y0);
        if sum > u64::MAX { u64::MAX as int } else { sum }
    }
}

/// Repaints the damage rectangles, in order: each is cleared to the
/// background and every visible surface is blended over its part of it,
/// back to front. A pixel in no damage rectangle keeps its value; any other
/// output pixel ends up as the full stack of surfaces over the background.
/// Fails when a painted pixel has no source pixel.
pub fn compose_damage_rects(framebuffer: &mut Vec<u32>, output: &OutputState, store: &PixelTransportStore,
    surfaces: &Vec<SurfaceSnapshot>, damage_rects: &Vec<RendererRect>) -> (r: Result<CompositionStats, String>)
    requires
        output_valid(*output),
        old(framebuffer)@.len() == spec_framebuffer_words(*output),
        forall|d: int| 0 <= d < damage_rects@.len() ==> rect_inside(#[trigger] damage_rects@[d], spec_output_bounds(*output)),
    ensures
        final(framebuffer)@.len() == old(framebuffer)@.len(),
        r is Ok <==> spec_sources_ok(store.view(), surfaces@, damage_rects@),
        r matches Ok(stats) ==> {
            &&& stats.damaged_pixels == spec_damaged(damage_rects@, damage_rects@.len() as int)
            &&& stats.copied_bytes == (if stats.damaged_pixels * 4 > u64::MAX { u64::MAX as int } else { stats.damaged_pixels * 4 })
            &&& forall|i: int| 0 <= i < old(framebuffer)@.len() ==> #[trigger] final(framebuffer)@[i]
                == (if on_output(*output, i) && spec_covered(damage_rects@, fb_x(*output, i), fb_y(*output, i), damage_rects@.len() as int) {
                    spec_stack(store.view(), surfaces@, fb_x(*output, i), fb_y(*output, i), surfaces@.len() as int)
                } else {
                    old(framebuffer)@[i]
                })
        },
{
    let ghost o = *output;
    let ghost start = framebuffer@;
    let ghost sv = store.view();
    let ghost n = surfaces@.len() as int;
    let mut damaged: u64 = 0;
    let mut dd: usize = 0;
    while dd < damage_rects.len()
        invariant
            o == *output,
            sv == store.view(),
            n == surfaces@.len(),
            output_valid(o),
            forall|d: int| 0 <= d < damage_rects@.len() ==> rect_inside(#[trigger] damage_rects@[d], spec_output_bounds(o)),
            dd <= damage_rects@.len(),
            start == old(framebuffer)@,
            framebuffer@.len() == start.len() == spec_framebuffer_words(o),
            damaged == spec_damaged(damage_rects@, dd as int),
            forall|d: int, k: int, x: int, y: int| 0 <= d < dd && 0 <= k < n
                ==> #[trigger] spec_painted(sv, surfaces@[k], damage_rects@[d], x, y),
            forall|i: int| 0 <= i < start.len() ==> #[trigger] framebuffer@[i]
                == (if on_output(o, i) && spec_covered(damage_rects@, fb_x(o, i), fb_y(o, i), dd as int) {
                    spec_stack(sv, surfaces@, fb_x(o, i), fb_y(o, i), n)
                } else { start[i] }),
        decreases damage_rects@.len() - dd,
    {
        let damage = damage_rects[dd];
        let ghost prev = framebuffer@;
        let area = damage.area();
        damaged = if u64::MAX - damaged < area { u64::MAX } else { damaged + area };
        match fill_framebuffer_rect(framebuffer, output, damage, BACKGROUND_PIXEL) {
            Ok(()) => {},
            Err(e) => { return Err(e); }
        }
        let mut k: usize = 0;
        while k < surfaces.len()
            invariant
                o == *output,
                sv == store.view(),
                n == surfaces@.len(),
                output_valid(o),
                dd < damage_rects@.len(),
                damage == damage_rects@[dd as int],
                rect_inside(damage, spec_output_bounds(o)),
                k <= n,
                start == old(framebuffer)@,
                framebuffer@.len() == start.len() == prev.len() == spec_framebuffer_words(o),
                forall|d: int, j: int, x: int, y: int| 0 <= d < dd && 0 <= j < n
                    ==> #[trigger] spec_painted(sv, surfaces@[j], damage_rects@[d], x, y),
                forall|j: int, x: int, y: int| 0 <= j < k ==> #[trigger] spec_painted(sv, surfaces@[j], damage, x, y),
                forall|i: int| 0 <= i < start.len() ==> #[trigger] prev[i]
                    == (if on_output(o, i) && spec_covered(damage_rects@, fb_x(o, i), fb_y(o, i), dd as int) {
                        spec_stack(sv, surfaces@, fb_x(o, i), fb_y(o, i), n)
                    } else { start[i] }),
                forall|i: int| 0 <= i < start.len() ==> #[trigger] framebuffer@[i]
                    == (if word_in_rect(o, i, damage) { spec_stack(sv, surfaces@, fb_x(o, i), fb_y(o, i), k as int) } else { prev[i] }),
            decreases n - k,
        {
            let surface = &surfaces[k];
            let ghost s = surfaces@[k as int];
            let ghost before = framebuffer@;
            match surface_output_bounds(surface) {
                None => {
                    proof {
                        assert forall|i: int| 0 <= i < start.len() implies #[trigger] framebuffer@[i]
                            == (if word_in_rect(o, i, damage) { spec_stack(sv, surfaces@, fb_x(o, i), fb_y(o, i), k + 1) } else { prev[i] }) by {
                        }
                    }
                },
                Some(bounds) => match bounds.intersect(damage) {
                    None => {
                        proof {
                            assert forall|i: int| 0 <= i < start.len() implies #[trigger] framebuffer@[i]
                                == (if word_in_rect(o, i, damage) { spec_stack(sv, surfaces@, fb_x(o, i), fb_y(o, i), k + 1) } else { prev[i] }) by {
                                crate::render::lemma_intersect_contains(bounds, damage, fb_x(o, i), fb_y(o, i));
                            }
                            assert forall|x: int, y: int| #[trigger] spec_painted(sv, s, damage, x, y) by {
                                crate::render::lemma_intersect_contains(bounds, damage, x, y);
                            }
                        }
                    },
                    Some(copy_rect) => {
                        proof {
                            assert forall|x: int, y: int| rect_contains(copy_rect, x, y) implies rect_contains(bounds, x, y) && rect_contains(damage, x, y) by {
                                crate::render::lemma_intersect_contains(bounds, damage, x, y);
                            }
                        }
                        let color = fallback_surface_pixel(surface);
                        match copy_surface_rect(framebuffer, output, store, surface, copy_rect, color) {
                            Ok(()) => {},
                            Err(e) => {
                                proof {
                                    let (x, y) = choose|x: int, y: int| rect_contains(copy_rect, x, y) && !(#[trigger] spec_source_pixel(sv, s, x, y) is Some);
                                    crate::render::lemma_intersect_contains(bounds, damage, x, y);
                                    assert(!spec_painted(sv, surfaces@[k as int], damage_rects@[dd as int], x, y));
                                }
                                return Err(e);
                            },
                        }
                        proof {
                            assert forall|i: int| 0 <= i < start.len() implies #[trigger] framebuffer@[i]
                                == (if word_in_rect(o, i, damage) { spec_stack(sv, surfaces@, fb_x(o, i), fb_y(o, i), k + 1) } else { prev[i] }) by {
                                crate::render::lemma_intersect_contains(bounds, damage, fb_x(o, i), fb_y(o, i));
                            }
                            assert forall|x: int, y: int| #[trigger] spec_painted(sv, s, damage, x, y) by {
                                crate::render::lemma_intersect_contains(bounds, damage, x, y);
                            }
                        }
                    },
                },
            }
            k += 1;
        }
        proof {
            assert forall|i: int| 0 <= i < start.len() implies #[trigger] framebuffer@[i]
                == (if on_output(o, i) && spec_covered(damage_rects@, fb_x(o, i), fb_y(o, i), dd + 1) {
                    spec_stack(sv, surfaces@, fb_x(o, i), fb_y(o, i), n)
                } else { start[i] }) by {
            }
        }
        dd += 1;
    }
    let copied: u64 = if damaged > 4611686018427387903 { u64::MAX } else { damaged * 4 };
    Ok(CompositionStats { damaged_pixels: damaged, copied_bytes: copied })
}


/// The last of the first `n` surfaces with this id, as a map keyed by id
/// built from them in order would hold it.
pub open spec fn last_with_id(seq: Seq<SurfaceSnapshot>, id: Seq<char>, n: int) -> Option<SurfaceSnapshot>
    decreases n,
{
    if n <= 0 {
        None
    } else if seq[n - 1].id@ == id {
        Some(seq[n - 1])
    } else {
        last_with_id(seq, id, n - 1)
    }
}

/// A surface shows something different from its earlier self: another
/// placement (position, size, stacking or visibility) or buffer generation.
pub open spec fn spec_differs(old: SurfaceSnapshot, new: SurfaceSnapshot) -> bool {
    old.placement != new.placement || old.buffer_generation != new.buffer_generation
}

/// The on-screen rectangle of a visible surface clipped to the output, as a
/// sequence of at most one rectangle.
pub open spec fn clip_seq(s: SurfaceSnapshot, ob: RendererRect) -> Seq<RendererRect> {
    match spec_copy_rect(s, ob) {
        None => Seq::empty(),
        Some(r) => seq![r],
    }
}

/// The damage a surface reports, in output space.
pub open spec fn own_damage(s: SurfaceSnapshot, ob: RendererRect) -> Seq<RendererRect> {
    if spec_surface_bounds(s) is None || crate::render::spec_rect(0, 0, s.placement.width, s.placement.height) is None {
        Seq::empty()
    } else {
        crate::render::spec_damage_rects_upto(s, ob, s.damage_rects@.len() as int)
    }
}

/// Damage from the first `k` current surfaces: the whole surface when it is
/// new or changed, then the damage it reports.
pub open spec fn current_damage(prev: Seq<SurfaceSnapshot>, cur: Seq<SurfaceSnapshot>, ob: RendererRect, k: int) -> Seq<RendererRect>
    decreases k,
{
    if k <= 0 {
        Seq::empty()
    } else {
        let s = cur[k - 1];
        let exposed = match last_with_id(prev, s.id@, prev.len() as int) {
            None => true,
            Some(o) => spec_differs(o, s),
        };
        current_damage(prev, cur, ob, k - 1) + (if exposed { clip_seq(s, ob) } else { Seq::empty() }) + own_damage(s, ob)
    }
}

/// Damage from the first `k` previous surfaces: the old area of each one
/// that is gone or changed.
pub open spec fn removed_damage(prev: Seq<SurfaceSnapshot>, cur: Seq<SurfaceSnapshot>, ob: RendererRect, k: int) -> Seq<RendererRect>
    decreases k,
{
    if k <= 0 {
        Seq::empty()
    } else {
        let o = prev[k - 1];
        let gone = match last_with_id(cur, o.id@, cur.len() as int) {
            None => true,
            Some(n) => spec_differs(o, n),
        };
        removed_damage(prev, cur, ob, k - 1) + (if gone { clip_seq(o, ob) } else { Seq::empty() })
    }
}

/// The damage of a new scene before sorting: the whole output without a
/// previous scene or a ready framebuffer, else what changed.
pub open spec fn collected_damage(previous: Option<crate::ipc::CommittedSceneState>, surfaces: Seq<SurfaceSnapshot>,
    framebuffer_ready: bool, ob: RendererRect) -> Seq<RendererRect> {
    match previous {
        None => seq![ob],
        Some(p) => if !framebuffer_ready {
            seq![ob]
        } else {
            current_damage(p.surfaces@, surfaces, ob, surfaces.len() as int)
                + removed_damage(p.surfaces@, surfaces, ob, p.surfaces@.len() as int)
        },
    }
}

proof fn lemma_contains_in_prefix(a: Seq<RendererRect>, b: Seq<RendererRect>, x: RendererRect)
    requires
        a.contains(x),
    ensures
        (a + b).contains(x),
{
    let i = choose|i: int| 0 <= i < a.len() && a[i] == x;
    assert((a + b)[i] == x);
}

proof fn lemma_current_damage_keeps(prev: Seq<SurfaceSnapshot>, cur: Seq<SurfaceSnapshot>, ob: RendererRect, k: int,
    r: RendererRect, n: int)
    requires
        0 <= k < n,
        current_damage(prev, cur, ob, k + 1).contains(r),
    ensures
        current_damage(prev, cur, ob, n).contains(r),
    decreases n - k,
{
    if n > k + 1 {
        lemma_current_damage_keeps(prev, cur, ob, k, r, n - 1);
        let s = cur[n - 1];
        let exposed = match last_with_id(prev, s.id@, prev.len() as int) {
            None => true,
            Some(o) => spec_differs(o, s),
        };
        lemma_contains_in_prefix(current_damage(prev, cur, ob, n - 1),
            (if exposed { clip_seq(s, ob) } else { Seq::empty() }), r);
        lemma_contains_in_prefix(current_damage(prev, cur, ob, n - 1) + (if exposed { clip_seq(s, ob) } else { Seq::empty() }),
            own_damage(s, ob), r);
    }
}

/// A surface that shows a new buffer generation is repainted: once there is
/// a previous scene and a framebuffer to draw on, the part of the output it
/// covers is among the damage of the new scene, so the scene is composed
/// and not skipped for lack of damage.
pub proof fn law_new_buffer_damages_its_area(previous: crate::ipc::CommittedSceneState, surfaces: Seq<SurfaceSnapshot>,
    ob: RendererRect, k: int)
    requires
        0 <= k < surfaces.len(),
        last_with_id(previous.surfaces@, surfaces[k].id@, previous.surfaces@.len() as int) matches Some(o)
            && o.buffer_generation != surfaces[k].buffer_generation,
        spec_copy_rect(surfaces[k], ob) is Some,
    ensures
        collected_damage(Some(previous), surfaces, true, ob).contains(spec_copy_rect(surfaces[k], ob)->0),
        collected_damage(Some(previous), surfaces, true, ob).len() > 0,
{
    let prev = previous.surfaces@;
    let r = spec_copy_rect(surfaces[k], ob)->0;
    let c0 = current_damage(prev, surfaces, ob, k);
    let mid = c0 + clip_seq(surfaces[k], ob);
    assert(mid[c0.len() as int] == r);
    lemma_contains_in_prefix(mid, own_damage(surfaces[k], ob), r);
    lemma_current_damage_keeps(prev, surfaces, ob, k, r, surfaces.len() as int);
    lemma_contains_in_prefix(current_damage(prev, surfaces, ob, surfaces.len() as int),
        removed_damage(prev, surfaces, ob, prev.len() as int), r);
}

/// `a` sorts before `b` by `(y0, x0, y1, x1)`.
pub open spec fn rect_key_lt(a: RendererRect, b: RendererRect) -> bool {
    a.y0 < b.y0 || (a.y0 == b.y0 && (a.x0 < b.x0 || (a.x0 == b.x0 && (a.y1 < b.y1 || (a.y1 == b.y1 && a.x1 < b.x1)))))
}

/// Rectangles in order of `(y0, x0, y1, x1)`.
pub open spec fn rects_sorted(s: Seq<RendererRect>) -> bool {
    forall|i: int| 0 <= i < s.len() - 1 ==> !#[trigger] rect_key_lt(s[i + 1], s[i])
}

fn rect_key_less(a: RendererRect, b: RendererRect) -> (r: bool)
    ensures
        r == rect_key_lt(a, b),
{
    a.y0 < b.y0 || (a.y0 == b.y0 && (a.x0 < b.x0 || (a.x0 == b.x0 && (a.y1 < b.y1 || (a.y1 == b.y1 && a.x1 < b.x1)))))
}

/// Sorts rectangles by `(y0, x0, y1, x1)`.
pub fn sort_rects(v: Vec<RendererRect>) -> (r: Vec<RendererRect>)
    ensures
        r@.to_multiset() == v@.to_multiset(),
        rects_sorted(r@),
{
    broadcast use vstd::seq_lib::group_to_multiset_ensures;
    let mut src = v;
    let mut out: Vec<RendererRect> = Vec::new();
    while src.len() > 0
        invariant
            out@.to_multiset().add(src@.to_multiset()) == v@.to_multiset(),
            rects_sorted(out@),
        decreases src@.len(),
    {
        let ghost before = src@;
        let x = src.pop().unwrap();
        assert(before =~= src@.push(x));
        let mut j: usize = 0;
        loop
            invariant
                j <= out@.len(),
                forall|k: int| 0 <= k < j ==> #[trigger] rect_key_lt(out@[k], x),
            ensures
                j <= out@.len(),
                forall|k: int| 0 <= k < j ==> #[trigger] rect_key_lt(out@[k], x),
                j < out@.len() ==> !rect_key_lt(out@[j as int], x),
            decreases out@.len() - j,
        {
            if j >= out.len() {
                break;
            }
            if !rect_key_less(out[j], x) {
                break;
            }
            j += 1;
        }
        let ghost old_out = out@;
        out.insert(j, x);
        proof {
            vstd::seq_lib::to_multiset_insert(old_out, j as int, x);
            vstd::seq_lib::to_multiset_build(src@, x);
            assert(out@.to_multiset() =~= old_out.to_multiset().insert(x));
            assert(before.to_multiset() =~= src@.to_multiset().insert(x));
            assert(out@.to_multiset().add(src@.to_multiset()) =~= old_out.to_multiset().add(before.to_multiset()));
            assert forall|i: int| 0 <= i < out@.len() - 1 implies !#[trigger] rect_key_lt(out@[i + 1], out@[i]) by {
                if i + 1 < j {
                    assert(out@[i] == old_out[i] && out@[i + 1] == old_out[i + 1]);
                } else if i + 1 == j {
                    assert(out@[i] == old_out[i] && out@[i + 1] == x);
                    assert(rect_key_lt(old_out[i], x));
                } else if i == j {
                    assert(out@[i] == x && out@[i + 1] == old_out[i]);
                } else {
                    assert(out@[i] == old_out[i - 1] && out@[i + 1] == old_out[i]);
                    let m = i - 1;
                    assert(!rect_key_lt(old_out[m + 1], old_out[m]));
                    assert(m + 1 == i);
                }
            }
        }
    }
    assert(src@ =~= Seq::<RendererRect>::empty());
    out
}

/// Index of the last surface with this id.
fn last_index_with_id(seq: &Vec<SurfaceSnapshot>, id: &String) -> (r: Option<usize>)
    ensures
        match last_with_id(seq@, id@, seq@.len() as int) {
            None => r is None,
            Some(s) => r matches Some(i) && i < seq@.len() && seq@[i as int] == s,
        },
{
    let mut i = seq.len();
    while i > 0
        invariant
            i <= seq@.len(),
            last_with_id(seq@, id@, seq@.len() as int) == last_with_id(seq@, id@, i as int),
        decreases i,
    {
        if seq[i - 1].id == *id {
            return Some(i - 1);
        }
        i -= 1;
    }
    None
}

fn push_clip(damage: &mut Vec<RendererRect>, surface: &SurfaceSnapshot, output_bounds: RendererRect)
    ensures
        final(damage)@ == old(damage)@ + clip_seq(*surface, output_bounds),
{
    match surface_output_bounds(surface) {
        None => {},
        Some(b) => match b.intersect(output_bounds) {
            None => {},
            Some(r) => { damage.push(r); },
        },
    }
}

fn append_rects(damage: &mut Vec<RendererRect>, more: Vec<RendererRect>)
    ensures
        final(damage)@ == old(damage)@ + more@,
{
    let mut i: usize = 0;
    let ghost start = damage@;
    while i < more.len()
        invariant
            i <= more@.len(),
            damage@ == start + more@.take(i as int),
        decreases more@.len() - i,
    {
        damage.push(more[i]);
        i += 1;
        assert(more@.take(i as int) =~= more@.take(i - 1).push(more@[i - 1]));
    }
    assert(more@.take(more@.len() as int) =~= more@);
}

/// Every rectangle of the sequence lies inside `ob`.
pub open spec fn all_inside(s: Seq<RendererRect>, ob: RendererRect) -> bool {
    forall|i: int| 0 <= i < s.len() ==> rect_inside(#[trigger] s[i], ob)
}

proof fn lemma_intersect_inside(a: RendererRect, b: RendererRect)
    ensures
        spec_intersect(a, b) matches Some(c) ==> rect_inside(c, b),
{
}

proof fn lemma_own_damage_inside(s: SurfaceSnapshot, ob: RendererRect, k: int)
    ensures
        all_inside(crate::render::spec_damage_rects_upto(s, ob, k), ob),
    decreases k,
{
    if k > 0 {
        lemma_own_damage_inside(s, ob, k - 1);
        let prev = crate::render::spec_damage_rects_upto(s, ob, k - 1);
        match crate::render::spec_damage_rect(s, s.damage_rects@[k - 1], ob) {
            Some(r) => {
                assert(rect_inside(r, ob));
                assert(crate::render::spec_damage_rects_upto(s, ob, k) == prev.push(r));
            },
            None => {},
        }
    }
}

proof fn lemma_clip_inside(s: SurfaceSnapshot, ob: RendererRect)
    ensures
        all_inside(clip_seq(s, ob), ob),
{
    match spec_surface_bounds(s) {
        None => {},
        Some(b) => lemma_intersect_inside(b, ob),
    }
}

proof fn lemma_current_inside(prev: Seq<SurfaceSnapshot>, cur: Seq<SurfaceSnapshot>, ob: RendererRect, k: int)
    ensures
        all_inside(current_damage(prev, cur, ob, k), ob),
    decreases k,
{
    if k > 0 {
        let s = cur[k - 1];
        lemma_current_inside(prev, cur, ob, k - 1);
        lemma_clip_inside(s, ob);
        lemma_own_damage_inside(s, ob, s.damage_rects@.len() as int);
        let a = current_damage(prev, cur, ob, k - 1);
        let exposed = match last_with_id(prev, s.id@, prev.len() as int) {
            None => true,
            Some(o) => spec_differs(o, s),
        };
        let b = if exposed { clip_seq(s, ob) } else { Seq::empty() };
        let c = own_damage(s, ob);
        assert(all_inside(b, ob));
        assert(all_inside(c, ob));
        let t = a + b + c;
        assert forall|i: int| 0 <= i < t.len() implies rect_inside(#[trigger] t[i], ob) by {
            if i < a.len() {
                assert(t[i] == a[i]);
            } else if i < a.len() + b.len() {
                assert(t[i] == b[i - a.len()]);
            } else {
                assert(t[i] == c[i - a.len() - b.len()]);
            }
        }
    }
}

proof fn lemma_removed_inside(prev: Seq<SurfaceSnapshot>, cur: Seq<SurfaceSnapshot>, ob: RendererRect, k: int)
    ensures
        all_inside(removed_damage(prev, cur, ob, k), ob),
    decreases k,
{
    if k > 0 {
        let o = prev[k - 1];
        lemma_removed_inside(prev, cur, ob, k - 1);
        lemma_clip_inside(o, ob);
        let a = removed_damage(prev, cur, ob, k - 1);
        let gone = match last_with_id(cur, o.id@, cur.len() as int) {
            None => true,
            Some(n) => spec_differs(o, n),
        };
        let b = if gone { clip_seq(o, ob) } else { Seq::empty() };
        assert(all_inside(b, ob));
        let t = a + b;
        assert forall|i: int| 0 <= i < t.len() implies rect_inside(#[trigger] t[i], ob) by {
            if i < a.len() {
                assert(t[i] == a[i]);
            } else {
                assert(t[i] == b[i - a.len()]);
            }
        }
    }
}

/// Every rectangle of the collected damage lies inside a non-empty output.
pub proof fn lemma_collected_inside(previous: Option<crate::ipc::CommittedSceneState>, surfaces: Seq<SurfaceSnapshot>,
    framebuffer_ready: bool, ob: RendererRect)
    requires
        ob.x0 < ob.x1 && ob.y0 < ob.y1,
    ensures
        all_inside(collected_damage(previous, surfaces, framebuffer_ready, ob), ob),
{
    match previous {
        None => {},
        Some(p) => if framebuffer_ready {
            lemma_current_inside(p.surfaces@, surfaces, ob, surfaces.len() as int);
            lemma_removed_inside(p.surfaces@, surfaces, ob, p.surfaces@.len() as int);
            let a = current_damage(p.surfaces@, surfaces, ob, surfaces.len() as int);
            let b = removed_damage(p.surfaces@, surfaces, ob, p.surfaces@.len() as int);
            let t = a + b;
            assert forall|i: int| 0 <= i < t.len() implies rect_inside(#[trigger] t[i], ob) by {
                if i < a.len() {
                    assert(t[i] == a[i]);
                } else {
                    assert(t[i] == b[i - a.len()]);
                }
            }
        },
    }
}

/// Two sequences with the same multiset hold the same rectangles.
proof fn lemma_same_multiset_inside(s: Seq<RendererRect>, t: Seq<RendererRect>, ob: RendererRect)
    requires
        s.to_multiset() == t.to_multiset(),
        all_inside(t, ob),
    ensures
        all_inside(s, ob),
{
    broadcast use vstd::seq_lib::group_to_multiset_ensures;
    assert forall|i: int| 0 <= i < s.len() implies rect_inside(#[trigger] s[i], ob) by {
        assert(s.contains(s[i]));
        assert(t.to_multiset().count(s[i]) > 0);
        assert(t.contains(s[i]));
        let j = choose|j: int| 0 <= j < t.len() && t[j] == s[i];
        assert(rect_inside(t[j], ob));
    }
}

/// The damage to repaint for a new scene, sorted by `(y0, x0, y1, x1)`:
/// the whole output when there is no previous scene or the framebuffer is
/// not ready; otherwise the on-screen area of each new or changed surface,
/// the damage each surface reports, and the old area of each surface that
/// is gone or changed, all clipped to the output.
pub fn effective_damage_rects(previous: &Option<crate::ipc::CommittedSceneState>, surfaces: &Vec<SurfaceSnapshot>,
    framebuffer_ready: bool, output_bounds: RendererRect) -> (r: Vec<RendererRect>)
    ensures
        r@.to_multiset() == collected_damage(*previous, surfaces@, framebuffer_ready, output_bounds).to_multiset(),
        rects_sorted(r@),
        output_bounds.x0 < output_bounds.x1 && output_bounds.y0 < output_bounds.y1 ==> all_inside(r@, output_bounds),
{
    proof {
        if output_bounds.x0 < output_bounds.x1 && output_bounds.y0 < output_bounds.y1 {
            lemma_collected_inside(*previous, surfaces@, framebuffer_ready, output_bounds);
        }
    }
    let prev = match previous {
        None => {
            let v = vec![output_bounds];
            assert(v@ =~= seq![output_bounds]);
            let r = sort_rects(v);
            proof {
                if output_bounds.x0 < output_bounds.x1 && output_bounds.y0 < output_bounds.y1 {
                    lemma_same_multiset_inside(r@, v@, output_bounds);
                }
            }
            return r;
        },
        Some(p) => p,
    };
    if !framebuffer_ready {
        let v = vec![output_bounds];
        assert(v@ =~= seq![output_bounds]);
        let r = sort_rects(v);
        proof {
            if output_bounds.x0 < output_bounds.x1 && output_bounds.y0 < output_bounds.y1 {
                lemma_same_multiset_inside(r@, v@, output_bounds);
            }
        }
        return r;
    }
    let mut damage: Vec<RendererRect> = Vec::new();
    let mut k: usize = 0;
    while k < surfaces.len()
        invariant
            k <= surfaces@.len(),
            damage@ == current_damage(prev.surfaces@, surfaces@, output_bounds, k as int),
        decreases surfaces@.len() - k,
    {
        let surface = &surfaces[k];
        let exposed = match last_index_with_id(&prev.surfaces, &surface.id) {
            None => true,
            Some(i) => crate::render::surface_exposes_or_occupies_different_region(&prev.surfaces[i], surface),
        };
        if exposed {
            push_clip(&mut damage, surface, output_bounds);
        } else {
            assert(damage@ + Seq::<RendererRect>::empty() =~= damage@);
        }
        let own = crate::render::surface_damage_rects(surface, output_bounds);
        append_rects(&mut damage, own);
        k += 1;
    }
    let mut j: usize = 0;
    let ghost cur_part = damage@;
    while j < prev.surfaces.len()
        invariant
            j <= prev.surfaces@.len(),
            damage@ == cur_part + removed_damage(prev.surfaces@, surfaces@, output_bounds, j as int),
        decreases prev.surfaces@.len() - j,
    {
        let old_surface = &prev.surfaces[j];
        let gone = match last_index_with_id(surfaces, &old_surface.id) {
            None => true,
            Some(i) => crate::render::surface_exposes_or_occupies_different_region(old_surface, &surfaces[i]),
        };
        let ghost before = damage@;
        if gone {
            push_clip(&mut damage, old_surface, output_bounds);
        }
        assert(damage@ =~= cur_part + removed_damage(prev.surfaces@, surfaces@, output_bounds, j + 1));
        j += 1;
    }
    let ghost collected = damage@;
    let r = sort_rects(damage);
    proof {
        if output_bounds.x0 < output_bounds.x1 && output_bounds.y0 < output_bounds.y1 {
            lemma_same_multiset_inside(r@, collected, output_bounds);
        }
    }
    r
}


/// The store after one submission, or `None` when the payload is refused
/// (malformed, or older than what the surface holds).
pub open spec fn submit_step(before: StoreView, p: PixelTransportPayload) -> Option<StoreView> {
    let k = surface_key(p.handle);
    if crate::pixel_transport::payload_defect(p) is Some {
        None
    } else if before.contains_key(k) && crate::pixel_transport::spec_is_newer(before[k].0, p.handle.deep_view()) {
        None
    } else {
        Some(before.insert(k, p.deep_view()))
    }
}

/// The store after submitting the first `n` payloads in order, and whether
/// all of them were taken; the first refusal stops the run.
pub open spec fn submitted(before: StoreView, ps: Seq<PixelTransportPayload>, n: int) -> (StoreView, bool)
    decreases n,
{
    if n <= 0 {
        (before, true)
    } else {
        let (v, ok) = submitted(before, ps, n - 1);
        if !ok {
            (v, false)
        } else {
            match submit_step(v, ps[n - 1]) {
                Some(v2) => (v2, true),
                None => (v, false),
            }
        }
    }
}

/// `e` is the store's answer to a refused payload `p`.
pub open spec fn refusal_of(v: StoreView, p: PixelTransportPayload, e: crate::pixel_transport::PixelTransportError) -> bool {
    let k = surface_key(p.handle);
    match e {
        crate::pixel_transport::PixelTransportError::InvalidPayload { reason } =>
            crate::pixel_transport::payload_defect(p) matches Some(m) && reason@ == m,
        crate::pixel_transport::PixelTransportError::StaleGeneration { current, incoming } =>
            crate::pixel_transport::payload_defect(p) is None && v.contains_key(k)
                && current.deep_view() == v[k].0 && incoming == p.handle,
    }
}

/// Payload `i` is the first refused one, on store `v`, with answer `e`.
pub open spec fn refused_at(before: StoreView, ps: Seq<PixelTransportPayload>, i: int, v: StoreView,
    e: crate::pixel_transport::PixelTransportError) -> bool {
    &&& 0 <= i < ps.len()
    &&& submitted(before, ps, i) == (v, true)
    &&& submit_step(v, ps[i]) is None
    &&& refusal_of(v, ps[i], e)
}

/// Once a submission is refused, later payloads change nothing.
proof fn lemma_submitted_stops(before: StoreView, ps: Seq<PixelTransportPayload>, i: int, n: int)
    requires
        0 <= i <= n,
        !submitted(before, ps, i).1,
    ensures
        submitted(before, ps, n) == submitted(before, ps, i),
    decreases n - i,
{
    if i < n {
        lemma_submitted_stops(before, ps, i + 1, n);
    }
}

/// Submits the payloads in order; the first refusal stops and is returned,
/// the payloads before it stay stored.
pub fn submit_pixel_payloads(store: &mut PixelTransportStore, payloads: Vec<PixelTransportPayload>)
    -> (r: Result<(), crate::pixel_transport::PixelTransportError>)
    ensures
        final(store).view() == submitted(old(store).view(), payloads@, payloads@.len() as int).0,
        r is Ok <==> submitted(old(store).view(), payloads@, payloads@.len() as int).1,
        match r {
            Err(e) => exists|i: int| #[trigger] refused_at(old(store).view(), payloads@, i, final(store).view(), e),
            Ok(_) => true,
        },
{
    let ghost before = store.view();
    let ghost ps = payloads@;
    let ghost n = ps.len() as int;
    let mut rest = payloads;
    assert(n == rest.len());
    let mut rev: Vec<PixelTransportPayload> = Vec::new();
    while rest.len() > 0
        invariant
            n == ps.len() <= usize::MAX,
            rest@.len() + rev@.len() == n,
            forall|k: int| 0 <= k < rest@.len() ==> #[trigger] rest@[k] == ps[k],
            forall|k: int| 0 <= k < rev@.len() ==> #[trigger] rev@[k] == ps[n - 1 - k],
        decreases rest@.len(),
    {
        let p = rest.pop().unwrap();
        rev.push(p);
    }
    let mut i: usize = 0;
    while rev.len() > 0
        invariant
            n == ps.len() <= usize::MAX,
            ps == payloads@,
            before == old(store).view(),
            i + rev@.len() == n,
            forall|k: int| 0 <= k < rev@.len() ==> #[trigger] rev@[k] == ps[n - 1 - k],
            submitted(before, ps, i as int) == (store.view(), true),
        decreases rev@.len(),
    {
        let ghost v = store.view();
        let p = rev.pop().unwrap();
        assert(p == ps[i as int]);
        match store.submit(p) {
            Ok(()) => {},
            Err(e) => {
                proof {
                    assert(refused_at(before, ps, i as int, store.view(), e));
                    lemma_submitted_stops(before, ps, i as int + 1, n);
                }
                return Err(e);
            },
        }
        i += 1;
    }
    Ok(())
}

} // verus!
