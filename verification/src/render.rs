//! The software renderer of displayd: rectangles in output coordinates,
//! pixel formats and alpha blending, framebuffer addressing, and the
//! encoding of captured frames.
use vstd::prelude::*;
use crate::ipc::{OutputGeometry, SurfaceSnapshot};
use crate::text::{chars_of, decimal_chars, push_chars, push_str, string_from_chars};

verus! {

pub const BACKGROUND_PIXEL: u32 = 0xFF00_0000;
pub const WL_SHM_FORMAT_ARGB8888: u32 = 0;
pub const WL_SHM_FORMAT_XRGB8888: u32 = 1;

/// A non-empty half-open rectangle `[x0, x1) x [y0, y1)` in output space.
#[derive(Debug, Clone, Copy, PartialEq, Eq, Structural)]
pub struct RendererRect {
    pub x0: i32,
    pub y0: i32,
    pub x1: i32,
    pub y1: i32,
}

/// The rectangle at `(x, y)` of the given size, when it is non-empty and its
/// far corner fits in `i32`.
pub open spec fn spec_rect(x: i32, y: i32, width: u32, height: u32) -> Option<RendererRect> {
    if width == 0 || height == 0 || x + width > i32::MAX || y + height > i32::MAX {
        None
    } else {
        Some(RendererRect { x0: x, y0: y, x1: (x + width) as i32, y1: (y + height) as i32 })
    }
}

pub open spec fn spec_intersect(a: RendererRect, b: RendererRect) -> Option<RendererRect> {
    let x0 = if a.x0 >= b.x0 { a.x0 } else { b.x0 };
    let y0 = if a.y0 >= b.y0 { a.y0 } else { b.y0 };
    let x1 = if a.x1 <= b.x1 { a.x1 } else { b.x1 };
    let y1 = if a.y1 <= b.y1 { a.y1 } else { b.y1 };
    if x1 > x0 && y1 > y0 { Some(RendererRect { x0, y0, x1, y1 }) } else { None }
}

/// The point `(x, y)` lies in the rectangle.
pub open spec fn rect_contains(r: RendererRect, x: int, y: int) -> bool {
    r.x0 <= x < r.x1 && r.y0 <= y < r.y1
}

/// `value + delta` when it fits in `i32`.
pub fn checked_add_i32_u32(value: i32, delta: u32) -> (r: Option<i32>)
    ensures
        r == (if value + delta <= i32::MAX { Some((value + delta) as i32) } else { None::<i32> }),
{
    let sum = value as i64 + delta as i64;
    if sum <= 2147483647i64 { Some(sum as i32) } else { None }
}

impl RendererRect {
    pub open spec fn well_formed(self) -> bool {
        self.x0 < self.x1 && self.y0 < self.y1
    }

    pub fn from_origin_size(x: i32, y: i32, width: u32, height: u32) -> (r: Option<Self>)
        ensures
            r == spec_rect(x, y, width, height),
    {
        if width == 0 || height == 0 {
            return None;
        }
        let x1 = match checked_add_i32_u32(x, width) { Some(v) => v, None => { return None; } };
        let y1 = match checked_add_i32_u32(y, height) { Some(v) => v, None => { return None; } };
        if x1 > x && y1 > y { Some(RendererRect { x0: x, y0: y, x1, y1 }) } else { None }
    }

    pub fn width(self) -> (r: u32)
        requires
            self.well_formed(),
        ensures
            r == self.x1 - self.x0,
    {
        (self.x1 as i64 - self.x0 as i64) as u32
    }

    pub fn height(self) -> (r: u32)
        requires
            self.well_formed(),
        ensures
            r == self.y1 - self.y0,
    {
        (self.y1 as i64 - self.y0 as i64) as u32
    }

    pub fn area(self) -> (r: u64)
        requires
            self.well_formed(),
        ensures
            r == (self.x1 - self.x0) * (self.y1 - self.y0),
    {
        let w = self.width() as u64;
        let h = self.height() as u64;
        assert(w * h <= u32::MAX as int * u32::MAX as int) by (nonlinear_arith)
            requires w <= u32::MAX, h <= u32::MAX;
        w * h
    }

    /// The overlap of two rectangles, when it is not empty.
    pub fn intersect(self, other: Self) -> (r: Option<Self>)
        ensures
            r == spec_intersect(self, other),
    {
        let x0 = if self.x0 >= other.x0 { self.x0 } else { other.x0 };
        let y0 = if self.y0 >= other.y0 { self.y0 } else { other.y0 };
        let x1 = if self.x1 <= other.x1 { self.x1 } else { other.x1 };
        let y1 = if self.y1 <= other.y1 { self.y1 } else { other.y1 };
        if x1 > x0 && y1 > y0 { Some(RendererRect { x0, y0, x1, y1 }) } else { None }
    }
}

/// A point lies in the overlap exactly when it lies in both rectangles.
pub proof fn lemma_intersect_contains(a: RendererRect, b: RendererRect, x: int, y: int)
    ensures
        (spec_intersect(a, b) matches Some(c) && rect_contains(c, x, y)) <==> (rect_contains(a, x, y) && rect_contains(b, x, y)),
{
}

/// A validated output framebuffer.
#[derive(Debug, PartialEq, Eq)]
pub struct OutputState {
    pub output_id: String,
    pub width: u32,
    pub height: u32,
    pub stride: u32,
    pub format: u32,
    pub origin_x: i32,
    pub origin_y: i32,
    pub generation: u64,
}

impl Clone for OutputState {
    fn clone(&self) -> (r: Self)
        ensures
            r == *self,
    {
        OutputState {
            output_id: self.output_id.clone(),
            width: self.width,
            height: self.height,
            stride: self.stride,
            format: self.format,
            origin_x: self.origin_x,
            origin_y: self.origin_y,
            generation: self.generation,
        }
    }
}

/// What `OutputState::validate` checks, in order, with its message.
pub open spec fn geometry_defect(g: OutputGeometry) -> Option<Seq<char>> {
    if g.output_id@.len() == 0 || g.width == 0 || g.height == 0 {
        Some("invalid output identity or zero dimensions"@)
    } else if g.format != WL_SHM_FORMAT_XRGB8888 {
        Some("output framebuffer must be XRGB8888"@)
    } else if g.width as int * 4 > u32::MAX {
        Some("output stride overflow"@)
    } else if (g.stride as int) < g.width as int * 4 || g.stride % 4 != 0 {
        Some("undersized or unaligned output stride"@)
    } else if (g.stride / 4) as int * g.height as int > usize::MAX {
        Some("framebuffer size overflow"@)
    } else if g.origin_x + g.width > i32::MAX || g.origin_y + g.height > i32::MAX {
        Some("output bounds overflow"@)
    } else {
        None
    }
}

/// The output is well formed: what `validate` accepts.
pub open spec fn output_valid(o: OutputState) -> bool {
    &&& o.output_id@.len() > 0 && o.width > 0 && o.height > 0
    &&& o.format == WL_SHM_FORMAT_XRGB8888
    &&& o.width as int * 4 <= o.stride
    &&& o.stride % 4 == 0
    &&& (o.stride / 4) as int * o.height as int <= usize::MAX
    &&& o.origin_x + o.width <= i32::MAX && o.origin_y + o.height <= i32::MAX
}

pub open spec fn spec_output_bounds(o: OutputState) -> RendererRect {
    RendererRect { x0: o.origin_x, y0: o.origin_y, x1: (o.origin_x + o.width) as i32, y1: (o.origin_y + o.height) as i32 }
}

/// Words in the framebuffer: a row of `stride / 4` words per line.
pub open spec fn spec_framebuffer_words(o: OutputState) -> int {
    (o.stride / 4) as int * o.height as int
}

impl OutputState {
    /// Accepts an output geometry: a named, non-empty XRGB8888 framebuffer
    /// whose stride is aligned and covers its width, whose size fits, and
    /// whose far corner fits in output coordinates.
    pub fn validate(g: &OutputGeometry) -> (r: Result<OutputState, String>)
        ensures
            match geometry_defect(*g) {
                Some(m) => r matches Err(e) && e@ == m,
                None => r matches Ok(o) && output_valid(o) && o.output_id == g.output_id && o.width == g.width
                    && o.height == g.height && o.stride == g.stride && o.format == g.format
                    && o.origin_x == g.origin_x && o.origin_y == g.origin_y && o.generation == g.output_generation,
            },
    {
        if g.output_id.as_str().is_empty() || g.width == 0 || g.height == 0 {
            return Err(String::from_str("invalid output identity or zero dimensions"));
        }
        if g.format != WL_SHM_FORMAT_XRGB8888 {
            return Err(String::from_str("output framebuffer must be XRGB8888"));
        }
        let min = match g.width.checked_mul(4) {
            Some(v) => v,
            None => { return Err(String::from_str("output stride overflow")); }
        };
        if g.stride < min || g.stride % 4 != 0 {
            return Err(String::from_str("undersized or unaligned output stride"));
        }
        let row = (g.stride / 4) as usize;
        let words = match row.checked_mul(g.height as usize) {
            Some(v) => v,
            None => { return Err(String::from_str("framebuffer size overflow")); }
        };
        assert(words > 0) by (nonlinear_arith)
            requires words == row * g.height, row >= 1, g.height >= 1;
        if checked_add_i32_u32(g.origin_x, g.width).is_none() || checked_add_i32_u32(g.origin_y, g.height).is_none() {
            return Err(String::from_str("output bounds overflow"));
        }
        Ok(OutputState {
            output_id: g.output_id.clone(),
            width: g.width,
            height: g.height,
            stride: g.stride,
            format: g.format,
            origin_x: g.origin_x,
            origin_y: g.origin_y,
            generation: g.output_generation,
        })
    }

    /// The output's rectangle in output space.
    pub fn bounds(&self) -> (r: RendererRect)
        requires
            output_valid(*self),
        ensures
            r == spec_output_bounds(*self),
            r.well_formed(),
    {
        RendererRect {
            x0: self.origin_x,
            y0: self.origin_y,
            x1: (self.origin_x as i64 + self.width as i64) as i32,
            y1: (self.origin_y as i64 + self.height as i64) as i32,
        }
    }

    pub fn framebuffer_words(&self) -> (r: usize)
        requires
            output_valid(*self),
        ensures
            r == spec_framebuffer_words(*self),
    {
        (self.stride as usize / 4) * self.height as usize
    }
}

/// Index of output pixel `(x, y)` in the framebuffer, when it lies on the
/// output.
pub open spec fn spec_fb_offset(o: OutputState, x: int, y: int) -> Option<int> {
    let lx = x - o.origin_x;
    let ly = y - o.origin_y;
    if lx < 0 || ly < 0 || lx >= o.width || ly >= o.height {
        None
    } else {
        Some(ly * (o.stride / 4) as int + lx)
    }
}

/// Framebuffer index of an output pixel; fails outside the output.
pub fn framebuffer_offset_for_output(output: &OutputState, x: i32, y: i32) -> (r: Result<usize, String>)
    requires
        output_valid(*output),
    ensures
        match spec_fb_offset(*output, x as int, y as int) {
            Some(i) => r == Ok::<usize, String>(i as usize) && 0 <= i < spec_framebuffer_words(*output),
            None => r matches Err(m) && m@ == "framebuffer coordinate out of bounds"@,
        },
{
    let local_x = x as i64 - output.origin_x as i64;
    let local_y = y as i64 - output.origin_y as i64;
    if local_x < 0 || local_y < 0 || local_x >= output.width as i64 || local_y >= output.height as i64 {
        return Err(String::from_str("framebuffer coordinate out of bounds"));
    }
    let row = output.stride as usize / 4;
    let ly = local_y as usize;
    let lx = local_x as usize;
    assert(ly * row + lx < row * output.height) by (nonlinear_arith)
        requires ly < output.height, lx < row, row >= 1;
    assert(row * output.height <= usize::MAX);
    Ok(ly * row + lx)
}

/// The index map of an output is one-to-one on the output's pixels.
pub proof fn lemma_fb_offset_injective(o: OutputState, x1: int, y1: int, x2: int, y2: int)
    requires
        output_valid(o),
        spec_fb_offset(o, x1, y1) is Some,
        spec_fb_offset(o, x1, y1) == spec_fb_offset(o, x2, y2),
    ensures
        x1 == x2 && y1 == y2,
{
    let w = (o.stride / 4) as int;
    let a = x1 - o.origin_x;
    let b = y1 - o.origin_y;
    let c = x2 - o.origin_x;
    let d = y2 - o.origin_y;
    assert(w >= o.width);
    assert(b == d && a == c) by (nonlinear_arith)
        requires b * w + a == d * w + c, 0 <= a < w, 0 <= c < w, b >= 0, d >= 0;
}

/// How the bytes of a pixel payload are read.
#[derive(Debug, Clone, Copy, PartialEq, Eq, Structural)]
pub enum PixelFormatPolicy {
    PremultipliedArgb8888,
    OpaqueXrgb8888,
}

impl PixelFormatPolicy {
    pub fn from_wire_format(format: u32) -> (r: Result<PixelFormatPolicy, String>)
        ensures
            format == WL_SHM_FORMAT_ARGB8888 ==> r == Ok::<PixelFormatPolicy, String>(PixelFormatPolicy::PremultipliedArgb8888),
            format == WL_SHM_FORMAT_XRGB8888 ==> r == Ok::<PixelFormatPolicy, String>(PixelFormatPolicy::OpaqueXrgb8888),
            format != WL_SHM_FORMAT_ARGB8888 && format != WL_SHM_FORMAT_XRGB8888 ==>
                (r matches Err(m) && m@ == "unsupported pixel format "@ + crate::text::decimal_digits(format as nat)),
    {
        if format == WL_SHM_FORMAT_ARGB8888 {
            Ok(PixelFormatPolicy::PremultipliedArgb8888)
        } else if format == WL_SHM_FORMAT_XRGB8888 {
            Ok(PixelFormatPolicy::OpaqueXrgb8888)
        } else {
            let mut m = chars_of("unsupported pixel format ");
            let d = decimal_chars(format as u64);
            push_chars(&mut m, &d);
            Err(string_from_chars(&m))
        }
    }
}

/// One source pixel: opaque, or premultiplied with its alpha.
#[derive(Debug, Clone, Copy, PartialEq, Eq, Structural)]
pub enum SourcePixel {
    Opaque(u32),
    Premultiplied { a: u8, r: u8, g: u8, b: u8 },
}

/// The source pixel a stored word stands for: XRGB words are opaque with
/// the unused byte forced to 0xFF; ARGB words are premultiplied and no
/// colour channel may exceed alpha.
pub open spec fn spec_decode(word: u32, policy: PixelFormatPolicy) -> Option<SourcePixel> {
    match policy {
        PixelFormatPolicy::OpaqueXrgb8888 => Some(SourcePixel::Opaque(0xFF00_0000 | (word & 0x00FF_FFFF))),
        PixelFormatPolicy::PremultipliedArgb8888 => {
            let a = ((word >> 24) & 0xFF) as u8;
            let r = ((word >> 16) & 0xFF) as u8;
            let g = ((word >> 8) & 0xFF) as u8;
            let b = (word & 0xFF) as u8;
            if r > a || g > a || b > a { None } else { Some(SourcePixel::Premultiplied { a, r, g, b }) }
        },
    }
}

pub fn decode_source_pixel(word: u32, policy: PixelFormatPolicy) -> (r: Result<SourcePixel, String>)
    ensures
        match spec_decode(word, policy) {
            Some(p) => r == Ok::<SourcePixel, String>(p),
            None => r is Err,
        },
{
    match policy {
        PixelFormatPolicy::OpaqueXrgb8888 => Ok(SourcePixel::Opaque(0xFF00_0000 | (word & 0x00FF_FFFF))),
        PixelFormatPolicy::PremultipliedArgb8888 => {
            let a = ((word >> 24) & 0xFF) as u8;
            let r = ((word >> 16) & 0xFF) as u8;
            let g = ((word >> 8) & 0xFF) as u8;
            let b = (word & 0xFF) as u8;
            if r > a || g > a || b > a {
                let mut m = chars_of("non-premultiplied ARGB8888 pixel r=");
                let d1 = decimal_chars(r as u64);
                push_chars(&mut m, &d1);
                push_str(&mut m, " g=");
                let d2 = decimal_chars(g as u64);
                push_chars(&mut m, &d2);
                push_str(&mut m, " b=");
                let d3 = decimal_chars(b as u64);
                push_chars(&mut m, &d3);
                push_str(&mut m, " a=");
                let d4 = decimal_chars(a as u64);
                push_chars(&mut m, &d4);
                return Err(string_from_chars(&m));
            }
            Ok(SourcePixel::Premultiplied { a, r, g, b })
        },
    }
}

/// `value / 255`, rounded to nearest.
pub fn div255_rounded(value: u32) -> (r: u32)
    requires
        value <= u32::MAX - 127,
    ensures
        r == (value + 127) / 255,
{
    (value + 127) / 255
}

pub open spec fn min255(v: int) -> int {
    if v > 255 { 255 } else { v }
}

/// Source-over of one channel: the premultiplied source channel plus the
/// destination channel scaled by `255 - a`, rounded, capped at 255.
pub open spec fn blend_channel(src: u8, dst: u32, a: u8) -> int {
    min255(src + (dst * (255 - a) + 127) / 255)
}

/// Source-over blending onto an opaque framebuffer: an opaque source
/// replaces the destination (alpha forced to 0xFF); a transparent source
/// keeps it; a fully opaque premultiplied source replaces it; otherwise each
/// channel is blended and the result is opaque.
pub open spec fn spec_compose(src: SourcePixel, dst: u32) -> u32 {
    match src {
        SourcePixel::Opaque(p) => 0xFF00_0000 | (p & 0x00FF_FFFF),
        SourcePixel::Premultiplied { a, r, g, b } => if a == 0 {
            dst
        } else if a == 255 {
            (0xFF00_0000u32 as int + r as int * 65536 + g as int * 256 + b as int) as u32
        } else {
            (0xFF00_0000u32 as int + blend_channel(r, (dst >> 16) & 0xFF, a) * 65536
                + blend_channel(g, (dst >> 8) & 0xFF, a) * 256 + blend_channel(b, dst & 0xFF, a)) as u32
        },
    }
}

proof fn lemma_pack(r: u32, g: u32, b: u32)
    requires
        r < 256, g < 256, b < 256,
    ensures
        0xFF00_0000u32 | (r << 16) | (g << 8) | b == 0xFF00_0000u32 as int + r * 65536 + g * 256 + b,
{
    assert(0xFF00_0000u32 | (r << 16) | (g << 8) | b == 0xFF00_0000u32 + r * 65536 + g * 256 + b) by (bit_vector)
        requires r < 256, g < 256, b < 256;
}

/// Blends a source pixel over a framebuffer pixel.
pub fn compose_source_over(src: SourcePixel, dst: u32) -> (r: u32)
    ensures
        r == spec_compose(src, dst),
{
    match src {
        SourcePixel::Opaque(pixel) => 0xFF00_0000 | (pixel & 0x00FF_FFFF),
        SourcePixel::Premultiplied { a, r, g, b } => {
            if a == 0 {
                dst
            } else if a == 255 {
                proof { lemma_pack(r as u32, g as u32, b as u32); }
                0xFF00_0000 | ((r as u32) << 16) | ((g as u32) << 8) | b as u32
            } else {
                let inv = 255u32 - a as u32;
                let dst_r = (dst >> 16) & 0xFF;
                let dst_g = (dst >> 8) & 0xFF;
                let dst_b = dst & 0xFF;
                assert(dst_r <= 255 && dst_g <= 255 && dst_b <= 255) by (bit_vector)
                    requires dst_r == (dst >> 16) & 0xFF, dst_g == (dst >> 8) & 0xFF, dst_b == dst & 0xFF;
                assert(dst_r * inv <= 65025 && dst_g * inv <= 65025 && dst_b * inv <= 65025) by (nonlinear_arith)
                    requires dst_r <= 255, dst_g <= 255, dst_b <= 255, inv <= 255;
                let out_r = r as u32 + div255_rounded(dst_r * inv);
                let out_g = g as u32 + div255_rounded(dst_g * inv);
                let out_b = b as u32 + div255_rounded(dst_b * inv);
                let cr = if out_r > 255 { 255 } else { out_r };
                let cg = if out_g > 255 { 255 } else { out_g };
                let cb = if out_b > 255 { 255 } else { out_b };
                proof { lemma_pack(cr, cg, cb); }
                0xFF00_0000 | (cr << 16) | (cg << 8) | cb
            }
        },
    }
}

} // verus!

verus! {

/// Whether displayd's last scene makes an incoming one stale: a non-zero
/// generation from an older epoch, or an older generation of the same epoch.
pub open spec fn spec_generation_is_stale(last_epoch: u64, last_generation: u64, incoming_epoch: u64, incoming_generation: u64) -> bool {
    incoming_generation != 0 && (incoming_epoch < last_epoch || (incoming_epoch == last_epoch && incoming_generation < last_generation))
}

pub fn scene_generation_is_stale(last_epoch: u64, last_generation: u64, incoming_epoch: u64, incoming_generation: u64) -> (r: bool)
    ensures
        r == spec_generation_is_stale(last_epoch, last_generation, incoming_epoch, incoming_generation),
{
    incoming_generation != 0 && (incoming_epoch < last_epoch || (incoming_epoch == last_epoch && incoming_generation < last_generation))
}

/// The on-screen rectangle of a visible surface.
pub open spec fn spec_surface_bounds(s: SurfaceSnapshot) -> Option<RendererRect> {
    if !s.placement.visible { None } else { spec_rect(s.placement.x, s.placement.y, s.placement.width, s.placement.height) }
}

pub fn surface_output_bounds(surface: &SurfaceSnapshot) -> (r: Option<RendererRect>)
    ensures
        r == spec_surface_bounds(*surface),
{
    if !surface.placement.visible {
        return None;
    }
    RendererRect::from_origin_size(surface.placement.x, surface.placement.y, surface.placement.width, surface.placement.height)
}

/// One damage rectangle of a surface in output space: the surface-local
/// rectangle clipped to the surface, moved to the surface's position, and
/// clipped to the surface and to the output.
pub open spec fn spec_damage_rect(s: SurfaceSnapshot, d: crate::ipc::Rect, output_bounds: RendererRect) -> Option<RendererRect> {
    match spec_surface_bounds(s) {
        None => None,
        Some(sb) => match spec_rect(0, 0, s.placement.width, s.placement.height) {
            None => None,
            Some(local_bounds) => match spec_rect(d.x, d.y, d.width, d.height) {
                None => None,
                Some(local0) => match spec_intersect(local0, local_bounds) {
                    None => None,
                    Some(local) => if s.placement.x + local.x0 > i32::MAX || s.placement.x + local.x0 < i32::MIN
                        || s.placement.y + local.y0 > i32::MAX || s.placement.y + local.y0 < i32::MIN {
                        None
                    } else {
                        match spec_rect((s.placement.x + local.x0) as i32, (s.placement.y + local.y0) as i32,
                            (local.x1 - local.x0) as u32, (local.y1 - local.y0) as u32) {
                            None => None,
                            Some(o) => match spec_intersect(o, sb) {
                                None => None,
                                Some(c) => spec_intersect(c, output_bounds),
                            },
                        }
                    },
                },
            },
        },
    }
}

/// The damage rectangles of a surface's first `k` damage entries, in
/// order, leaving out those that end up empty.
pub open spec fn spec_damage_rects_upto(s: SurfaceSnapshot, output_bounds: RendererRect, k: int) -> Seq<RendererRect>
    decreases k,
{
    if k <= 0 {
        Seq::empty()
    } else {
        let prev = spec_damage_rects_upto(s, output_bounds, k - 1);
        match spec_damage_rect(s, s.damage_rects@[k - 1], output_bounds) {
            Some(r) => prev.push(r),
            None => prev,
        }
    }
}

fn damage_rect_of(surface: &SurfaceSnapshot, d: crate::ipc::Rect, output_bounds: RendererRect) -> (r: Option<RendererRect>)
    ensures
        r == spec_damage_rect(*surface, d, output_bounds),
{
    let surface_bounds = match surface_output_bounds(surface) { Some(b) => b, None => { return None; } };
    let local_bounds = match RendererRect::from_origin_size(0, 0, surface.placement.width, surface.placement.height) {
        Some(b) => b,
        None => { return None; }
    };
    let local = match RendererRect::from_origin_size(d.x, d.y, d.width, d.height) { Some(b) => b, None => { return None; } };
    let local = match local.intersect(local_bounds) { Some(b) => b, None => { return None; } };
    let ox = match surface.placement.x.checked_add(local.x0) { Some(v) => v, None => { return None; } };
    let oy = match surface.placement.y.checked_add(local.y0) { Some(v) => v, None => { return None; } };
    let moved = match RendererRect::from_origin_size(ox, oy, local.width(), local.height()) { Some(b) => b, None => { return None; } };
    let clipped = match moved.intersect(surface_bounds) { Some(b) => b, None => { return None; } };
    clipped.intersect(output_bounds)
}

/// The damage a surface reports, in output space, clipped to the surface
/// and to the output.
pub fn surface_damage_rects(surface: &SurfaceSnapshot, output_bounds: RendererRect) -> (r: Vec<RendererRect>)
    ensures
        r@ == (if spec_surface_bounds(*surface) is None || spec_rect(0, 0, surface.placement.width, surface.placement.height) is None {
            Seq::empty()
        } else {
            spec_damage_rects_upto(*surface, output_bounds, surface.damage_rects@.len() as int)
        }),
{
    let mut out: Vec<RendererRect> = Vec::new();
    if surface_output_bounds(surface).is_none() {
        return out;
    }
    if RendererRect::from_origin_size(0, 0, surface.placement.width, surface.placement.height).is_none() {
        return out;
    }
    let mut i: usize = 0;
    while i < surface.damage_rects.len()
        invariant
            i <= surface.damage_rects@.len(),
            out@ == spec_damage_rects_upto(*surface, output_bounds, i as int),
        decreases surface.damage_rects@.len() - i,
    {
        match damage_rect_of(surface, surface.damage_rects[i], output_bounds) {
            Some(r) => out.push(r),
            None => {},
        }
        i += 1;
    }
    out
}

/// The colour a surface without pixels is drawn in: blue for panels, red
/// otherwise.
pub open spec fn spec_fallback_pixel(s: SurfaceSnapshot) -> u32 {
    if crate::text::seq_contains_run(s.id@, "panel"@) { 0xFF0000FF } else { 0xFFFF0000 }
}

pub fn fallback_surface_pixel(surface: &SurfaceSnapshot) -> (r: u32)
    ensures
        r == spec_fallback_pixel(*surface),
{
    let id = chars_of(surface.id.as_str());
    let needle = chars_of("panel");
    if crate::text::contains_run(&id, &needle) { 0xFF0000FF } else { 0xFFFF0000 }
}

/// Whether a surface shows something different from before: another
/// placement or buffer generation.
pub fn surface_exposes_or_occupies_different_region(old: &SurfaceSnapshot, new: &SurfaceSnapshot) -> (r: bool)
    ensures
        r == (old.placement != new.placement || old.buffer_generation != new.buffer_generation),
{
    old.placement != new.placement || old.buffer_generation != new.buffer_generation
        || old.placement.visible != new.placement.visible
}

} // verus!

verus! {

/// Little-endian value of four bytes.
pub open spec fn le_word(b0: u8, b1: u8, b2: u8, b3: u8) -> u32 {
    (b0 as int + b1 as int * 256 + b2 as int * 65536 + b3 as int * 16777216) as u32
}

/// Checks that a captured frame holds exactly `width * height` pixels.
pub fn validate_capture_pixel_count(width: u32, height: u32, pixel_len: usize) -> (r: Result<(), String>)
    ensures
        r is Ok <==> (width as int * height as int <= u32::MAX && pixel_len == width as int * height as int),
        width as int * height as int > u32::MAX ==> (r matches Err(m) && m@ == "capture dimensions overflow"@),
{
    let expected = match width.checked_mul(height) {
        Some(v) => v,
        None => { return Err(String::from_str("capture dimensions overflow")); }
    };
    if pixel_len != expected as usize {
        let mut m = chars_of("capture buffer size mismatch: got ");
        let a = decimal_chars(pixel_len as u64);
        push_chars(&mut m, &a);
        push_str(&mut m, " pixels, expected ");
        let b = decimal_chars(expected as u64);
        push_chars(&mut m, &b);
        push_str(&mut m, " for ");
        let c = decimal_chars(width as u64);
        push_chars(&mut m, &c);
        push_str(&mut m, "x");
        let d = decimal_chars(height as u64);
        push_chars(&mut m, &d);
        return Err(string_from_chars(&m));
    }
    Ok(())
}

/// The RGBA8888 bytes of a `0xAARRGGBB` pixel: red, green, blue, alpha,
/// whatever the machine's byte order.
pub open spec fn spec_rgba(pixel: u32) -> Seq<u8> {
    seq![(pixel & 0xFF) as u8, ((pixel >> 8) & 0xFF) as u8, ((pixel >> 16) & 0xFF) as u8, ((pixel >> 24) & 0xFF) as u8]
}

pub fn u32_to_rgba8888(pixel: u32) -> (r: [u8; 4])
    ensures
        r@ == spec_rgba(pixel),
{
    let r = (pixel & 0xFF) as u8;
    let g = ((pixel >> 8) & 0xFF) as u8;
    let b = ((pixel >> 16) & 0xFF) as u8;
    let a = ((pixel >> 24) & 0xFF) as u8;
    let out = [r, g, b, a];
    assert(out@ =~= spec_rgba(pixel));
    out
}

/// Encodes a captured frame as RGBA8888 bytes, four per pixel in order,
/// after checking its pixel count.
pub fn encode_rgba8888_artifact_bytes(width: u32, height: u32, pixels: &[u32]) -> (r: Result<Vec<u8>, String>)
    ensures
        r is Ok <==> (width as int * height as int <= u32::MAX && pixels@.len() == width as int * height as int
            && 4 * pixels@.len() <= usize::MAX),
        r matches Ok(bytes) ==> bytes@.len() == 4 * pixels@.len()
            && forall|i: int, k: int| 0 <= i < pixels@.len() && 0 <= k < 4 ==> #[trigger] bytes@[4 * i + k] == spec_rgba(pixels@[i])[k],
        r matches Err(m) ==> (width as int * height as int > u32::MAX ==> m@ == "capture dimensions overflow"@),
{
    match validate_capture_pixel_count(width, height, pixels.len()) {
        Ok(()) => {},
        Err(e) => { return Err(e); }
    }
    if pixels.len() > usize::MAX / 4 {
        return Err(String::from_str("capture artifact byte size overflow"));
    }
    let mut bytes: Vec<u8> = Vec::new();
    let mut i: usize = 0;
    while i < pixels.len()
        invariant
            i <= pixels@.len(),
            4 * pixels@.len() <= usize::MAX,
            bytes@.len() == 4 * i,
            forall|j: int, k: int| 0 <= j < i && 0 <= k < 4 ==> #[trigger] bytes@[4 * j + k] == spec_rgba(pixels@[j])[k],
        decreases pixels@.len() - i,
    {
        let quad = u32_to_rgba8888(pixels[i]);
        let ghost before = bytes@;
        bytes.push(quad[0]);
        bytes.push(quad[1]);
        bytes.push(quad[2]);
        bytes.push(quad[3]);
        proof {
            assert forall|j: int, k: int| 0 <= j < i + 1 && 0 <= k < 4 implies #[trigger] bytes@[4 * j + k] == spec_rgba(pixels@[j])[k] by {
                if j < i {
                    assert(bytes@[4 * j + k] == before[4 * j + k]);
                }
            }
        }
        i += 1;
    }
    Ok(bytes)
}

/// The demo capture pattern: red follows x, green follows y, blue is 128,
/// fully opaque.
pub open spec fn spec_mock_pixel(x: int, y: int) -> u32 {
    (0xFF00_0000u32 as int + (x % 256) * 65536 + (y % 256) * 256 + 128) as u32
}

pub fn generate_mock_pixels(width: u32, height: u32) -> (r: Vec<u32>)
    requires
        width as int * height as int <= u32::MAX,
    ensures
        r@.len() == width as int * height as int,
        forall|y: int, x: int| 0 <= y < height && 0 <= x < width ==> #[trigger] r@[y * width + x] == spec_mock_pixel(x, y),
{
    let mut pixels: Vec<u32> = Vec::new();
    let mut y: u32 = 0;
    while y < height
        invariant
            y <= height,
            width as int * height as int <= u32::MAX,
            pixels@.len() == y as int * width as int,
            forall|yy: int, x: int| 0 <= yy < y && 0 <= x < width ==> #[trigger] pixels@[yy * width + x] == spec_mock_pixel(x, yy),
        decreases height - y,
    {
        let mut x: u32 = 0;
        while x < width
            invariant
                x <= width,
                y < height,
                width as int * height as int <= u32::MAX,
                pixels@.len() == y as int * width as int + x,
                forall|yy: int, xx: int| 0 <= yy < y && 0 <= xx < width ==> #[trigger] pixels@[yy * width + xx] == spec_mock_pixel(xx, yy),
                forall|xx: int| 0 <= xx < x ==> #[trigger] pixels@[y * width + xx] == spec_mock_pixel(xx, y as int),
            decreases width - x,
        {
            let r = x % 256;
            let g = y % 256;
            proof { lemma_pack(r, g, 128); }
            let ghost before = pixels@;
            pixels.push((255u32 << 24) | (r << 16) | (g << 8) | 128u32);
            proof {
                assert((255u32 << 24) == 0xFF00_0000u32) by (bit_vector);
                assert(pixels@[y * width + x] == spec_mock_pixel(x as int, y as int));
                assert forall|yy: int, xx: int| 0 <= yy < y && 0 <= xx < width implies #[trigger] pixels@[yy * width + xx] == spec_mock_pixel(xx, yy) by {
                    assert(yy * width + xx < y * width) by (nonlinear_arith)
                        requires yy < y, xx < width, 0 <= yy, 0 <= xx;
                    assert(pixels@[yy * width + xx] == before[yy * width + xx]);
                }
            }
            x += 1;
        }
        proof {
            assert forall|yy: int, xx: int| 0 <= yy < y + 1 && 0 <= xx < width implies #[trigger] pixels@[yy * width + xx] == spec_mock_pixel(xx, yy) by {
                if yy == y {
                    assert(pixels@[y * width + xx] == spec_mock_pixel(xx, y as int));
                }
            }
            assert((y + 1) * width == y * width + width) by (nonlinear_arith);
        }
        y += 1;
    }
    assert(height as int * width as int == width as int * height as int) by (nonlinear_arith);
    pixels
}

/// `u32::from_ne_bytes`: the word the four bytes make in the machine's own
/// byte order. Which order that is depends on the machine, so it is only
/// claimed to be the little-endian or the big-endian reading.
#[verifier::external_body]
fn word_from_native_bytes(b0: u8, b1: u8, b2: u8, b3: u8) -> (r: u32)
    ensures
        r == le_word(b0, b1, b2, b3) || r == le_word(b3, b2, b1, b0),
{
    u32::from_ne_bytes([b0, b1, b2, b3])
}

/// An X11 pixel value turned into `0xAARRGGBB`: each channel is taken
/// through its visual mask and shifted down by the mask's trailing zeros,
/// and alpha is 0xFF.
pub open spec fn spec_x11_pixel(val: u32, red_mask: u32, green_mask: u32, blue_mask: u32) -> u32 {
    let r = vstd::wrapping::u32_specs::wrapping_shr(val & red_mask, red_mask.trailing_zeros()) & 0xFF;
    let g = vstd::wrapping::u32_specs::wrapping_shr(val & green_mask, green_mask.trailing_zeros()) & 0xFF;
    let b = vstd::wrapping::u32_specs::wrapping_shr(val & blue_mask, blue_mask.trailing_zeros()) & 0xFF;
    0xFF00_0000u32 | (r << 16) | (g << 8) | b
}

/// Converts a 32-bit ZPixmap into `0xAARRGGBB` pixels, one per four
/// bytes, each read in the machine's byte order.
pub fn convert_x11_to_internal_u32(width: u32, height: u32, data: &[u8], red_mask: u32, green_mask: u32, blue_mask: u32)
    -> (r: Result<Vec<u32>, String>)
    requires
        width as int * height as int <= u32::MAX,
        4 * (width as int * height as int) <= usize::MAX,
    ensures
        r is Ok <==> data@.len() >= 4 * (width as int * height as int),
        r matches Ok(pixels) ==> pixels@.len() == width as int * height as int
            && forall|i: int| 0 <= i < pixels@.len() ==> {
                let w = #[trigger] pixels@[i];
                w == spec_x11_pixel(le_word(data@[4 * i], data@[4 * i + 1], data@[4 * i + 2], data@[4 * i + 3]), red_mask, green_mask, blue_mask)
                || w == spec_x11_pixel(le_word(data@[4 * i + 3], data@[4 * i + 2], data@[4 * i + 1], data@[4 * i]), red_mask, green_mask, blue_mask)
            },
{
    let count = (width * height) as usize;
    let expected_len = count * 4;
    proof { assert(data@.len() == data.len()); }
    if data.len() < expected_len {
        let mut m = chars_of("X11 image data too short: got ");
        let a = decimal_chars(data.len() as u64);
        push_chars(&mut m, &a);
        push_str(&mut m, ", expected ");
        let b = decimal_chars(expected_len as u64);
        push_chars(&mut m, &b);
        return Err(string_from_chars(&m));
    }
    let rs = red_mask.trailing_zeros();
    let gs = green_mask.trailing_zeros();
    let bs = blue_mask.trailing_zeros();
    let mut pixels: Vec<u32> = Vec::new();
    let mut i: usize = 0;
    while i < count
        invariant
            i <= count,
            count == width as int * height as int,
            4 * count <= data@.len(),
            4 * count <= usize::MAX,
            rs == red_mask.trailing_zeros() && gs == green_mask.trailing_zeros() && bs == blue_mask.trailing_zeros(),
            pixels@.len() == i,
            forall|j: int| 0 <= j < i ==> {
                let w = #[trigger] pixels@[j];
                w == spec_x11_pixel(le_word(data@[4 * j], data@[4 * j + 1], data@[4 * j + 2], data@[4 * j + 3]), red_mask, green_mask, blue_mask)
                || w == spec_x11_pixel(le_word(data@[4 * j + 3], data@[4 * j + 2], data@[4 * j + 1], data@[4 * j]), red_mask, green_mask, blue_mask)
            },
        decreases count - i,
    {
        let o = 4 * i;
        let val = word_from_native_bytes(data[o], data[o + 1], data[o + 2], data[o + 3]);
        let r = (val & red_mask).wrapping_shr(rs) & 0xFF;
        let g = (val & green_mask).wrapping_shr(gs) & 0xFF;
        let b = (val & blue_mask).wrapping_shr(bs) & 0xFF;
        pixels.push((255u32 << 24) | (r << 16) | (g << 8) | b);
        proof {
            assert((255u32 << 24) == 0xFF00_0000u32) by (bit_vector);
        }
        i += 1;
    }
    Ok(pixels)
}

} // verus!
