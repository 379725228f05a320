//! Decoding of one screen-cast video frame, as a capture stream delivers it,
//! into `0xAARRGGBB` pixels.
use vstd::prelude::*;
use crate::text::{chars_of, decimal_chars, push_chars, push_str, string_from_chars};

verus! {

/// The raw video formats a capture frame can arrive in; any other format is
/// carried by its name.
#[derive(Debug, Clone, PartialEq, Eq)]
pub enum VideoFormat {
    Bgrx,
    Bgra,
    Rgbx,
    Rgba,
    Argb,
    Xrgb,
    Xbgr,
    Abgr,
    Rgb,
    Bgr,
    Unsupported { name: String },
}

/// Bytes per pixel of a supported format.
pub open spec fn spec_bytes_per_pixel(f: VideoFormat) -> Option<int> {
    match f {
        VideoFormat::Rgb | VideoFormat::Bgr => Some(3),
        VideoFormat::Unsupported { .. } => None,
        _ => Some(4),
    }
}

/// `0xAARRGGBB` from four channel values.
pub open spec fn argb(a: u8, r: u8, g: u8, b: u8) -> u32 {
    (a as int * 16777216 + r as int * 65536 + g as int * 256 + b as int) as u32
}

/// The pixel whose bytes start at offset `o`, read in the channel order of
/// the format; formats without alpha are opaque.
pub open spec fn spec_video_pixel(f: VideoFormat, d: Seq<u8>, o: int) -> u32 {
    match f {
        VideoFormat::Rgbx => argb(0xFF, d[o], d[o + 1], d[o + 2]),
        VideoFormat::Rgba => argb(d[o + 3], d[o], d[o + 1], d[o + 2]),
        VideoFormat::Bgrx => argb(0xFF, d[o + 2], d[o + 1], d[o]),
        VideoFormat::Bgra => argb(d[o + 3], d[o + 2], d[o + 1], d[o]),
        VideoFormat::Argb => argb(d[o], d[o + 1], d[o + 2], d[o + 3]),
        VideoFormat::Xrgb => argb(0xFF, d[o + 1], d[o + 2], d[o + 3]),
        VideoFormat::Xbgr => argb(0xFF, d[o + 3], d[o + 2], d[o + 1]),
        VideoFormat::Abgr => argb(d[o], d[o + 3], d[o + 2], d[o + 1]),
        VideoFormat::Rgb => argb(0xFF, d[o], d[o + 1], d[o + 2]),
        VideoFormat::Bgr => argb(0xFF, d[o + 2], d[o + 1], d[o]),
        VideoFormat::Unsupported { .. } => 0,
    }
}

/// Decimal text of a signed integer.
pub open spec fn signed_digits(v: int) -> Seq<char> {
    if v < 0 { "-"@ + crate::text::decimal_digits((-v) as nat) } else { crate::text::decimal_digits(v as nat) }
}

fn signed_chars(v: i32) -> (r: Vec<char>)
    ensures
        r@ == signed_digits(v as int),
{
    if v < 0 {
        let mut m = chars_of("-");
        let d = decimal_chars((-(v as i64)) as u64);
        push_chars(&mut m, &d);
        m
    } else {
        decimal_chars(v as u64)
    }
}

fn pack_argb(a: u8, r: u8, g: u8, b: u8) -> (p: u32)
    ensures
        p == argb(a, r, g, b),
{
    let p = ((a as u32) << 24u32) | ((r as u32) << 16u32) | ((g as u32) << 8u32) | (b as u32);
    assert(p == argb(a, r, g, b)) by (bit_vector)
        requires p == ((a as u32) << 24u32) | ((r as u32) << 16u32) | ((g as u32) << 8u32) | (b as u32);
    p
}

fn video_pixel(format: &VideoFormat, d: &[u8], o: usize) -> (p: u32)
    requires
        spec_bytes_per_pixel(*format) matches Some(n) && o + n <= d@.len(),
    ensures
        p == spec_video_pixel(*format, d@, o as int),
{
    assert(d@.len() == d.len());
    match format {
        VideoFormat::Rgbx => pack_argb(0xFF, d[o], d[o + 1], d[o + 2]),
        VideoFormat::Rgba => pack_argb(d[o + 3], d[o], d[o + 1], d[o + 2]),
        VideoFormat::Bgrx => pack_argb(0xFF, d[o + 2], d[o + 1], d[o]),
        VideoFormat::Bgra => pack_argb(d[o + 3], d[o + 2], d[o + 1], d[o]),
        VideoFormat::Argb => pack_argb(d[o], d[o + 1], d[o + 2], d[o + 3]),
        VideoFormat::Xrgb => pack_argb(0xFF, d[o + 1], d[o + 2], d[o + 3]),
        VideoFormat::Xbgr => pack_argb(0xFF, d[o + 3], d[o + 2], d[o + 1]),
        VideoFormat::Abgr => pack_argb(d[o], d[o + 3], d[o + 2], d[o + 1]),
        VideoFormat::Rgb => pack_argb(0xFF, d[o], d[o + 1], d[o + 2]),
        VideoFormat::Bgr => pack_argb(0xFF, d[o + 2], d[o + 1], d[o]),
        VideoFormat::Unsupported { .. } => 0,
    }
}

/// Why a frame cannot be decoded, if it cannot: an unknown format, a stride
/// shorter than a row of pixels, or fewer bytes than `stride * height`.
pub open spec fn frame_defect(width: u32, height: u32, stride: i32, chunk_len: int, f: VideoFormat) -> Option<Seq<char>> {
    match spec_bytes_per_pixel(f) {
        None => Some("Unsupported PipeWire video format: "@ + f->name@),
        Some(bpp) => if (stride as int) < width as int * bpp {
            Some("invalid stride: got "@ + signed_digits(stride as int) + ", expected >= "@
                + crate::text::decimal_digits((width as int * bpp) as nat))
        } else if chunk_len < stride as int * height as int {
            Some("invalid chunk size: got "@ + crate::text::decimal_digits(chunk_len as nat) + ", expected >= "@
                + crate::text::decimal_digits((stride as int * height as int) as nat))
        } else {
            None
        },
    }
}

/// Decodes a frame of `width * height` pixels whose rows start `stride`
/// bytes apart in `data` (the frame's chunk), row by row, left to right.
pub fn decode_video_frame(data: &[u8], width: u32, height: u32, stride: i32, format: VideoFormat)
    -> (r: Result<(u32, u32, Vec<u32>), String>)
    requires
        stride as int * height as int <= usize::MAX,
        width as int * height as int <= usize::MAX,
    ensures
        match frame_defect(width, height, stride, data@.len() as int, format) {
            Some(m) => r matches Err(e) && e@ == m,
            None => r matches Ok((w, h, pixels)) && w == width && h == height
                && pixels@.len() == width as int * height as int
                && forall|y: int, x: int| 0 <= y < height && 0 <= x < width ==>
                    #[trigger] pixels@[y * width + x]
                    == spec_video_pixel(format, data@, y * stride + x * spec_bytes_per_pixel(format)->0),
        },
{
    let bpp: u32 = match &format {
        VideoFormat::Rgb | VideoFormat::Bgr => 3,
        VideoFormat::Unsupported { name } => {
            let mut m = chars_of("Unsupported PipeWire video format: ");
            push_str(&mut m, name.as_str());
            return Err(string_from_chars(&m));
        },
        _ => 4,
    };
    let row_bytes: u64 = width as u64 * bpp as u64;
    if (stride as i64) < (row_bytes as i64) {
        let mut m = chars_of("invalid stride: got ");
        let a = signed_chars(stride);
        push_chars(&mut m, &a);
        push_str(&mut m, ", expected >= ");
        let b = decimal_chars(row_bytes);
        push_chars(&mut m, &b);
        return Err(string_from_chars(&m));
    }
    let stride_u = stride as usize;
    let expected_min = stride_u * height as usize;
    if data.len() < expected_min {
        let mut m = chars_of("invalid chunk size: got ");
        let a = decimal_chars(data.len() as u64);
        push_chars(&mut m, &a);
        push_str(&mut m, ", expected >= ");
        let b = decimal_chars(expected_min as u64);
        push_chars(&mut m, &b);
        return Err(string_from_chars(&m));
    }
    let ghost bppi = bpp as int;
    assert(data@.len() == data.len());
    let mut pixels: Vec<u32> = Vec::new();
    let mut y: u32 = 0;
    while y < height
        invariant
            bppi == spec_bytes_per_pixel(format)->0 && spec_bytes_per_pixel(format) is Some,
            bpp == bppi,
            stride_u == stride as int,
            width as int * bppi <= stride_u,
            stride_u as int * height as int <= data@.len(),
            data@.len() == data.len(),
            width as int * height as int <= usize::MAX,
            y <= height,
            pixels@.len() == y as int * width as int,
            forall|yy: int, x: int| 0 <= yy < y && 0 <= x < width ==>
                #[trigger] pixels@[yy * width + x] == spec_video_pixel(format, data@, yy * stride + x * bppi),
        decreases height - y,
    {
        assert(y as int * stride_u + stride_u <= stride_u as int * height as int) by (nonlinear_arith)
            requires y < height, stride_u >= 0;
        let row_start = y as usize * stride_u;
        let mut x: u32 = 0;
        while x < width
            invariant
                bppi == spec_bytes_per_pixel(format)->0 && spec_bytes_per_pixel(format) is Some,
                bpp == bppi,
                stride_u == stride as int,
                width as int * bppi <= stride_u,
                row_start == y as int * stride_u,
                row_start + stride_u <= data@.len(),
                data@.len() == data.len(),
                width as int * height as int <= usize::MAX,
                y < height,
                x <= width,
                pixels@.len() == y as int * width as int + x,
                forall|yy: int, xx: int| 0 <= yy < y && 0 <= xx < width ==>
                    #[trigger] pixels@[yy * width + xx] == spec_video_pixel(format, data@, yy * stride + xx * bppi),
                forall|xx: int| 0 <= xx < x ==>
                    #[trigger] pixels@[y * width + xx] == spec_video_pixel(format, data@, y * stride + xx * bppi),
            decreases width - x,
        {
            assert(x as int * bppi + bppi <= width as int * bppi) by (nonlinear_arith)
                requires x < width, bppi >= 0;
            assert(y as int * width as int + x < width as int * height as int) by (nonlinear_arith)
                requires y < height, x < width;
            let o = row_start + x as usize * bpp as usize;
            let p = video_pixel(&format, data, o);
            let ghost before = pixels@;
            pixels.push(p);
            proof {
                assert forall|yy: int, xx: int| 0 <= yy < y && 0 <= xx < width implies
                    #[trigger] pixels@[yy * width + xx] == spec_video_pixel(format, data@, yy * stride + xx * bppi) by {
                    assert(yy * width + xx < y * width) by (nonlinear_arith)
                        requires yy < y, xx < width, 0 <= xx, 0 <= yy;
                    assert(pixels@[yy * width + xx] == before[yy * width + xx]);
                }
                assert forall|xx: int| 0 <= xx < x + 1 implies
                    #[trigger] pixels@[y * width + xx] == spec_video_pixel(format, data@, y * stride + xx * bppi) by {
                    if xx < x {
                        assert(pixels@[y * width + xx] == before[y * width + xx]);
                    }
                }
            }
            x += 1;
        }
        assert forall|yy: int, xx: int| 0 <= yy < y + 1 && 0 <= xx < width implies
            #[trigger] pixels@[yy * width + xx] == spec_video_pixel(format, data@, yy * stride + xx * bppi) by {
            if yy == y {
                assert(pixels@[y * width + xx] == spec_video_pixel(format, data@, y * stride + xx * bppi));
            }
        }
        assert(pixels@.len() == (y + 1) as int * width as int) by (nonlinear_arith)
            requires pixels@.len() == y as int * width as int + width;
        y += 1;
    }
    assert(pixels@.len() == width as int * height as int) by (nonlinear_arith)
        requires pixels@.len() == y as int * width as int, y == height;
    Ok((width, height, pixels))
}

} // verus!
