//! Path-safe identifiers and artifact names, service endpoints, and the
//! bounded framing of IPC messages with binary pixel attachments.
use vstd::prelude::*;
use crate::service::{ServiceRole, role_name};
use crate::text::{chars_of, push_chars, push_str, string_from_chars, seq_contains_run, contains_run};
use crate::accel::{is_trim_of, lower_seq, trim_lower, lemma_trim_lower_determined};
use crate::pixel_transport::PixelTransportPayload;
use crate::ipc::DisplayCommand;

verus! {

pub const MAX_IPC_JSON_LINE_BYTES: usize = 65536;
pub const MAX_IPC_FRAME_METADATA_BYTES: usize = 16777216;
pub const MAX_IPC_BINARY_ATTACHMENTS: usize = 4096;
pub const MAX_IPC_BINARY_ATTACHMENT_BYTES: usize = 67108864;
pub const MAX_IPC_BINARY_TOTAL_BYTES: usize = 268435456;
pub const MAX_ARTIFACT_FILENAME_BYTES: usize = 128;
pub const MAX_SESSION_INSTANCE_ID_CHARS: usize = 128;
pub const DEFAULT_TCP_BASE_PORT: u16 = 47000;

/// Characters allowed in path-safe identifiers: ASCII letters, digits, `.`, `_`, `-`.
pub open spec fn is_path_safe_char(c: char) -> bool {
    ('a' <= c <= 'z') || ('A' <= c <= 'Z') || ('0' <= c <= '9') || c == '.' || c == '_' || c == '-'
}

fn path_safe_char(c: char) -> (r: bool)
    ensures
        r == is_path_safe_char(c),
{
    ('a' <= c && c <= 'z') || ('A' <= c && c <= 'Z') || ('0' <= c && c <= '9') || c == '.' || c == '_' || c == '-'
}

pub open spec fn is_dot_name(s: Seq<char>) -> bool {
    s == seq!['.'] || s == seq!['.', '.']
}

fn dot_name(s: &Vec<char>) -> (r: bool)
    ensures
        r == is_dot_name(s@),
{
    let r = (s.len() == 1 && s[0] == '.') || (s.len() == 2 && s[0] == '.' && s[1] == '.');
    proof {
        if s@.len() == 1 && s@[0] == '.' { assert(s@ =~= seq!['.']); }
        if s@.len() == 2 && s@[0] == '.' && s@[1] == '.' { assert(s@ =~= seq!['.', '.']); }
    }
    r
}

/// A session instance id is safe to embed in file names: 1 to 128 characters,
/// all path-safe, and not `.` or `..`.
pub open spec fn spec_valid_session_instance_id(id: Seq<char>) -> bool {
    &&& 1 <= id.len() <= MAX_SESSION_INSTANCE_ID_CHARS
    &&& !is_dot_name(id)
    &&& forall|i: int| 0 <= i < id.len() ==> is_path_safe_char(#[trigger] id[i])
}

fn all_path_safe(s: &Vec<char>) -> (r: bool)
    ensures
        r == forall|i: int| 0 <= i < s@.len() ==> is_path_safe_char(#[trigger] s@[i]),
{
    let mut i: usize = 0;
    while i < s.len()
        invariant
            i <= s@.len(),
            forall|k: int| 0 <= k < i ==> is_path_safe_char(#[trigger] s@[k]),
        decreases s@.len() - i,
    {
        if !path_safe_char(s[i]) {
            return false;
        }
        i += 1;
    }
    true
}

/// Whether an id may be used as it is in runtime file names.
pub fn validate_session_instance_id(id: &str) -> (r: bool)
    ensures
        r == spec_valid_session_instance_id(id@),
{
    let cs = chars_of(id);
    if cs.len() == 0 || cs.len() > MAX_SESSION_INSTANCE_ID_CHARS {
        return false;
    }
    if dot_name(&cs) {
        return false;
    }
    all_path_safe(&cs)
}

/// Each character kept if path-safe, otherwise replaced by `_`.
pub open spec fn path_safe_map(s: Seq<char>) -> Seq<char> {
    Seq::new(s.len(), |i: int| if is_path_safe_char(s[i]) { s[i] } else { '_' })
}

/// The mapped name with `.` and `..` escaped by a leading `_`, cut to `limit` characters.
pub open spec fn escape_and_cut(mapped: Seq<char>, limit: nat) -> Seq<char> {
    let escaped = if is_dot_name(mapped) { seq!['_'] + mapped } else { mapped };
    if escaped.len() > limit { escaped.take(limit as int) } else { escaped }
}

/// The sanitized form of a session instance id.
pub open spec fn spec_sanitize_session_instance_id(id: Seq<char>) -> Seq<char> {
    if id.len() == 0 {
        "default"@
    } else {
        escape_and_cut(path_safe_map(id), MAX_SESSION_INSTANCE_ID_CHARS as nat)
    }
}

fn map_path_safe(cs: &Vec<char>) -> (r: Vec<char>)
    ensures
        r@ == path_safe_map(cs@),
{
    let mut out: Vec<char> = Vec::new();
    let mut i: usize = 0;
    while i < cs.len()
        invariant
            i <= cs@.len(),
            out@ == path_safe_map(cs@).take(i as int),
        decreases cs@.len() - i,
    {
        let c = cs[i];
        if path_safe_char(c) {
            out.push(c);
        } else {
            out.push('_');
        }
        i += 1;
        assert(out@ =~= path_safe_map(cs@).take(i as int));
    }
    assert(out@ =~= path_safe_map(cs@));
    out
}

fn escape_and_cut_exec(mapped: Vec<char>, limit: usize) -> (r: Vec<char>)
    ensures
        r@ == escape_and_cut(mapped@, limit as nat),
{
    let mut escaped = if dot_name(&mapped) {
        let mut e: Vec<char> = Vec::new();
        e.push('_');
        push_chars(&mut e, &mapped);
        assert(e@ =~= seq!['_'] + mapped@);
        e
    } else {
        mapped
    };
    if escaped.len() > limit {
        escaped.truncate(limit);
    }
    escaped
}

/// Makes an id safe for file names: empty becomes `default`, unsafe characters
/// become `_`, `.` and `..` get a leading `_`, and the result is cut to 128.
pub fn sanitize_session_instance_id(id: &str) -> (r: String)
    ensures
        r@ == spec_sanitize_session_instance_id(id@),
{
    let cs = chars_of(id);
    if cs.len() == 0 {
        return String::from_str("default");
    }
    let mapped = map_path_safe(&cs);
    let out = escape_and_cut_exec(mapped, MAX_SESSION_INSTANCE_ID_CHARS);
    string_from_chars(&out)
}

/// Every sanitized session instance id is a valid one.
pub proof fn law_sanitized_session_id_is_valid(id: Seq<char>)
    ensures
        spec_valid_session_instance_id(spec_sanitize_session_instance_id(id)),
{
    let r = spec_sanitize_session_instance_id(id);
    if id.len() == 0 {
        reveal_strlit("default");
        assert(r.len() == 7);
        assert(r[0] == 'd');
        assert(!is_dot_name(r)) by {
            if r == seq!['.'] { assert(r.len() == 1); }
            if r == seq!['.', '.'] { assert(r.len() == 2); }
        }
        assert forall|i: int| 0 <= i < r.len() implies is_path_safe_char(#[trigger] r[i]) by {}
    } else {
        let mapped = path_safe_map(id);
        let escaped = if is_dot_name(mapped) { seq!['_'] + mapped } else { mapped };
        assert forall|i: int| 0 <= i < escaped.len() implies is_path_safe_char(#[trigger] escaped[i]) by {
            if is_dot_name(mapped) {
                if i > 0 { assert(escaped[i] == mapped[i - 1]); }
            }
        }
        assert(escaped.len() >= 1);
        assert(!is_dot_name(escaped)) by {
            if is_dot_name(mapped) {
                assert(escaped[0] == '_');
                if escaped == seq!['.'] { assert(escaped[0] == '.'); }
                if escaped == seq!['.', '.'] { assert(escaped[0] == '.'); }
            }
        }
        if escaped.len() > MAX_SESSION_INSTANCE_ID_CHARS {
            assert(r == escaped.take(MAX_SESSION_INSTANCE_ID_CHARS as int));
            assert(!is_dot_name(r)) by {
                if r == seq!['.'] { assert(r.len() == 1); }
                if r == seq!['.', '.'] { assert(r.len() == 2); }
            }
            assert forall|i: int| 0 <= i < r.len() implies is_path_safe_char(#[trigger] r[i]) by {
                assert(r[i] == escaped[i]);
            }
        } else {
            assert(r == escaped);
        }
    }
}

/// An artifact file name is safe when it is 1 to 128 bytes long, is not `.`
/// or `..`, holds no `/`, `\` or NUL, and does not start with `.`.
pub open spec fn spec_valid_artifact_filename(name: &str) -> bool {
    let s = name@;
    &&& s.len() != 0
    &&& name.len() <= MAX_ARTIFACT_FILENAME_BYTES
    &&& !is_dot_name(s)
    &&& forall|i: int| 0 <= i < s.len() ==> (#[trigger] s[i]) != '/' && s[i] != '\\' && s[i] != '\0'
    &&& s[0] != '.'
}

pub fn validate_artifact_filename(name: &str) -> (r: bool)
    ensures
        r == spec_valid_artifact_filename(name),
{
    let cs = chars_of(name);
    if cs.len() == 0 || name.len() > MAX_ARTIFACT_FILENAME_BYTES {
        return false;
    }
    if dot_name(&cs) {
        return false;
    }
    let mut i: usize = 0;
    while i < cs.len()
        invariant
            i <= cs@.len(),
            cs@ == name@,
            forall|k: int| 0 <= k < i ==> (#[trigger] cs@[k]) != '/' && cs@[k] != '\\' && cs@[k] != '\0',
        decreases cs@.len() - i,
    {
        let c = cs[i];
        if c == '/' || c == '\\' || c == '\0' {
            assert(name@[i as int] == c);
            return false;
        }
        i += 1;
    }
    cs[0] != '.'
}

/// The sanitized form of an artifact name.
pub open spec fn spec_sanitize_artifact_filename(name: Seq<char>) -> Seq<char> {
    let mapped = path_safe_map(name);
    if mapped.len() == 0 {
        "artifact"@
    } else {
        escape_and_cut(mapped, MAX_ARTIFACT_FILENAME_BYTES as nat)
    }
}

/// Makes a name safe to use as a file name: unsafe characters become `_`,
/// empty becomes `artifact`, `.` and `..` get a leading `_`, cut to 128.
pub fn sanitize_artifact_filename(name: &str) -> (r: String)
    ensures
        r@ == spec_sanitize_artifact_filename(name@),
{
    let cs = chars_of(name);
    let mapped = map_path_safe(&cs);
    if mapped.len() == 0 {
        return String::from_str("artifact");
    }
    let out = escape_and_cut_exec(mapped, MAX_ARTIFACT_FILENAME_BYTES);
    string_from_chars(&out)
}

} // verus!

verus! {

/// Byte that introduces a framed message; any other first byte starts a JSON line.
pub const IPC_FRAME_MARKER: u8 = 0x1e;
pub const IPC_FRAME_VERSION: u8 = 1;
pub const IPC_FRAME_FIXED_HEADER_BYTES: usize = 24;

/// Little-endian value of four bytes starting at `o`.
pub open spec fn le_u32_at(b: Seq<u8>, o: int) -> int {
    b[o] as int + b[o + 1] as int * 256 + b[o + 2] as int * 65536 + b[o + 3] as int * 16777216
}

/// Little-endian value of eight bytes starting at `o`.
pub open spec fn le_u64_at(b: Seq<u8>, o: int) -> int {
    le_u32_at(b, o) + le_u32_at(b, o + 4) * 4294967296
}

/// The frame magic `XW3F`.
pub open spec fn frame_magic() -> Seq<u8> {
    seq![0x58u8, 0x57u8, 0x33u8, 0x46u8]
}

fn read_le_u32(b: &[u8], o: usize) -> (r: u32)
    requires
        o + 4 <= b@.len(),
    ensures
        r as int == le_u32_at(b@, o as int),
{
    b[o] as u32 + b[o + 1] as u32 * 256 + b[o + 2] as u32 * 65536 + b[o + 3] as u32 * 16777216
}

fn read_le_u64(b: &[u8], o: usize) -> (r: u64)
    requires
        o + 8 <= b@.len(),
    ensures
        r as int == le_u64_at(b@, o as int),
{
    proof { assert(b@.len() == b.len()); }
    let lo = read_le_u32(b, o) as u64;
    let hi = read_le_u32(b, o + 4) as u64;
    lo + hi * 4294967296
}

proof fn lemma_split_byte(v: int)
    requires
        v >= 0,
    ensures
        v == v % 256 + (v / 256) * 256,
        0 <= v % 256 < 256,
        v / 256 >= 0,
{
}

fn push_le_u32(out: &mut Vec<u8>, v: u32)
    ensures
        final(out)@.len() == old(out)@.len() + 4,
        final(out)@.subrange(0, old(out)@.len() as int) == old(out)@,
        le_u32_at(final(out)@, old(out)@.len() as int) == v as int,
{
    let ghost start = out@.len() as int;
    let b0 = (v % 256) as u8;
    let v1 = v / 256;
    let b1 = (v1 % 256) as u8;
    let v2 = v1 / 256;
    let b2 = (v2 % 256) as u8;
    let v3 = v2 / 256;
    let b3 = (v3 % 256) as u8;
    proof {
        lemma_split_byte(v as int);
        lemma_split_byte(v1 as int);
        lemma_split_byte(v2 as int);
        assert(v3 < 256);
    }
    out.push(b0);
    out.push(b1);
    out.push(b2);
    out.push(b3);
    proof {
        assert(out@[start] == b0 && out@[start + 1] == b1 && out@[start + 2] == b2 && out@[start + 3] == b3);
    }
}

fn push_le_u64(out: &mut Vec<u8>, v: u64)
    ensures
        final(out)@.len() == old(out)@.len() + 8,
        final(out)@.subrange(0, old(out)@.len() as int) == old(out)@,
        le_u64_at(final(out)@, old(out)@.len() as int) == v as int,
{
    let ghost start = out@;
    let lo = (v % 4294967296) as u32;
    let hi = (v / 4294967296) as u32;
    push_le_u32(out, lo);
    let ghost mid = out@;
    push_le_u32(out, hi);
    proof {
        assert(out@.subrange(0, mid.len() as int) == mid);
        assert forall|k: int| start.len() <= k < start.len() + 4 implies out@[k] == mid[k] by {
            assert(out@.subrange(0, mid.len() as int)[k] == mid[k]);
        }
        assert(out@.subrange(0, start.len() as int) =~= start) by {
            assert forall|k: int| 0 <= k < start.len() implies out@[k] == start[k] by {
                assert(out@.subrange(0, mid.len() as int)[k] == mid[k]);
                assert(mid.subrange(0, start.len() as int)[k] == start[k]);
            }
        }
        assert(le_u32_at(out@, start.len() as int) == le_u32_at(mid, start.len() as int));
    }
}

/// Encodes the 24-byte fixed frame header: magic, version, zero flags, the
/// metadata length, the attachment count and the total attachment bytes.
pub fn encode_frame_header(metadata_len: u32, attachment_count: u32, total_bytes: u64) -> (r: Vec<u8>)
    ensures
        r@.len() == IPC_FRAME_FIXED_HEADER_BYTES,
        r@.subrange(0, 4) == frame_magic(),
        r@[4] == IPC_FRAME_VERSION,
        r@[5] == 0 && r@[6] == 0 && r@[7] == 0,
        le_u32_at(r@, 8) == metadata_len,
        le_u32_at(r@, 12) == attachment_count,
        le_u64_at(r@, 16) == total_bytes,
{
    let mut out: Vec<u8> = Vec::new();
    out.push(0x58u8);
    out.push(0x57u8);
    out.push(0x33u8);
    out.push(0x46u8);
    out.push(IPC_FRAME_VERSION);
    out.push(0u8);
    out.push(0u8);
    out.push(0u8);
    let ghost h8 = out@;
    push_le_u32(&mut out, metadata_len);
    let ghost h12 = out@;
    push_le_u32(&mut out, attachment_count);
    let ghost h16 = out@;
    push_le_u64(&mut out, total_bytes);
    proof {
        assert forall|k: int| 0 <= k < 16 implies out@[k] == h16[k] by {
            assert(out@.subrange(0, 16)[k] == h16[k]);
        }
        assert forall|k: int| 0 <= k < 12 implies h16[k] == h12[k] by {
            assert(h16.subrange(0, 12)[k] == h12[k]);
        }
        assert forall|k: int| 0 <= k < 8 implies h12[k] == h8[k] by {
            assert(h12.subrange(0, 8)[k] == h8[k]);
        }
        assert(le_u32_at(out@, 8) == le_u32_at(h12, 8));
        assert(le_u32_at(out@, 12) == le_u32_at(h16, 12));
        assert(out@[4] == h16[4] && h16[4] == h12[4] && h12[4] == h8[4]);
        assert(out@[5] == h16[5] && h16[5] == h12[5] && h12[5] == h8[5]);
        assert(out@[6] == h16[6] && h16[6] == h12[6] && h12[6] == h8[6]);
        assert(out@[7] == h16[7] && h16[7] == h12[7] && h12[7] == h8[7]);
        assert(out@.subrange(0, 4) =~= frame_magic());
    }
    out
}

/// What the fixed header declares.
#[derive(Debug, Clone, Copy, PartialEq, Eq, Structural)]
pub struct FrameHeader {
    pub metadata_len: usize,
    pub attachment_count: usize,
    pub total_bytes: u64,
}

/// Whether a 24-byte header is acceptable: right magic, version and zero
/// flags, and declared sizes within the bounds.
pub open spec fn header_acceptable(h: Seq<u8>) -> bool {
    &&& h.subrange(0, 4) == frame_magic()
    &&& h[4] == IPC_FRAME_VERSION
    &&& h[5] == 0 && h[6] == 0 && h[7] == 0
    &&& le_u32_at(h, 8) <= MAX_IPC_FRAME_METADATA_BYTES
    &&& le_u32_at(h, 12) <= MAX_IPC_BINARY_ATTACHMENTS
    &&& le_u64_at(h, 16) <= MAX_IPC_BINARY_TOTAL_BYTES
}

/// Parses the fixed header of a framed message, refusing a wrong magic or
/// version, non-zero flags, and declared sizes beyond the bounds.
pub fn parse_frame_header(header: &[u8]) -> (r: Result<FrameHeader, String>)
    requires
        header@.len() == IPC_FRAME_FIXED_HEADER_BYTES,
    ensures
        r is Ok <==> header_acceptable(header@),
        r matches Ok(f) ==> f.metadata_len == le_u32_at(header@, 8)
            && f.attachment_count == le_u32_at(header@, 12)
            && f.total_bytes == le_u64_at(header@, 16),
        r matches Err(m) ==> (header@.subrange(0, 4) != frame_magic() ==> m@ == "invalid IPC frame magic"@),
        r matches Err(m) ==> (header@.subrange(0, 4) == frame_magic() && header@[4] == IPC_FRAME_VERSION
            && header@[5] == 0 && header@[6] == 0 && header@[7] == 0
            && le_u32_at(header@, 8) <= MAX_IPC_FRAME_METADATA_BYTES
            && le_u32_at(header@, 12) <= MAX_IPC_BINARY_ATTACHMENTS
            ==> m@ == "IPC binary attachment bytes exceed 268435456"@),
{
    if !(header[0] == 0x58u8 && header[1] == 0x57u8 && header[2] == 0x33u8 && header[3] == 0x46u8) {
        proof {
            if header@.subrange(0, 4) == frame_magic() {
                assert(header@.subrange(0, 4)[0] == header@[0]);
                assert(header@.subrange(0, 4)[1] == header@[1]);
                assert(header@.subrange(0, 4)[2] == header@[2]);
                assert(header@.subrange(0, 4)[3] == header@[3]);
            }
        }
        return Err(String::from_str("invalid IPC frame magic"));
    }
    assert(header@.subrange(0, 4) =~= frame_magic());
    if header[4] != IPC_FRAME_VERSION {
        let mut m = chars_of("unsupported IPC frame version ");
        let d = crate::text::decimal_chars(header[4] as u64);
        push_chars(&mut m, &d);
        return Err(string_from_chars(&m));
    }
    if header[5] != 0 || header[6] != 0 || header[7] != 0 {
        return Err(String::from_str("unsupported IPC frame flags"));
    }
    let metadata_len = read_le_u32(header, 8);
    let attachment_count = read_le_u32(header, 12);
    let total_bytes = read_le_u64(header, 16);
    if metadata_len as u64 > MAX_IPC_FRAME_METADATA_BYTES as u64 {
        return Err(String::from_str("IPC frame metadata exceeds 16777216 bytes"));
    }
    if attachment_count as u64 > MAX_IPC_BINARY_ATTACHMENTS as u64 {
        return Err(String::from_str("IPC binary attachment count exceeds 4096"));
    }
    if total_bytes > MAX_IPC_BINARY_TOTAL_BYTES as u64 {
        return Err(String::from_str("IPC binary attachment bytes exceed 268435456"));
    }
    Ok(FrameHeader {
        metadata_len: metadata_len as usize,
        attachment_count: attachment_count as usize,
        total_bytes,
    })
}

/// Sum of a sequence of lengths.
pub open spec fn sum_lengths(s: Seq<int>) -> int
    decreases s.len(),
{
    if s.len() == 0 { 0 } else { sum_lengths(s.drop_last()) + s.last() }
}

/// The attachment lengths encoded in `bytes`, eight little-endian bytes each.
pub open spec fn decoded_lengths(bytes: Seq<u8>, count: int) -> Seq<int> {
    Seq::new(count as nat, |i: int| le_u64_at(bytes, 8 * i))
}

/// Whether the declared attachment lengths are acceptable: each within the
/// per-attachment bound, every running total within the total bound, and
/// the sum equal to the header's total.
pub open spec fn lengths_acceptable(lengths: Seq<int>, total: int) -> bool {
    &&& forall|i: int| 0 <= i < lengths.len() ==> #[trigger] lengths[i] <= MAX_IPC_BINARY_ATTACHMENT_BYTES
    &&& forall|i: int| 0 <= i <= lengths.len() ==> #[trigger] sum_lengths(lengths.take(i)) <= MAX_IPC_BINARY_TOTAL_BYTES
    &&& sum_lengths(lengths) == total
}

proof fn lemma_sum_take_step(s: Seq<int>, i: int)
    requires
        0 <= i < s.len(),
    ensures
        sum_lengths(s.take(i + 1)) == sum_lengths(s.take(i)) + s[i],
{
    assert(s.take(i + 1).drop_last() =~= s.take(i));
}

/// Parses the attachment lengths that follow the fixed header and checks them
/// against the per-attachment and total bounds and the declared total.
pub fn parse_attachment_lengths(bytes: &[u8], header: FrameHeader) -> (r: Result<Vec<usize>, String>)
    requires
        bytes@.len() == 8 * header.attachment_count,
        header.total_bytes <= MAX_IPC_BINARY_TOTAL_BYTES,
    ensures
        ({
            let lengths = decoded_lengths(bytes@, header.attachment_count as int);
            &&& r is Ok <==> lengths_acceptable(lengths, header.total_bytes as int)
            &&& r matches Ok(v) ==> v@.len() == header.attachment_count
                && forall|i: int| 0 <= i < v@.len() ==> #[trigger] v@[i] as int == lengths[i]
        }),
{
    let ghost lengths = decoded_lengths(bytes@, header.attachment_count as int);
    let mut out: Vec<usize> = Vec::new();
    let mut sum: usize = 0;
    let mut i: usize = 0;
    assert(lengths.take(0) =~= Seq::<int>::empty());
    while i < header.attachment_count
        invariant
            i <= header.attachment_count,
            bytes@.len() == 8 * header.attachment_count,
            lengths == decoded_lengths(bytes@, header.attachment_count as int),
            out@.len() == i,
            forall|k: int| 0 <= k < i ==> #[trigger] out@[k] as int == lengths[k],
            forall|k: int| 0 <= k < i ==> #[trigger] lengths[k] <= MAX_IPC_BINARY_ATTACHMENT_BYTES,
            forall|k: int| 0 <= k <= i ==> #[trigger] sum_lengths(lengths.take(k)) <= MAX_IPC_BINARY_TOTAL_BYTES,
            sum as int == sum_lengths(lengths.take(i as int)),
        decreases header.attachment_count - i,
    {
        proof { assert(bytes@.len() == bytes.len()); }
        let length = read_le_u64(bytes, 8 * i);
        assert(length as int == lengths[i as int]);
        if length > MAX_IPC_BINARY_ATTACHMENT_BYTES as u64 {
            return Err(String::from_str("IPC binary attachment exceeds 67108864 bytes"));
        }
        proof { lemma_sum_take_step(lengths, i as int); }
        let next = sum + length as usize;
        if next > MAX_IPC_BINARY_TOTAL_BYTES {
            return Err(String::from_str("IPC binary attachment bytes exceed 268435456"));
        }
        sum = next;
        out.push(length as usize);
        i += 1;
    }
    assert(lengths.take(header.attachment_count as int) =~= lengths);
    if sum as u64 != header.total_bytes {
        return Err(String::from_str("IPC frame attachment total does not match declared total"));
    }
    Ok(out)
}

/// Encodes attachment lengths as eight little-endian bytes each.
pub fn encode_attachment_lengths(lengths: &Vec<u64>) -> (r: Vec<u8>)
    ensures
        r@.len() == 8 * lengths@.len(),
        forall|i: int| 0 <= i < lengths@.len() ==> #[trigger] le_u64_at(r@, 8 * i) == lengths@[i] as int,
{
    let mut out: Vec<u8> = Vec::new();
    let mut i: usize = 0;
    while i < lengths.len()
        invariant
            i <= lengths@.len(),
            out@.len() == 8 * i,
            forall|k: int| 0 <= k < i ==> #[trigger] le_u64_at(out@, 8 * k) == lengths@[k] as int,
        decreases lengths@.len() - i,
    {
        let ghost before = out@;
        push_le_u64(&mut out, lengths[i]);
        proof {
            assert forall|k: int| 0 <= k < i implies #[trigger] le_u64_at(out@, 8 * k) == lengths@[k] as int by {
                assert forall|j: int| 8 * k <= j < 8 * k + 8 implies out@[j] == before[j] by {
                    assert(out@.subrange(0, before.len() as int)[j] == before[j]);
                }
                assert(le_u64_at(out@, 8 * k) == le_u64_at(before, 8 * k));
            }
        }
        i += 1;
    }
    out
}

/// A header written by `encode_frame_header` is read back by
/// `parse_frame_header` with the same three fields, and is accepted exactly
/// when the declared sizes are within the bounds.
pub proof fn law_frame_header_round_trip(h: Seq<u8>, metadata_len: u32, attachment_count: u32, total_bytes: u64)
    requires
        h.len() == IPC_FRAME_FIXED_HEADER_BYTES,
        h.subrange(0, 4) == frame_magic(),
        h[4] == IPC_FRAME_VERSION,
        h[5] == 0 && h[6] == 0 && h[7] == 0,
        le_u32_at(h, 8) == metadata_len,
        le_u32_at(h, 12) == attachment_count,
        le_u64_at(h, 16) == total_bytes,
    ensures
        header_acceptable(h) <==> (metadata_len <= MAX_IPC_FRAME_METADATA_BYTES
            && attachment_count <= MAX_IPC_BINARY_ATTACHMENTS && total_bytes <= MAX_IPC_BINARY_TOTAL_BYTES),
{
}

/// The lengths written by `encode_attachment_lengths` are the lengths that
/// `parse_attachment_lengths` decodes.
pub proof fn law_attachment_lengths_round_trip(bytes: Seq<u8>, lengths: Seq<u64>)
    requires
        bytes.len() == 8 * lengths.len(),
        forall|i: int| 0 <= i < lengths.len() ==> #[trigger] le_u64_at(bytes, 8 * i) == lengths[i] as int,
    ensures
        decoded_lengths(bytes, lengths.len() as int) == lengths.map_values(|v: u64| v as int),
{
    assert(decoded_lengths(bytes, lengths.len() as int) =~= lengths.map_values(|v: u64| v as int));
}

} // verus!

verus! {

/// How services reach each other.
#[derive(Debug, Clone, Copy, PartialEq, Eq, Structural)]
pub enum ServiceTransport {
    Unix,
    Tcp,
}

/// Whether `s`, trimmed and ASCII lower-cased, reads `w`.
pub open spec fn trims_to(s: Seq<char>, w: Seq<char>) -> bool {
    exists|lo: int, hi: int| #[trigger] is_trim_of(s, lo, hi) && lower_seq(s.subrange(lo, hi)) == w
}

/// The transport a transport override selects: TCP when it reads `tcp`
/// (surrounding whitespace and ASCII case ignored), Unix sockets otherwise.
pub open spec fn spec_selected_transport(raw: Option<Seq<char>>) -> ServiceTransport {
    match raw {
        Some(s) => if trims_to(s, seq!['t', 'c', 'p']) { ServiceTransport::Tcp } else { ServiceTransport::Unix },
        None => ServiceTransport::Unix,
    }
}

/// Picks the transport from the override value, if one is set.
pub fn selected_transport(raw: Option<String>) -> (r: ServiceTransport)
    ensures
        r == spec_selected_transport(match raw { Some(s) => Some(s@), None => None }),
{
    let s = match raw {
        None => { return ServiceTransport::Unix; }
        Some(s) => s,
    };
    let cs = chars_of(s.as_str());
    let (t, lo, hi) = trim_lower(&cs);
    let is_tcp = t.len() == 3 && t[0] == 't' && t[1] == 'c' && t[2] == 'p';
    proof {
        let w = seq!['t', 'c', 'p'];
        if is_tcp {
            assert(t@ =~= w);
            assert(is_trim_of(s@, lo as int, hi as int) && lower_seq(s@.subrange(lo as int, hi as int)) == w);
        } else {
            assert(t@ != w) by {
                if t@ == w { assert(t@[0] == 't' && t@[1] == 'c' && t@[2] == 'p'); }
            }
            assert forall|a: int, b: int| #[trigger] is_trim_of(s@, a, b) implies lower_seq(s@.subrange(a, b)) != w by {
                lemma_trim_lower_determined(s@, lo as int, hi as int, a, b);
            }
        }
    }
    if is_tcp { ServiceTransport::Tcp } else { ServiceTransport::Unix }
}

pub open spec fn is_ascii_digit(c: char) -> bool {
    '0' <= c <= '9'
}

/// Decimal value of a run of digits.
pub open spec fn decimal_value(s: Seq<char>) -> int
    decreases s.len(),
{
    if s.len() == 0 { 0 } else { decimal_value(s.drop_last()) * 10 + (s.last() as int - '0' as int) }
}

/// The digits of an unsigned number: one leading `+` is allowed.
pub open spec fn unsigned_digits(s: Seq<char>) -> Seq<char> {
    if s.len() > 0 && s[0] == '+' { s.drop_first() } else { s }
}

/// `u16` parsing as `str::parse::<u16>` does it: an optional `+`, then at
/// least one decimal digit and nothing else, with a value that fits.
pub open spec fn spec_parse_u16(s: Seq<char>) -> Option<u16> {
    let d = unsigned_digits(s);
    if d.len() > 0 && (forall|i: int| 0 <= i < d.len() ==> is_ascii_digit(#[trigger] d[i]))
        && decimal_value(d) <= 65535 {
        Some(decimal_value(d) as u16)
    } else {
        None
    }
}

proof fn lemma_decimal_step(s: Seq<char>, i: int)
    requires
        0 <= i < s.len(),
    ensures
        decimal_value(s.take(i + 1)) == decimal_value(s.take(i)) * 10 + (s[i] as int - '0' as int),
{
    assert(s.take(i + 1).drop_last() =~= s.take(i));
}

proof fn lemma_decimal_grows(s: Seq<char>, i: int)
    requires
        0 <= i <= s.len(),
        forall|k: int| 0 <= k < s.len() ==> is_ascii_digit(#[trigger] s[k]),
    ensures
        decimal_value(s) >= decimal_value(s.take(i)),
    decreases s.len(),
{
    if i == s.len() {
        assert(s.take(i) =~= s);
    } else {
        let t = s.drop_last();
        assert forall|k: int| 0 <= k < t.len() implies is_ascii_digit(#[trigger] t[k]) by {
            assert(t[k] == s[k]);
        }
        lemma_decimal_grows(t, i);
        assert(t.take(i) =~= s.take(i));
        assert(decimal_value(t) >= 0) by { lemma_decimal_nonneg(t); }
    }
}

proof fn lemma_decimal_nonneg(s: Seq<char>)
    requires
        forall|k: int| 0 <= k < s.len() ==> is_ascii_digit(#[trigger] s[k]),
    ensures
        decimal_value(s) >= 0,
    decreases s.len(),
{
    if s.len() > 0 {
        let t = s.drop_last();
        assert forall|k: int| 0 <= k < t.len() implies is_ascii_digit(#[trigger] t[k]) by {
            assert(t[k] == s[k]);
        }
        lemma_decimal_nonneg(t);
        assert(is_ascii_digit(s[s.len() - 1]));
    }
}

/// Parses a decimal `u16` the way `str::parse::<u16>` does.
pub fn parse_u16(s: &str) -> (r: Option<u16>)
    ensures
        r == spec_parse_u16(s@),
{
    let cs = chars_of(s);
    let n = cs.len();
    let start: usize = if n > 0 && cs[0] == '+' { 1 } else { 0 };
    let ghost d = unsigned_digits(cs@);
    assert(d =~= cs@.subrange(start as int, n as int));
    if start == n {
        return None;
    }
    let mut acc: u32 = 0;
    let mut i: usize = start;
    assert(d.take(0) =~= Seq::<char>::empty());
    while i < n
        invariant
            start <= i <= n,
            n == cs@.len(),
            cs@ == s@,
            d == unsigned_digits(s@),
            d == cs@.subrange(start as int, n as int),
            forall|k: int| 0 <= k < i - start ==> is_ascii_digit(#[trigger] d[k]),
            acc as int == decimal_value(d.take(i - start)),
            acc <= 65535,
        decreases n - i,
    {
        let c = cs[i];
        assert(c == d[i - start]);
        if !('0' <= c && c <= '9') {
            assert(!is_ascii_digit(d[i - start]));
            return None;
        }
        let v = (c as u32) - ('0' as u32);
        proof { lemma_decimal_step(d, i - start); }
        let next = acc * 10 + v;
        if next > 65535 {
            proof {
                if forall|k: int| 0 <= k < d.len() ==> is_ascii_digit(#[trigger] d[k]) {
                    lemma_decimal_grows(d, i - start + 1);
                    assert(decimal_value(d) > 65535);
                }
                assert(spec_parse_u16(s@) is None);
            }
            return None;
        }
        acc = next;
        i += 1;
    }
    assert(d.take(n - start) =~= d);
    Some(acc as u16)
}

/// Unsigned parsing as `str::parse` does it for an unsigned type whose
/// largest value is `max`: an optional `+`, then at least one decimal digit
/// and nothing else, with a value no greater than `max`.
pub open spec fn spec_parse_unsigned(s: Seq<char>, max: u64) -> Option<u64> {
    let d = unsigned_digits(s);
    if d.len() > 0 && (forall|i: int| 0 <= i < d.len() ==> is_ascii_digit(#[trigger] d[i]))
        && decimal_value(d) <= max {
        Some(decimal_value(d) as u64)
    } else {
        None
    }
}

/// Parses a decimal number no greater than `max` the way `str::parse` does
/// for an unsigned type with that maximum.
pub fn parse_unsigned(s: &str, max: u64) -> (r: Option<u64>)
    ensures
        r == spec_parse_unsigned(s@, max),
{
    let cs = chars_of(s);
    let n = cs.len();
    let start: usize = if n > 0 && cs[0] == '+' { 1 } else { 0 };
    let ghost d = unsigned_digits(cs@);
    assert(d =~= cs@.subrange(start as int, n as int));
    if start == n {
        return None;
    }
    let mut acc: u64 = 0;
    let mut i: usize = start;
    assert(d.take(0) =~= Seq::<char>::empty());
    while i < n
        invariant
            start <= i <= n,
            n == cs@.len(),
            cs@ == s@,
            d == unsigned_digits(s@),
            d == cs@.subrange(start as int, n as int),
            forall|k: int| 0 <= k < i - start ==> is_ascii_digit(#[trigger] d[k]),
            acc as int == decimal_value(d.take(i - start)),
            acc <= max,
        decreases n - i,
    {
        let c = cs[i];
        assert(c == d[i - start]);
        if !('0' <= c && c <= '9') {
            assert(!is_ascii_digit(d[i - start]));
            return None;
        }
        let v = (c as u32) - ('0' as u32);
        proof { lemma_decimal_step(d, i - start); }
        let next: u128 = acc as u128 * 10 + v as u128;
        if next > max as u128 {
            proof {
                if forall|k: int| 0 <= k < d.len() ==> is_ascii_digit(#[trigger] d[k]) {
                    lemma_decimal_grows(d, i - start + 1);
                    assert(decimal_value(d) > max);
                }
                assert(spec_parse_unsigned(s@, max) is None);
            }
            return None;
        }
        acc = next as u64;
        i += 1;
    }
    assert(d.take(n - start) =~= d);
    Some(acc)
}

/// The TCP base port an override selects: a parsed `u16` no greater than
/// `65535 - 16`, else the default base port.
pub open spec fn spec_tcp_base_port(raw: Option<Seq<char>>) -> u16 {
    match raw {
        Some(s) => match spec_parse_u16(s) {
            Some(p) => if p <= 65519 { p } else { DEFAULT_TCP_BASE_PORT },
            None => DEFAULT_TCP_BASE_PORT,
        },
        None => DEFAULT_TCP_BASE_PORT,
    }
}

/// The base port for TCP endpoints, from the override value if one is set.
pub fn tcp_base_port(raw: Option<String>) -> (r: u16)
    ensures
        r == spec_tcp_base_port(match raw { Some(s) => Some(s@), None => None }),
        r <= 65519,
{
    match raw {
        None => DEFAULT_TCP_BASE_PORT,
        Some(s) => match parse_u16(s.as_str()) {
            Some(p) => if p <= 65519 { p } else { DEFAULT_TCP_BASE_PORT },
            None => DEFAULT_TCP_BASE_PORT,
        },
    }
}

/// Offset of each service's port from the base port.
pub open spec fn role_port_offset(role: ServiceRole) -> u16 {
    match role {
        ServiceRole::Displayd => 0,
        ServiceRole::Waylandd => 1,
        ServiceRole::Compd => 2,
        ServiceRole::Lockd => 3,
        ServiceRole::Sessiond => 4,
        ServiceRole::Watchdog => 5,
        ServiceRole::X11Bridge => 6,
    }
}

/// The TCP port of a service: the base port plus the service's offset.
pub fn service_port(role: ServiceRole, base_port: u16) -> (r: u16)
    requires
        base_port <= 65519,
    ensures
        r == base_port + role_port_offset(role),
{
    let offset: u16 = match role {
        ServiceRole::Displayd => 0,
        ServiceRole::Waylandd => 1,
        ServiceRole::Compd => 2,
        ServiceRole::Lockd => 3,
        ServiceRole::Sessiond => 4,
        ServiceRole::Watchdog => 5,
        ServiceRole::X11Bridge => 6,
    };
    base_port + offset
}

/// A relative file name joined under a directory, as `Path::join` does it
/// for a name that does not start with `/`: a separator is put between them
/// unless the directory is empty or already ends with one.
pub open spec fn spec_join(dir: Seq<char>, name: Seq<char>) -> Seq<char> {
    if dir.len() == 0 {
        name
    } else if dir.last() == '/' {
        dir + name
    } else {
        dir + seq!['/'] + name
    }
}

fn join_path(dir: &str, name: &Vec<char>) -> (r: String)
    ensures
        r@ == spec_join(dir@, name@),
{
    let mut out = chars_of(dir);
    if out.len() > 0 && out[out.len() - 1] != '/' {
        out.push('/');
    }
    push_chars(&mut out, name);
    string_from_chars(&out)
}

/// The Unix socket of a service under the runtime directory: `<role>.sock`.
pub fn service_socket_path(runtime_dir: &str, role: ServiceRole) -> (r: String)
    ensures
        r@ == spec_join(runtime_dir@, role_name(role) + ".sock"@),
{
    let mut name = chars_of(role.as_str());
    push_str(&mut name, ".sock");
    join_path(runtime_dir, &name)
}

/// Where a session artifact is kept under the runtime directory:
/// `session-<id>-<name>.json` with both parts sanitized.
pub fn session_artifact_path(runtime_dir: &str, session_instance_id: &str, artifact_name: &str) -> (r: String)
    ensures
        r@ == spec_join(
            runtime_dir@,
            "session-"@ + spec_sanitize_session_instance_id(session_instance_id@) + "-"@
                + spec_sanitize_artifact_filename(artifact_name@) + ".json"@,
        ),
{
    let safe_id = sanitize_session_instance_id(session_instance_id);
    let safe_name = sanitize_artifact_filename(artifact_name);
    let mut name = chars_of("session-");
    push_str(&mut name, safe_id.as_str());
    push_str(&mut name, "-");
    push_str(&mut name, safe_name.as_str());
    push_str(&mut name, ".json");
    join_path(runtime_dir, &name)
}

/// `s[i..i+2]` is a `..` path component.
pub open spec fn is_parent_component_at(s: Seq<char>, i: int) -> bool {
    &&& 0 <= i && i + 2 <= s.len()
    &&& s[i] == '.' && s[i + 1] == '.'
    &&& (i == 0 || s[i - 1] == '/')
    &&& (i + 2 == s.len() || s[i + 2] == '/')
}

/// A runtime socket path is acceptable when it is not empty, does not lie
/// under `/run/user/`, and has no `..` component.
pub open spec fn spec_valid_runtime_socket_path(s: Seq<char>) -> bool {
    &&& s.len() > 0
    &&& !seq_contains_run(s, "/run/user/"@)
    &&& !(exists|i: int| #[trigger] is_parent_component_at(s, i))
}

/// Checks a socket path given on the command line.
pub fn validate_runtime_socket_path(path: &str) -> (r: bool)
    ensures
        r == spec_valid_runtime_socket_path(path@),
{
    let cs = chars_of(path);
    if cs.len() == 0 {
        return false;
    }
    let needle = chars_of("/run/user/");
    if contains_run(&cs, &needle) {
        return false;
    }
    let n = cs.len();
    let mut i: usize = 0;
    while i < n - 1
        invariant
            n > 0,
            i <= n,
            n == cs@.len(),
            cs@ == path@,
            forall|k: int| 0 <= k < i ==> !#[trigger] is_parent_component_at(cs@, k),
        decreases n - i,
    {
        if cs[i] == '.' && cs[i + 1] == '.' && (i == 0 || cs[i - 1] == '/') && (i + 2 == n || cs[i + 2] == '/') {
            assert(is_parent_component_at(cs@, i as int));
            return false;
        }
        i += 1;
    }
    assert forall|k: int| !#[trigger] is_parent_component_at(cs@, k) by {
        if k >= i { assert(k + 2 > n); }
    }
    true
}

/// The kinds of accept error after which the accept loop goes on: an
/// interrupted or would-block call, or a peer that went away.
pub open spec fn recoverable_accept_kind(name: Seq<char>) -> bool {
    ||| name == "Interrupted"@
    ||| name == "WouldBlock"@
    ||| name == "ConnectionAborted"@
    ||| name == "ConnectionReset"@
    ||| name == "BrokenPipe"@
    ||| name == "NotConnected"@
}

/// Whether an accept loop may go on after an error of the kind with this
/// name (an `std::io::ErrorKind` variant name, such as `Interrupted`).
pub fn is_recoverable_accept_kind(name: &String) -> (r: bool)
    ensures
        r == recoverable_accept_kind(name@),
{
    crate::cli::is_arg(name, "Interrupted") || crate::cli::is_arg(name, "WouldBlock")
        || crate::cli::is_arg(name, "ConnectionAborted") || crate::cli::is_arg(name, "ConnectionReset")
        || crate::cli::is_arg(name, "BrokenPipe") || crate::cli::is_arg(name, "NotConnected")
}

#[verifier::external_type_specification]
#[verifier::external_body]
pub struct ExIoError(std::io::Error);

/// The name of the kind an I/O error carries: the `std::io::ErrorKind`
/// variant that `Error::kind` returns, as its `Debug` writes it.
pub uninterp spec fn io_error_kind_name(err: std::io::Error) -> Seq<char>;

/// `Error::kind` of an I/O error, written by the kind's derived `Debug`,
/// which is the variant's name (`Interrupted`, `WouldBlock`, ...). The kind
/// is a property of the error value alone; which kind a given error has is
/// not claimed.
#[verifier::external_body]
fn error_kind_name(err: &std::io::Error) -> (r: String)
    ensures
        r@ == io_error_kind_name(*err),
{
    format!("{:?}", err.kind())
}

/// Whether an error from `accept` is transient (interrupted, would block,
/// or a peer that went away), so the accept loop should go on.
pub fn is_recoverable_accept_error(err: &std::io::Error) -> (r: bool)
    ensures
        r == recoverable_accept_kind(io_error_kind_name(*err)),
{
    let name = error_kind_name(err);
    is_recoverable_accept_kind(&name)
}

} // verus!

verus! {

/// A serialization sink that refuses to grow beyond a byte limit.
pub struct BoundedJsonBuffer {
    bytes: Vec<u8>,
    limit: usize,
}

impl BoundedJsonBuffer {
    /// The bytes written so far.
    pub closed spec fn contents(&self) -> Seq<u8> {
        self.bytes@
    }

    /// The most bytes the buffer accepts.
    pub closed spec fn limit(&self) -> nat {
        self.limit as nat
    }

    pub fn new(limit: usize) -> (r: Self)
        ensures
            r.contents() == Seq::<u8>::empty(),
            r.limit() == limit,
    {
        BoundedJsonBuffer { bytes: Vec::new(), limit }
    }

    /// Appends `buf` when the result stays within the limit, else refuses
    /// and keeps what it has.
    pub fn write(&mut self, buf: &[u8]) -> (r: Result<usize, String>)
        ensures
            final(self).limit() == old(self).limit(),
            old(self).contents().len() + buf@.len() <= old(self).limit() ==> r == Ok::<usize, String>(buf@.len() as usize)
                && final(self).contents() == old(self).contents() + buf@,
            old(self).contents().len() + buf@.len() > old(self).limit() ==> r is Err
                && final(self).contents() == old(self).contents(),
            r matches Err(m) ==> (old(self).contents().len() + buf@.len() <= usize::MAX
                ==> m@ == "IPC JSON serialization exceeds configured bound"@),
    {
        let next = match self.bytes.len().checked_add(buf.len()) {
            Some(n) => n,
            None => { return Err(String::from_str("IPC size overflow")); }
        };
        if next > self.limit {
            return Err(String::from_str("IPC JSON serialization exceeds configured bound"));
        }
        let ghost start = self.bytes@;
        let mut i: usize = 0;
        while i < buf.len()
            invariant
                i <= buf@.len(),
                self.bytes@ == start + buf@.take(i as int),
                self.limit == old(self).limit,
            decreases buf@.len() - i,
        {
            self.bytes.push(buf[i]);
            i += 1;
            assert(self.bytes@ =~= start + buf@.take(i as int));
        }
        assert(buf@.take(buf@.len() as int) =~= buf@);
        Ok(buf.len())
    }

    pub fn into_inner(self) -> (r: Vec<u8>)
        ensures
            r@ == self.contents(),
    {
        self.bytes
    }
}

/// What reading one chunk of a JSON line gave.
#[derive(Debug, PartialEq, Eq)]
pub enum LineStep {
    /// No newline yet: this many bytes were taken and more are needed.
    NeedMore { consumed: usize },
    /// The line is complete; this many bytes were consumed, newline included.
    Complete { consumed: usize },
    Failed { message: String },
}

/// Index of the first newline in `s`, or its length when there is none.
pub open spec fn first_newline(s: Seq<u8>) -> int
    decreases s.len(),
{
    if s.len() == 0 { 0 } else if s[0] == 10u8 { 0 } else { 1 + first_newline(s.drop_first()) }
}

proof fn lemma_first_newline(s: Seq<u8>)
    ensures
        0 <= first_newline(s) <= s.len(),
        first_newline(s) < s.len() ==> s[first_newline(s)] == 10u8,
        forall|k: int| 0 <= k < first_newline(s) ==> s[k] != 10u8,
    decreases s.len(),
{
    if s.len() > 0 && s[0] != 10u8 {
        lemma_first_newline(s.drop_first());
        assert forall|k: int| 0 <= k < first_newline(s) implies s[k] != 10u8 by {
            if k > 0 { assert(s[k] == s.drop_first()[k - 1]); }
        }
    }
}

/// Collects one newline-terminated JSON line of at most
/// `MAX_IPC_JSON_LINE_BYTES` bytes from the chunks a reader hands out.
pub struct JsonLineAccumulator {
    line: Vec<u8>,
}

impl JsonLineAccumulator {
    /// The bytes of the line gathered so far, newline excluded.
    pub closed spec fn line(&self) -> Seq<u8> {
        self.line@
    }

    pub fn new() -> (r: Self)
        ensures
            r.line() == Seq::<u8>::empty(),
    {
        JsonLineAccumulator { line: Vec::new() }
    }

    /// Takes the next chunk of input. An empty chunk is end of input, which
    /// fails. Otherwise the bytes up to the first newline are taken, unless
    /// the line would then exceed the bound.
    pub fn feed(&mut self, available: &[u8]) -> (r: LineStep)
        ensures
            ({
                let take = first_newline(available@);
                let has_newline = take < available@.len();
                if available@.len() == 0 {
                    &&& r is Failed
                    &&& final(self).line() == old(self).line()
                    &&& r matches LineStep::Failed { message } && message@ == (if old(self).line().len() == 0 {
                        "unexpected EOF while reading IPC message"@
                    } else {
                        "unexpected EOF before IPC newline delimiter"@
                    })
                } else if old(self).line().len() + take > MAX_IPC_JSON_LINE_BYTES {
                    &&& r matches LineStep::Failed { message } && message@ == "IPC message exceeds 65536 bytes"@
                    &&& final(self).line() == old(self).line()
                } else {
                    &&& final(self).line() == old(self).line() + available@.take(take)
                    &&& has_newline ==> r == LineStep::Complete { consumed: (take + 1) as usize }
                    &&& !has_newline ==> r == LineStep::NeedMore { consumed: take as usize }
                }
            }),
    {
        proof { lemma_first_newline(available@); }
        if available.len() == 0 {
            if self.line.len() == 0 {
                return LineStep::Failed { message: String::from_str("unexpected EOF while reading IPC message") };
            }
            return LineStep::Failed { message: String::from_str("unexpected EOF before IPC newline delimiter") };
        }
        let n = available.len();
        let mut take: usize = 0;
        while take < n && available[take] != 10u8
            invariant
                take <= n,
                n == available@.len(),
                take <= first_newline(available@),
                forall|k: int| 0 <= k < first_newline(available@) ==> available@[k] != 10u8,
                first_newline(available@) < n ==> available@[first_newline(available@)] == 10u8,
                first_newline(available@) <= n,
            decreases n - take,
        {
            take += 1;
        }
        assert(take == first_newline(available@));
        if self.line.len() > MAX_IPC_JSON_LINE_BYTES || take > MAX_IPC_JSON_LINE_BYTES - self.line.len() {
            return LineStep::Failed { message: String::from_str("IPC message exceeds 65536 bytes") };
        }
        let ghost start = self.line@;
        let mut i: usize = 0;
        while i < take
            invariant
                i <= take <= n,
                n == available@.len(),
                self.line@ == start + available@.take(i as int),
            decreases take - i,
        {
            self.line.push(available[i]);
            i += 1;
            assert(self.line@ =~= start + available@.take(i as int));
        }
        if take < n {
            LineStep::Complete { consumed: take + 1 }
        } else {
            LineStep::NeedMore { consumed: take }
        }
    }

    pub fn into_line(self) -> (r: Vec<u8>)
        ensures
            r@ == self.line(),
    {
        self.line
    }
}

} // verus!

verus! {

/// Bytes a framed payload must carry: `stride * height`, when the
/// dimensions are non-zero, the stride covers `width` 32-bit pixels without
/// overflowing `u32`, and the product stays within one attachment's bound.
pub open spec fn spec_expected_payload_bytes(width: u32, height: u32, stride: u32) -> Option<int> {
    if width == 0 || height == 0 {
        None
    } else if width as int * 4 > u32::MAX {
        None
    } else if (stride as int) < width as int * 4 {
        None
    } else if stride as int * height as int > MAX_IPC_BINARY_ATTACHMENT_BYTES {
        None
    } else {
        Some(stride as int * height as int)
    }
}

/// The byte length a framed pixel payload must have.
pub fn expected_pixel_payload_bytes(payload: &PixelTransportPayload) -> (r: Result<usize, String>)
    ensures
        match spec_expected_payload_bytes(payload.width, payload.height, payload.stride) {
            Some(n) => r == Ok::<usize, String>(n as usize),
            None => r is Err,
        },
        r matches Err(m) ==> (payload.width == 0 || payload.height == 0
            ==> m@ == "framed PixelTransport payload dimensions must be non-zero"@),
{
    if payload.width == 0 || payload.height == 0 {
        return Err(String::from_str("framed PixelTransport payload dimensions must be non-zero"));
    }
    let min_stride = match payload.width.checked_mul(4) {
        Some(v) => v,
        None => { return Err(String::from_str("framed PixelTransport stride overflow")); }
    };
    if payload.stride < min_stride {
        return Err(String::from_str("framed PixelTransport stride is smaller than 32-bit pixel width"));
    }
    let stride = payload.stride as u64;
    let height = payload.height as u64;
    assert(stride * height <= u32::MAX as int * u32::MAX as int) by (nonlinear_arith)
        requires stride <= u32::MAX, height <= u32::MAX;
    let expected = stride * height;
    if expected > MAX_IPC_BINARY_ATTACHMENT_BYTES as u64 {
        return Err(String::from_str("framed PixelTransport attachment exceeds 67108864 bytes"));
    }
    Ok(expected as usize)
}

/// Whether payload `p` can be framed: its expected length is defined and its
/// pixel bytes have exactly that length.
pub open spec fn payload_frameable(p: PixelTransportPayload) -> bool {
    match spec_expected_payload_bytes(p.width, p.height, p.stride) {
        Some(n) => p.pixels@.len() == n,
        None => false,
    }
}

/// Sum of the expected lengths of the first `k` payloads.
pub open spec fn expected_total(ps: Seq<PixelTransportPayload>, k: int) -> int
    decreases k,
{
    if k <= 0 {
        0
    } else {
        expected_total(ps, k - 1) + match spec_expected_payload_bytes(ps[k - 1].width, ps[k - 1].height, ps[k - 1].stride) {
            Some(n) => n,
            None => 0,
        }
    }
}

proof fn lemma_expected_total_monotone(ps: Seq<PixelTransportPayload>, j: int, k: int)
    requires
        0 <= j <= k,
    ensures
        expected_total(ps, j) <= expected_total(ps, k),
    decreases k - j,
{
    if j < k {
        lemma_expected_total_monotone(ps, j, k - 1);
    }
}

/// The attachment lengths for a framed scene command: one per payload, when
/// there are at most `MAX_IPC_BINARY_ATTACHMENTS` payloads, each can be
/// framed, and together they stay within the total bound.
pub fn plan_framed_attachments(payloads: &Vec<PixelTransportPayload>) -> (r: Result<Vec<u64>, String>)
    ensures
        r is Ok <==> (payloads@.len() <= MAX_IPC_BINARY_ATTACHMENTS
            && (forall|i: int| 0 <= i < payloads@.len() ==> #[trigger] payload_frameable(payloads@[i]))
            && expected_total(payloads@, payloads@.len() as int) <= MAX_IPC_BINARY_TOTAL_BYTES),
        r matches Ok(lengths) ==> lengths@.len() == payloads@.len()
            && forall|i: int| 0 <= i < lengths@.len() ==> #[trigger] lengths@[i] as int == payloads@[i].pixels@.len(),
        r matches Err(m) ==> (payloads@.len() > MAX_IPC_BINARY_ATTACHMENTS ==> m@ == "IPC binary attachment count exceeds 4096"@),
{
    if payloads.len() > MAX_IPC_BINARY_ATTACHMENTS {
        return Err(String::from_str("IPC binary attachment count exceeds 4096"));
    }
    let mut lengths: Vec<u64> = Vec::new();
    let mut total: usize = 0;
    let mut i: usize = 0;
    while i < payloads.len()
        invariant
            i <= payloads@.len() <= MAX_IPC_BINARY_ATTACHMENTS,
            lengths@.len() == i,
            forall|k: int| 0 <= k < i ==> #[trigger] payload_frameable(payloads@[k]),
            forall|k: int| 0 <= k < i ==> #[trigger] lengths@[k] as int == payloads@[k].pixels@.len(),
            total as int == expected_total(payloads@, i as int),
            total <= MAX_IPC_BINARY_TOTAL_BYTES,
        decreases payloads@.len() - i,
    {
        let payload = &payloads[i];
        let expected = match expected_pixel_payload_bytes(payload) {
            Ok(n) => n,
            Err(e) => {
                assert(!payload_frameable(payloads@[i as int]));
                return Err(e);
            }
        };
        assert(spec_expected_payload_bytes(payload.width, payload.height, payload.stride) == Some(expected as int));
        if payload.pixels.len() != expected {
            assert(!payload_frameable(payloads@[i as int]));
            let mut m = chars_of("framed PixelTransport payload byte length mismatch for ");
            push_str(&mut m, payload.handle.surface_id.as_str());
            push_str(&mut m, ": ");
            let got = crate::text::decimal_chars(payload.pixels.len() as u64);
            push_chars(&mut m, &got);
            push_str(&mut m, " != ");
            let want = crate::text::decimal_chars(expected as u64);
            push_chars(&mut m, &want);
            return Err(string_from_chars(&m));
        }
        total = total + expected;
        if total > MAX_IPC_BINARY_TOTAL_BYTES {
            proof { lemma_expected_total_monotone(payloads@, i + 1, payloads@.len() as int); }
            return Err(String::from_str("IPC binary attachment bytes exceed 268435456"));
        }
        lengths.push(expected as u64);
        i += 1;
    }
    Ok(lengths)
}

/// A received payload carries no inline pixel bytes and its declared
/// attachment length is the one its dimensions call for.
pub open spec fn received_payload_matches(p: PixelTransportPayload, declared: usize) -> bool {
    p.pixels@.len() == 0 && spec_expected_payload_bytes(p.width, p.height, p.stride) == Some(declared as int)
}

/// Checks the payloads of a received framed scene against the attachment
/// lengths its header declared: one length per payload, no inline pixel
/// bytes in the metadata, and each declared length equal to the expected one.
pub fn validate_framed_payloads(payloads: &Vec<PixelTransportPayload>, lengths: &Vec<usize>) -> (r: Result<(), String>)
    ensures
        r is Ok <==> (payloads@.len() == lengths@.len()
            && forall|i: int| 0 <= i < payloads@.len() ==> #[trigger] received_payload_matches(payloads@[i], lengths@[i])),
{
    if payloads.len() != lengths.len() {
        let mut m = chars_of("IPC frame attachment count ");
        let a = crate::text::decimal_chars(lengths.len() as u64);
        push_chars(&mut m, &a);
        push_str(&mut m, " does not match scene payload count ");
        let b = crate::text::decimal_chars(payloads.len() as u64);
        push_chars(&mut m, &b);
        return Err(string_from_chars(&m));
    }
    let mut i: usize = 0;
    while i < payloads.len()
        invariant
            i <= payloads@.len(),
            payloads@.len() == lengths@.len(),
            forall|k: int| 0 <= k < i ==> #[trigger] received_payload_matches(payloads@[k], lengths@[k]),
        decreases payloads@.len() - i,
    {
        let payload = &payloads[i];
        if payload.pixels.len() != 0 {
            assert(!received_payload_matches(payloads@[i as int], lengths@[i as int]));
            return Err(String::from_str("IPC frame metadata must not contain inline pixel bytes"));
        }
        let expected = match expected_pixel_payload_bytes(payload) {
            Ok(n) => n,
            Err(e) => {
                assert(!received_payload_matches(payloads@[i as int], lengths@[i as int]));
                return Err(e);
            }
        };
        assert(spec_expected_payload_bytes(payload.width, payload.height, payload.stride) == Some(expected as int));
        if lengths[i] != expected {
            assert(!received_payload_matches(payloads@[i as int], lengths@[i as int]));
            let mut m = chars_of("IPC frame attachment length mismatch for ");
            push_str(&mut m, payload.handle.surface_id.as_str());
            push_str(&mut m, ": ");
            let a = crate::text::decimal_chars(lengths[i] as u64);
            push_chars(&mut m, &a);
            push_str(&mut m, " != ");
            let b = crate::text::decimal_chars(expected as u64);
            push_chars(&mut m, &b);
            return Err(string_from_chars(&m));
        }
        assert(received_payload_matches(payloads@[i as int], lengths@[i as int]));
        i += 1;
    }
    Ok(())
}

/// The payload with its pixel bytes dropped and everything else kept.
pub fn metadata_only_payload(payload: &PixelTransportPayload) -> (r: PixelTransportPayload)
    ensures
        r.handle == payload.handle,
        r.pixels@.len() == 0,
        r.width == payload.width && r.height == payload.height,
        r.stride == payload.stride && r.format == payload.format,
{
    PixelTransportPayload {
        handle: payload.handle.clone(),
        pixels: Vec::new(),
        width: payload.width,
        height: payload.height,
        stride: payload.stride,
        format: payload.format,
    }
}

/// `r` holds the metadata-only form of each payload of `ps`, in order.
pub open spec fn metadata_only_of(r: Seq<PixelTransportPayload>, ps: Seq<PixelTransportPayload>) -> bool {
    &&& r.len() == ps.len()
    &&& forall|i: int| 0 <= i < ps.len() ==> {
        &&& (#[trigger] r[i]).handle == ps[i].handle
        &&& r[i].pixels@.len() == 0
        &&& r[i].width == ps[i].width && r[i].height == ps[i].height
        &&& r[i].stride == ps[i].stride && r[i].format == ps[i].format
    }
}

fn metadata_only_payloads(payloads: &Vec<PixelTransportPayload>) -> (r: Vec<PixelTransportPayload>)
    ensures
        metadata_only_of(r@, payloads@),
{
    let mut out: Vec<PixelTransportPayload> = Vec::new();
    let mut i: usize = 0;
    while i < payloads.len()
        invariant
            i <= payloads@.len(),
            metadata_only_of(out@, payloads@.take(i as int)),
        decreases payloads@.len() - i,
    {
        let p = metadata_only_payload(&payloads[i]);
        out.push(p);
        i += 1;
        assert(metadata_only_of(out@, payloads@.take(i as int)));
    }
    assert(payloads@.take(payloads@.len() as int) =~= payloads@);
    out
}

/// The pixel payloads a display command carries: those of a scene commit or
/// a scene reconciliation, and none for any other command.
pub fn display_command_pixel_payloads(command: &DisplayCommand) -> (r: Option<&Vec<PixelTransportPayload>>)
    ensures
        match *command {
            DisplayCommand::CommitScene { pixel_payloads, .. } => r == Some(&pixel_payloads),
            DisplayCommand::ReconcileScene { pixel_payloads, .. } => r == Some(&pixel_payloads),
            _ => r is None,
        },
{
    match command {
        DisplayCommand::CommitScene { pixel_payloads, .. } => Some(pixel_payloads),
        DisplayCommand::ReconcileScene { pixel_payloads, .. } => Some(pixel_payloads),
        _ => None,
    }
}

/// The command as it travels in the metadata of a frame: scene commands
/// keep every field but carry metadata-only payloads; any other command is
/// unchanged.
pub fn display_command_without_pixel_bytes(command: DisplayCommand) -> (r: DisplayCommand)
    ensures
        match command {
            DisplayCommand::CommitScene { target, focus, selection, surfaces, pixel_payloads, scene_epoch, scene_generation } =>
                r matches DisplayCommand::CommitScene { target: t, focus: f, selection: s, surfaces: v, pixel_payloads: p, scene_epoch: e, scene_generation: g }
                && t == target && f == focus && s == selection && v == surfaces && e == scene_epoch && g == scene_generation
                && metadata_only_of(p@, pixel_payloads@),
            DisplayCommand::ReconcileScene { epoch, scene_epoch, scene_generation, target, focus, selection, surfaces, pixel_payloads } =>
                r matches DisplayCommand::ReconcileScene { epoch: ep, scene_epoch: e, scene_generation: g, target: t, focus: f, selection: s, surfaces: v, pixel_payloads: p }
                && ep == epoch && t == target && f == focus && s == selection && v == surfaces && e == scene_epoch && g == scene_generation
                && metadata_only_of(p@, pixel_payloads@),
            _ => r == command,
        },
{
    match command {
        DisplayCommand::CommitScene { target, focus, selection, surfaces, pixel_payloads, scene_epoch, scene_generation } => {
            let stripped = metadata_only_payloads(&pixel_payloads);
            DisplayCommand::CommitScene { target, focus, selection, surfaces, pixel_payloads: stripped, scene_epoch, scene_generation }
        },
        DisplayCommand::ReconcileScene { epoch, scene_epoch, scene_generation, target, focus, selection, surfaces, pixel_payloads } => {
            let stripped = metadata_only_payloads(&pixel_payloads);
            DisplayCommand::ReconcileScene { epoch, scene_epoch, scene_generation, target, focus, selection, surfaces, pixel_payloads: stripped }
        },
        other => other,
    }
}

} // verus!
