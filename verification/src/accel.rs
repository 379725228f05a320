//! Acceleration policy: which SIMD flavour and whether Vulkan is preferred,
//! from environment overrides and the CPU features that were detected.
use vstd::prelude::*;
use crate::text::chars_of;

verus! {

#[derive(Debug, Clone, Copy, PartialEq, Eq, Structural)]
pub enum SimdFlavor {
    Portable,
    Sse42,
    Avx2,
    Avx512f,
    Neon,
}

#[derive(Debug, Clone, Copy, PartialEq, Eq, Structural)]
pub struct AccelPolicy {
    pub accel_enabled: bool,
    pub simd_enabled: bool,
    pub vulkan_enabled: bool,
    pub avx2_available: bool,
    pub avx512f_available: bool,
    pub sse42_available: bool,
    pub neon_available: bool,
}

/// CPU features reported by the host.
#[derive(Debug, Clone, Copy, PartialEq, Eq, Structural)]
pub struct CpuFeatures {
    pub avx2: bool,
    pub avx512f: bool,
    pub sse42: bool,
    pub neon: bool,
}

/// Unicode `White_Space`, the set that `char::is_whitespace` and `str::trim` use.
pub open spec fn is_unicode_whitespace(c: char) -> bool {
    let u = c as u32;
    (0x9 <= u <= 0xD) || u == 0x20 || u == 0x85 || u == 0xA0 || u == 0x1680
        || (0x2000 <= u <= 0x200A) || u == 0x2028 || u == 0x2029 || u == 0x202F
        || u == 0x205F || u == 0x3000
}

fn is_whitespace_char(c: char) -> (r: bool)
    ensures
        r == is_unicode_whitespace(c),
{
    let u = c as u32;
    (0x9 <= u && u <= 0xD) || u == 0x20 || u == 0x85 || u == 0xA0 || u == 0x1680
        || (0x2000 <= u && u <= 0x200A) || u == 0x2028 || u == 0x2029 || u == 0x202F
        || u == 0x205F || u == 0x3000
}

/// `s` with leading and trailing whitespace removed: the run `s[lo..hi]` such
/// that nothing outside it but whitespace is cut and its ends are not whitespace.
pub open spec fn is_trim_of(s: Seq<char>, lo: int, hi: int) -> bool {
    &&& 0 <= lo <= hi <= s.len()
    &&& forall|i: int| 0 <= i < lo ==> is_unicode_whitespace(#[trigger] s[i])
    &&& forall|i: int| hi <= i < s.len() ==> is_unicode_whitespace(#[trigger] s[i])
    &&& lo < hi ==> !is_unicode_whitespace(s[lo]) && !is_unicode_whitespace(s[hi - 1])
}

pub open spec fn ascii_lower(c: char) -> char {
    if 'A' <= c <= 'Z' { ((c as u32) + 32) as char } else { c }
}

/// ASCII lower-casing of every character.
pub open spec fn lower_seq(s: Seq<char>) -> Seq<char> {
    Seq::new(s.len(), |i: int| ascii_lower(s[i]))
}

/// Whether a trimmed, lower-cased override value switches the flag on.
pub open spec fn is_truthy_word(t: Seq<char>) -> bool {
    t == seq!['1'] || t == seq!['t', 'r', 'u', 'e'] || t == seq!['y', 'e', 's'] || t == seq!['o', 'n']
}

/// Whether an environment override value enables its flag: after trimming
/// whitespace and ASCII lower-casing it reads `1`, `true`, `yes` or `on`.
pub open spec fn env_flag_set(value: Option<Seq<char>>) -> bool {
    value is Some && text_flag_set(value->0)
}

/// Whether an override text enables its flag.
pub open spec fn text_flag_set(s: Seq<char>) -> bool {
    exists|lo: int, hi: int| #[trigger] is_trim_of(s, lo, hi) && is_truthy_word(lower_seq(s.subrange(lo, hi)))
}

fn lower_char(c: char) -> (r: char)
    ensures
        r == ascii_lower(c),
{
    if 'A' <= c && c <= 'Z' {
        let u = (c as u32) + 32;
        assert(0x61 <= u <= 0x7A);
        char_from_ascii(u)
    } else {
        c
    }
}

fn char_from_ascii(u: u32) -> (c: char)
    requires
        0x61 <= u <= 0x7A,
    ensures
        c == u as char,
{
    let b = u as u8;
    b as char
}

proof fn lemma_trim_unique(s: Seq<char>, lo1: int, hi1: int, lo2: int, hi2: int)
    requires
        is_trim_of(s, lo1, hi1),
        is_trim_of(s, lo2, hi2),
        lo1 < hi1,
    ensures
        lo1 == lo2 && hi1 == hi2,
{
    if lo2 < lo1 {
        assert(is_unicode_whitespace(s[lo2]));
    }
    if lo1 < lo2 {
        assert(is_unicode_whitespace(s[lo1]));
    }
    if hi2 > hi1 {
        assert(is_unicode_whitespace(s[hi2 - 1]));
    }
    if hi1 > hi2 {
        assert(is_unicode_whitespace(s[hi1 - 1]));
    }
}

/// Any two trims of one text lower-case to the same characters.
pub proof fn lemma_trim_lower_determined(s: Seq<char>, lo: int, hi: int, a: int, b: int)
    requires
        is_trim_of(s, lo, hi),
        is_trim_of(s, a, b),
    ensures
        lower_seq(s.subrange(lo, hi)) == lower_seq(s.subrange(a, b)),
{
    if lo < hi {
        lemma_trim_unique(s, lo, hi, a, b);
    } else if a < b {
        lemma_trim_unique(s, a, b, lo, hi);
    } else {
        assert(lower_seq(s.subrange(lo, hi)) =~= lower_seq(s.subrange(a, b)));
    }
}

/// Trims whitespace from both ends and lower-cases ASCII letters; also gives
/// the bounds of the trimmed run.
pub(crate) fn trim_lower(cs: &Vec<char>) -> (r: (Vec<char>, usize, usize))
    ensures
        is_trim_of(cs@, r.1 as int, r.2 as int),
        r.0@ == lower_seq(cs@.subrange(r.1 as int, r.2 as int)),
{
    let n = cs.len();
    let mut lo: usize = 0;
    while lo < n && is_whitespace_char(cs[lo])
        invariant
            lo <= n,
            n == cs@.len(),
            forall|i: int| 0 <= i < lo ==> is_unicode_whitespace(#[trigger] cs@[i]),
        decreases n - lo,
    {
        lo += 1;
    }
    let mut hi: usize = n;
    while hi > lo && is_whitespace_char(cs[hi - 1])
        invariant
            lo <= hi <= n,
            n == cs@.len(),
            forall|i: int| hi <= i < n ==> is_unicode_whitespace(#[trigger] cs@[i]),
        decreases hi,
    {
        hi -= 1;
    }
    assert(lo < n ==> !is_unicode_whitespace(cs@[lo as int]));
    let mut t: Vec<char> = Vec::new();
    let mut i: usize = lo;
    while i < hi
        invariant
            lo <= i <= hi <= n,
            n == cs@.len(),
            t@ == lower_seq(cs@.subrange(lo as int, i as int)),
        decreases hi - i,
    {
        let c = lower_char(cs[i]);
        t.push(c);
        i += 1;
        assert(t@ =~= lower_seq(cs@.subrange(lo as int, i as int)));
    }
    (t, lo, hi)
}

/// Parses an environment override value: `1`, `true`, `yes`, `on` (any ASCII
/// case, surrounding whitespace ignored) enable; anything else, or no value,
/// leaves the flag off.
pub fn parse_env_bool(value: Option<String>) -> (r: bool)
    ensures
        r == env_flag_set(match value { Some(s) => Some(s@), None => None }),
{
    let s = match value {
        None => { return false; }
        Some(s) => s,
    };
    let cs = chars_of(s.as_str());
    let n = cs.len();
    let mut lo: usize = 0;
    while lo < n && is_whitespace_char(cs[lo])
        invariant
            lo <= n,
            n == cs@.len(),
            forall|i: int| 0 <= i < lo ==> is_unicode_whitespace(#[trigger] cs@[i]),
        decreases n - lo,
    {
        lo += 1;
    }
    let mut hi: usize = n;
    while hi > lo && is_whitespace_char(cs[hi - 1])
        invariant
            lo <= hi <= n,
            n == cs@.len(),
            forall|i: int| hi <= i < n ==> is_unicode_whitespace(#[trigger] cs@[i]),
        decreases hi,
    {
        hi -= 1;
    }
    assert(lo < n ==> !is_unicode_whitespace(cs@[lo as int]));
    assert(is_trim_of(cs@, lo as int, hi as int));
    let mut t: Vec<char> = Vec::new();
    let mut i: usize = lo;
    while i < hi
        invariant
            lo <= i <= hi <= n,
            n == cs@.len(),
            t@ == lower_seq(cs@.subrange(lo as int, i as int)),
        decreases hi - i,
    {
        let c = lower_char(cs[i]);
        t.push(c);
        i += 1;
        assert(t@ =~= lower_seq(cs@.subrange(lo as int, i as int)));
    }
    let truthy = (t.len() == 1 && t[0] == '1')
        || (t.len() == 4 && t[0] == 't' && t[1] == 'r' && t[2] == 'u' && t[3] == 'e')
        || (t.len() == 3 && t[0] == 'y' && t[1] == 'e' && t[2] == 's')
        || (t.len() == 2 && t[0] == 'o' && t[1] == 'n');
    proof {
        let w = t@;
        assert(truthy == is_truthy_word(w)) by {
            if w.len() == 1 { assert(truthy == (w == seq!['1'])) by { if w[0] == '1' { assert(w =~= seq!['1']); } } }
            if w.len() == 4 { assert(truthy == (w == seq!['t', 'r', 'u', 'e'])) by { if w[0] == 't' && w[1] == 'r' && w[2] == 'u' && w[3] == 'e' { assert(w =~= seq!['t', 'r', 'u', 'e']); } } }
            if w.len() == 3 { assert(truthy == (w == seq!['y', 'e', 's'])) by { if w[0] == 'y' && w[1] == 'e' && w[2] == 's' { assert(w =~= seq!['y', 'e', 's']); } } }
            if w.len() == 2 { assert(truthy == (w == seq!['o', 'n'])) by { if w[0] == 'o' && w[1] == 'n' { assert(w =~= seq!['o', 'n']); } } }
        }
        assert(cs@ == s@);
        if truthy {
            assert(is_trim_of(cs@, lo as int, hi as int));
            assert(is_truthy_word(lower_seq(cs@.subrange(lo as int, hi as int))));
            assert(is_trim_of(s@, lo as int, hi as int));
            assert(is_truthy_word(lower_seq(s@.subrange(lo as int, hi as int))));
            let ss = s@;
            let l = lo as int;
            let h = hi as int;
            assert(is_trim_of(ss, l, h) && is_truthy_word(lower_seq(ss.subrange(l, h))));
            assert(exists|a: int, b: int| #[trigger] is_trim_of(ss, a, b) && is_truthy_word(lower_seq(ss.subrange(a, b))));
            assert(env_flag_set(Some(s@)));
        } else {
            assert forall|a: int, b: int| #[trigger] is_trim_of(cs@, a, b) implies !is_truthy_word(lower_seq(cs@.subrange(a, b))) by {
                if lo < hi {
                    lemma_trim_unique(cs@, lo as int, hi as int, a, b);
                } else if a < b {
                    lemma_trim_unique(cs@, a, b, lo as int, hi as int);
                } else {
                    assert(lower_seq(cs@.subrange(a, b)).len() == 0);
                    assert(t@.len() == 0);
                }
            }
            assert(!env_flag_set(Some(s@)));
        }
    }
    truthy
}

impl AccelPolicy {
    /// Derives the policy from the three override values
    /// (`TUFF_XWIN_DISABLE_ACCEL`, `TUFF_XWIN_DISABLE_SIMD`,
    /// `TUFF_XWIN_DISABLE_VULKAN`) and the detected CPU features.
    pub fn detect_with(
        disable_accel_value: Option<String>,
        disable_simd_value: Option<String>,
        disable_vulkan_value: Option<String>,
        cpu: CpuFeatures,
    ) -> (r: Self)
        ensures
            ({
                let da = env_flag_set(match disable_accel_value { Some(s) => Some(s@), None => None });
                let ds = da || env_flag_set(match disable_simd_value { Some(s) => Some(s@), None => None });
                let dv = da || env_flag_set(match disable_vulkan_value { Some(s) => Some(s@), None => None });
                &&& r.accel_enabled == !da
                &&& r.simd_enabled == !ds
                &&& r.vulkan_enabled == !dv
                &&& r.avx2_available == (!ds && cpu.avx2)
                &&& r.avx512f_available == (!ds && cpu.avx512f)
                &&& r.sse42_available == (!ds && cpu.sse42)
                &&& r.neon_available == (!ds && cpu.neon)
            }),
    {
        let disable_accel = parse_env_bool(disable_accel_value);
        let disable_simd = disable_accel || parse_env_bool(disable_simd_value);
        let disable_vulkan = disable_accel || parse_env_bool(disable_vulkan_value);
        AccelPolicy {
            accel_enabled: !disable_accel,
            simd_enabled: !disable_simd,
            vulkan_enabled: !disable_vulkan,
            avx2_available: !disable_simd && cpu.avx2,
            avx512f_available: !disable_simd && cpu.avx512f,
            sse42_available: !disable_simd && cpu.sse42,
            neon_available: !disable_simd && cpu.neon,
        }
    }

    pub fn selected_simd_flavor(&self) -> (r: SimdFlavor)
        ensures
            r == spec_simd_flavor(*self),
    {
        if !self.simd_enabled {
            return SimdFlavor::Portable;
        }
        if self.avx512f_available {
            SimdFlavor::Avx512f
        } else if self.avx2_available {
            SimdFlavor::Avx2
        } else if self.sse42_available {
            SimdFlavor::Sse42
        } else if self.neon_available {
            SimdFlavor::Neon
        } else {
            SimdFlavor::Portable
        }
    }

    pub fn prefers_vulkan(&self) -> (r: bool)
        ensures
            r == (self.accel_enabled && self.vulkan_enabled),
    {
        self.accel_enabled && self.vulkan_enabled
    }
}

/// The widest available SIMD flavour, or portable code when SIMD is off.
pub open spec fn spec_simd_flavor(p: AccelPolicy) -> SimdFlavor {
    if !p.simd_enabled {
        SimdFlavor::Portable
    } else if p.avx512f_available {
        SimdFlavor::Avx512f
    } else if p.avx2_available {
        SimdFlavor::Avx2
    } else if p.sse42_available {
        SimdFlavor::Sse42
    } else if p.neon_available {
        SimdFlavor::Neon
    } else {
        SimdFlavor::Portable
    }
}

} // verus!
