//! Audio codec for the 8 kHz mono narrowband telephony leg: G.711 mu-law
//! companding between 16-bit linear PCM and the 8-bit wire format, assembly of
//! 16-bit samples from little-endian byte pairs, and 2:1 decimation for
//! synthesis backends that emit 16 kHz samples.

use vstd::prelude::*;

verus! {

/// Offset added to a sample's magnitude before segment lookup, per G.711.
pub const MU_LAW_BIAS: i32 = 132;

/// Largest magnitude representable after biasing; larger inputs are clamped.
pub const MU_LAW_CLIP: i32 = 32635;

/// Magnitude of a sample, clamped to the encodable range.
pub open spec fn spec_mu_law_clip(mag: int) -> int {
    if mag > 32635 {
        32635
    } else {
        mag
    }
}

/// Segment (exponent) of a biased magnitude in `[132, 32767]`.
pub open spec fn spec_mu_law_segment(biased: int) -> int {
    if biased < 256 {
        0
    } else if biased < 512 {
        1
    } else if biased < 1024 {
        2
    } else if biased < 2048 {
        3
    } else if biased < 4096 {
        4
    } else if biased < 8192 {
        5
    } else if biased < 16384 {
        6
    } else {
        7
    }
}

/// Quantization step of a segment: `2^(e+3)`.
pub open spec fn spec_mu_law_step(e: int) -> int {
    if e == 0 {
        8
    } else if e == 1 {
        16
    } else if e == 2 {
        32
    } else if e == 3 {
        64
    } else if e == 4 {
        128
    } else if e == 5 {
        256
    } else if e == 6 {
        512
    } else {
        1024
    }
}

/// Scale of a segment: `2^e`.
pub open spec fn spec_mu_law_scale(e: int) -> int {
    if e == 0 {
        1
    } else if e == 1 {
        2
    } else if e == 2 {
        4
    } else if e == 3 {
        8
    } else if e == 4 {
        16
    } else if e == 5 {
        32
    } else if e == 6 {
        64
    } else {
        128
    }
}

/// Seven-bit segment/mantissa code of a clamped magnitude in `[0, 32635]`.
pub open spec fn spec_mu_law_quint(mag: int) -> int {
    let biased = mag + 132;
    let e = spec_mu_law_segment(biased);
    let m = biased / spec_mu_law_step(e) - 16;
    e * 16 + m
}

/// G.711 mu-law encoding of a 16-bit linear sample: sign bit, three-bit
/// segment, four-bit mantissa, all bits complemented on the wire.
pub open spec fn spec_encode_mu_law(x: i16) -> u8 {
    if x >= 0 {
        (255 - spec_mu_law_quint(spec_mu_law_clip(x as int))) as u8
    } else {
        (127 - spec_mu_law_quint(spec_mu_law_clip(-(x as int)))) as u8
    }
}

/// Linear magnitude reconstructed from a seven-bit segment/mantissa code.
pub open spec fn spec_mu_law_magnitude(q: int) -> int {
    (q % 16 * 8 + 132) * spec_mu_law_scale(q / 16) - 132
}

/// G.711 mu-law decoding of one wire byte back to a 16-bit linear sample.
pub open spec fn spec_decode_mu_law(b: u8) -> i16 {
    let u = 255 - b as int;
    let mag = spec_mu_law_magnitude(u % 128);
    if u >= 128 {
        (-mag) as i16
    } else {
        mag as i16
    }
}

/// Encodes one 16-bit linear PCM sample as one mu-law wire byte.
/// Total on all of `i16`; out-of-range magnitudes cannot arise.
pub fn encode_mu_law(sample: i16) -> (b: u8)
    ensures
        b == spec_encode_mu_law(sample),
{
    let neg = sample < 0;
    let mut mag: i32 = sample as i32;
    if neg {
        mag = -mag;
    }
    if mag > MU_LAW_CLIP {
        mag = MU_LAW_CLIP;
    }
    let biased: i32 = mag + MU_LAW_BIAS;
    let (e, step): (i32, i32) = if biased < 256 {
        (0, 8)
    } else if biased < 512 {
        (1, 16)
    } else if biased < 1024 {
        (2, 32)
    } else if biased < 2048 {
        (3, 64)
    } else if biased < 4096 {
        (4, 128)
    } else if biased < 8192 {
        (5, 256)
    } else if biased < 16384 {
        (6, 512)
    } else {
        (7, 1024)
    };
    proof {
        lemma_mu_law_mantissa_range(biased as int, e as int);
    }
    let m: i32 = biased / step - 16;
    let quint: i32 = e * 16 + m;
    if neg {
        (127 - quint) as u8
    } else {
        (255 - quint) as u8
    }
}

/// The mantissa of a biased magnitude lies in `[0, 16)` within its segment.
proof fn lemma_mu_law_mantissa_range(biased: int, e: int)
    requires
        132 <= biased <= 32767,
        e == spec_mu_law_segment(biased),
    ensures
        16 <= biased / spec_mu_law_step(e) < 32,
{
    let step = spec_mu_law_step(e);
    assert(16 <= biased / step < 32) by (nonlinear_arith)
        requires
            16 * step <= biased < 32 * step,
            step > 0,
    {
    }
}

/// Within one segment, the reconstructed magnitude sits at most half a
/// quantization step away from the clamped input magnitude.
proof fn lemma_mu_law_segment_reconstruct(biased: int, e: int)
    requires
        132 <= biased <= 32767,
        e == spec_mu_law_segment(biased),
    ensures
        ({
            let d = spec_mu_law_step(e);
            let m = biased / d - 16;
            &&& 0 <= m < 16
            &&& (m * 8 + 132) * spec_mu_law_scale(e) - 132 - (biased - 132) == d / 2 - biased % d
            &&& 0 <= (m * 8 + 132) * spec_mu_law_scale(e) - 132 <= 32124
        }),
{
    let d = spec_mu_law_step(e);
    let s = spec_mu_law_scale(e);
    assert(d == 8 * s);
    assert(16 * d <= biased < 32 * d);
    lemma_mu_law_mantissa_range(biased, e);
    let q = biased / d;
    let r = biased % d;
    let m = q - 16;
    vstd::arithmetic::div_mod::lemma_fundamental_div_mod(biased, d);
    vstd::arithmetic::div_mod::lemma_mod_bound(biased, d);
    assert(biased == d * q + r && 0 <= r < d);
    assert(d / 2 == 4 * s) by (nonlinear_arith)
        requires
            d == 8 * s,
            s >= 1,
    {
    }
    assert((m * 8 + 132) * s - 132 - (biased - 132) == 4 * s - r) by (nonlinear_arith)
        requires
            d == 8 * s,
            biased == d * q + r,
            m == q - 16,
    {
    }
    assert(0 <= (m * 8 + 132) * s - 132 <= 32124) by (nonlinear_arith)
        requires
            0 <= m < 16,
            1 <= s <= 128,
    {
    }
}

/// The seven-bit code splits back into the segment and mantissa it was built
/// from.
proof fn lemma_mu_law_quint_split(e: int, m: int)
    requires
        0 <= e <= 7,
        0 <= m < 16,
    ensures
        (e * 16 + m) / 16 == e,
        (e * 16 + m) % 16 == m,
        0 <= e * 16 + m < 128,
{
    assert((e * 16 + m) / 16 == e && (e * 16 + m) % 16 == m && 0 <= e * 16 + m < 128)
        by (nonlinear_arith)
        requires
            0 <= e <= 7,
            0 <= m < 16,
    {
    }
}

/// Quantization tolerance of the codec at a given sample: half the step of the
/// sample's segment, plus whatever the clamp removed at the extremes.
pub open spec fn spec_mu_law_tolerance(x: i16) -> int {
    let mag = if x >= 0 {
        x as int
    } else {
        -(x as int)
    };
    let clipped = spec_mu_law_clip(mag);
    let e = spec_mu_law_segment(clipped + 132);
    spec_mu_law_step(e) / 2 + (mag - clipped)
}

/// Decoding an encoded sample recovers it within the codec's quantization
/// tolerance, for every 16-bit sample.
pub proof fn lemma_mu_law_round_trip(x: i16)
    ensures
        -spec_mu_law_tolerance(x) <= spec_decode_mu_law(spec_encode_mu_law(x)) - x
            <= spec_mu_law_tolerance(x),
{
    let mag = if x >= 0 {
        x as int
    } else {
        -(x as int)
    };
    let clipped = spec_mu_law_clip(mag);
    let biased = clipped + 132;
    let e = spec_mu_law_segment(biased);
    let d = spec_mu_law_step(e);
    let m = biased / d - 16;
    let q = spec_mu_law_quint(clipped);
    lemma_mu_law_segment_reconstruct(biased, e);
    lemma_mu_law_quint_split(e, m);
    assert(q == e * 16 + m);
    let recon = spec_mu_law_magnitude(q);
    assert(recon - clipped == d / 2 - biased % d);
    if x >= 0 {
        let b = spec_encode_mu_law(x);
        assert(b == (255 - q) as u8);
        assert(255 - q == b as int);
        let u = 255 - b as int;
        assert(u == q && u < 128);
        assert(u % 128 == q) by (nonlinear_arith)
            requires
                0 <= q < 128,
                u == q,
        {
        }
        assert(spec_decode_mu_law(b) == recon as i16);
    } else {
        let b = spec_encode_mu_law(x);
        assert(b == (127 - q) as u8);
        assert(127 - q == b as int);
        let u = 255 - b as int;
        assert(u == 128 + q && u >= 128);
        assert(u % 128 == q) by (nonlinear_arith)
            requires
                0 <= q < 128,
                u == 128 + q,
        {
        }
        assert(spec_decode_mu_law(b) == (-recon) as i16);
    }
}

/// Decodes one mu-law wire byte back to a 16-bit linear PCM sample.
pub fn decode_mu_law(b: u8) -> (x: i16)
    ensures
        x == spec_decode_mu_law(b),
{
    let u: i32 = 255 - (b as i32);
    let q: i32 = u % 128;
    let e: i32 = q / 16;
    let m: i32 = q % 16;
    let scale: i32 = if e == 0 {
        1
    } else if e == 1 {
        2
    } else if e == 2 {
        4
    } else if e == 3 {
        8
    } else if e == 4 {
        16
    } else if e == 5 {
        32
    } else if e == 6 {
        64
    } else {
        128
    };
    let mag: i32 = (m * 8 + 132) * scale - 132;
    if u >= 128 {
        (-mag) as i16
    } else {
        mag as i16
    }
}

/// The mu-law encoding of every sample in a buffer, in order.
pub open spec fn spec_mu_law_bytes(s: Seq<i16>) -> Seq<u8> {
    s.map_values(|x: i16| spec_encode_mu_law(x))
}

/// Every second sample of a buffer, starting with the first.
pub open spec fn spec_decimate_by_half(s: Seq<i16>) -> Seq<i16> {
    Seq::new((s.len() / 2) as nat, |i: int| s[2 * i])
}

/// The 16-bit samples held by a buffer of little-endian byte pairs.
pub open spec fn spec_pcm_le_samples(b: Seq<u8>) -> Seq<i16> {
    Seq::new((b.len() / 2) as nat, |i: int| spec_i16_from_le(b[2 * i], b[2 * i + 1]))
}

/// A 16-bit sample read from two little-endian bytes.
pub open spec fn spec_i16_from_le(lo: u8, hi: u8) -> i16 {
    (((hi as u16) << 8u16) | (lo as u16)) as i16
}

/// Reassembles 16-bit little-endian PCM bytes into samples; a trailing odd
/// byte is dropped.
pub fn pcm_le_bytes_to_samples(bytes: &Vec<u8>) -> (r: Vec<i16>)
    ensures
        r@ == spec_pcm_le_samples(bytes@),
        r@.len() == bytes@.len() / 2,
        forall|i: int|
            0 <= i < r@.len() ==> r@[i] == spec_i16_from_le(bytes@[2 * i], bytes@[2 * i + 1]),
{
    let len = bytes.len();
    let n = len / 2;
    proof {
        vstd::arithmetic::div_mod::lemma_fundamental_div_mod(bytes@.len() as int, 2);
        vstd::arithmetic::div_mod::lemma_mod_bound(bytes@.len() as int, 2);
    }
    let mut r: Vec<i16> = Vec::new();
    let mut i: usize = 0;
    while i < n
        invariant
            len == bytes@.len(),
            n == bytes@.len() / 2,
            2 * n <= len,
            0 <= i <= n,
            r@.len() == i,
            forall|j: int|
                0 <= j < i ==> r@[j] == spec_i16_from_le(bytes@[2 * j], bytes@[2 * j + 1]),
        decreases n - i,
    {
        let lo = bytes[2 * i];
        let hi = bytes[2 * i + 1];
        let v: u16 = ((hi as u16) << 8u16) | (lo as u16);
        r.push(#[verifier::truncate] (v as i16));
        i = i + 1;
    }
    proof {
        assert(r@ =~= spec_pcm_le_samples(bytes@));
    }
    r
}

/// Keeps every second sample, starting with the first: the 2:1 decimation used
/// when a synthesis backend emits 16 kHz samples and the telephony leg needs
/// 8 kHz. No anti-alias filtering is applied.
pub fn decimate_by_half(samples: &Vec<i16>) -> (r: Vec<i16>)
    ensures
        r@ == spec_decimate_by_half(samples@),
        r@.len() == samples@.len() / 2,
        forall|i: int| 0 <= i < r@.len() ==> r@[i] == samples@[2 * i],
{
    let len = samples.len();
    let n = len / 2;
    proof {
        vstd::arithmetic::div_mod::lemma_fundamental_div_mod(samples@.len() as int, 2);
        vstd::arithmetic::div_mod::lemma_mod_bound(samples@.len() as int, 2);
    }
    let mut r: Vec<i16> = Vec::new();
    let mut i: usize = 0;
    while i < n
        invariant
            len == samples@.len(),
            n == samples@.len() / 2,
            2 * n <= len,
            0 <= i <= n,
            r@.len() == i,
            forall|j: int| 0 <= j < i ==> r@[j] == samples@[2 * j],
        decreases n - i,
    {
        r.push(samples[2 * i]);
        i = i + 1;
    }
    proof {
        assert(r@ =~= spec_decimate_by_half(samples@));
    }
    r
}

/// Encodes a whole buffer of linear samples to mu-law wire bytes, in order.
pub fn encode_samples_mu_law(samples: &Vec<i16>) -> (r: Vec<u8>)
    ensures
        r@ == spec_mu_law_bytes(samples@),
        r@.len() == samples@.len(),
        forall|i: int| 0 <= i < r@.len() ==> r@[i] == spec_encode_mu_law(samples@[i]),
{
    let mut r: Vec<u8> = Vec::new();
    let mut i: usize = 0;
    while i < samples.len()
        invariant
            0 <= i <= samples@.len(),
            r@.len() == i,
            forall|j: int| 0 <= j < i ==> r@[j] == spec_encode_mu_law(samples@[j]),
        decreases samples@.len() - i,
    {
        let b = encode_mu_law(samples[i]);
        r.push(b);
        i = i + 1;
    }
    proof {
        assert(r@ =~= spec_mu_law_bytes(samples@));
    }
    r
}

} // verus!
