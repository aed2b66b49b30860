//! Audio codec in fixed point: raw capture buffers are decoded to mono
//! sample levels, resampled to 16 kHz and quantized to 16-bit PCM bytes.
//!
//! A sample level is an integer in units of 1/32768 of full scale, so the
//! nominal range [-1.0, 1.0] is [-32768, 32768].
use vstd::arithmetic::div_mod::*;
use vstd::arithmetic::power2::*;
use vstd::prelude::*;

verus! {

/// Output sample rate in Hz.
pub const OUTPUT_SAMPLE_RATE: u32 = 16000;

/// Largest magnitude a decoded float sample can have (512.0 full scale).
pub const LEVEL_LIMIT: u32 = 16777216;

/// Sample format of the bytes of a capture buffer.
#[derive(Clone, Copy, Debug, PartialEq, Eq, Structural)]
pub enum SampleFormat {
    Float32,
    Int16,
}

/// One capture buffer: interleaved samples of `number_channels` channels.
pub struct AudioBuffer {
    pub number_channels: u32,
    pub data: Vec<u8>,
}

// ---------------------------------------------------------------------
// Sample decoding
// ---------------------------------------------------------------------
/// The signed 16-bit value of two little-endian bytes.
pub open spec fn i16_le(lo: u8, hi: u8) -> int {
    let u = hi as int * 256 + lo as int;
    if u >= 32768 {
        u - 65536
    } else {
        u
    }
}

/// The 32-bit word of four little-endian bytes.
pub open spec fn u32_le(b0: u8, b1: u8, b2: u8, b3: u8) -> int {
    b0 as int + 256 * (b1 as int + 256 * (b2 as int + 256 * b3 as int))
}

/// The level of an IEEE 754 single given by its bits: value * 32768,
/// truncated toward zero and saturated at `LEVEL_LIMIT`; NaN is silence.
pub open spec fn f32_level(bits: int) -> int {
    if bits >= 0x8000_0000 {
        -f32_magnitude(bits)
    } else {
        f32_magnitude(bits)
    }
}

/// The magnitude part of `f32_level`.
pub open spec fn f32_magnitude(bits: int) -> int {
    let e = (bits / 0x80_0000) % 256;
    let m = bits % 0x80_0000;
    let mag: int = if e == 255 {
        if m == 0 {
            LEVEL_LIMIT as int
        } else {
            0
        }
    } else {
        let sig = if e == 0 {
            m
        } else {
            m + 0x80_0000
        };
        let ee = if e == 0 {
            1
        } else {
            e
        };
        if ee >= 135 {
            let scaled = sig * pow2((ee - 135) as nat);
            if scaled < LEVEL_LIMIT {
                scaled
            } else {
                LEVEL_LIMIT as int
            }
        } else {
            sig / pow2((135 - ee) as nat) as int
        }
    };
    mag
}

/// The level of sample `i` of `bytes` in the given format.
pub open spec fn sample_level(bytes: Seq<u8>, format: SampleFormat, i: int) -> int {
    match format {
        SampleFormat::Int16 => i16_le(bytes[2 * i], bytes[2 * i + 1]),
        SampleFormat::Float32 => f32_level(
            u32_le(bytes[4 * i], bytes[4 * i + 1], bytes[4 * i + 2], bytes[4 * i + 3]),
        ),
    }
}

pub open spec fn sample_width(format: SampleFormat) -> nat {
    match format {
        SampleFormat::Int16 => 2,
        SampleFormat::Float32 => 4,
    }
}

/// The levels of all whole samples in `bytes`; a trailing partial sample is ignored.
pub open spec fn sample_levels(bytes: Seq<u8>, format: SampleFormat) -> Seq<int> {
    Seq::new(bytes.len() / sample_width(format), |i: int| sample_level(bytes, format, i))
}

/// Sum of a sequence of integers.
pub open spec fn sum(s: Seq<int>) -> int
    decreases s.len(),
{
    if s.len() == 0 {
        0
    } else {
        sum(s.drop_last()) + s.last()
    }
}

/// Mean of each whole frame of `channels` interleaved samples, rounded down;
/// a trailing partial frame is ignored.
pub open spec fn frame_means(samples: Seq<int>, channels: nat) -> Seq<int> {
    Seq::new(
        samples.len() / channels,
        |f: int| sum(samples.subrange(f * channels, f * channels + channels)) / (channels as int),
    )
}

/// The mono levels of one buffer; a channel count of zero counts as one.
pub open spec fn buffer_mono(buffer: AudioBuffer, format: SampleFormat) -> Seq<int> {
    let channels: nat = if buffer.number_channels == 0 {
        1
    } else {
        buffer.number_channels as nat
    };
    frame_means(sample_levels(buffer.data@, format), channels)
}

fn pow2_of(k: u32) -> (p: u32)
    requires
        k < 32,
    ensures
        p == pow2(k as nat),
{
    let mut p: u32 = 1;
    let mut i: u32 = 0;
    proof {
        lemma2_to64();
    }
    while i < k
        invariant
            i <= k < 32,
            p == pow2(i as nat),
        decreases k - i,
    {
        proof {
            lemma2_to64();
            lemma_pow2_unfold((i + 1) as nat);
            lemma_pow2_strictly_increases((i + 1) as nat, 32);
        }
        p = p * 2;
        i = i + 1;
    }
    p
}

fn f32_level_of(bits: u32) -> (r: i32)
    ensures
        r == f32_level(bits as int),
        -(LEVEL_LIMIT as int) <= r <= LEVEL_LIMIT,
{
    let neg = bits >= 0x8000_0000;
    let e = (bits / 0x80_0000) % 256;
    let m = bits % 0x80_0000;
    assert(e as int == (bits as int / 0x80_0000) % 256);
    assert(m as int == bits as int % 0x80_0000);
    let mag: u32 = if e == 255 {
        if m == 0 {
            LEVEL_LIMIT
        } else {
            0
        }
    } else {
        let sig = if e == 0 {
            m
        } else {
            m + 0x80_0000
        };
        let ee = if e == 0 {
            1
        } else {
            e
        };
        proof {
            lemma2_to64();
        }
        if ee >= 135 {
            let shift = ee - 135;
            if shift == 0 {
                assert(sig as int * pow2(0) == sig);
                assert(sig < LEVEL_LIMIT);
                sig
            } else if shift == 1 {
                assert(sig as int * pow2(1) == sig * 2);
                if sig * 2 < LEVEL_LIMIT {
                    sig * 2
                } else {
                    LEVEL_LIMIT
                }
            } else {
                proof {
                    if shift > 2 {
                        lemma_pow2_strictly_increases(2, shift as nat);
                    }
                    let p = pow2(shift as nat);
                    assert(sig as int * p >= 0x80_0000 * 4) by (nonlinear_arith)
                        requires
                            sig >= 0x80_0000,
                            p >= 4,
                    ;
                }
                LEVEL_LIMIT
            }
        } else {
            let shift = 135 - ee;
            if shift >= 25 {
                proof {
                    if shift > 25 {
                        lemma_pow2_strictly_increases(25, shift as nat);
                    }
                    let p = pow2(shift as nat);
                    assert(sig as int / p as int == 0) by (nonlinear_arith)
                        requires
                            0 <= sig < p,
                    ;
                }
                0
            } else {
                let p = pow2_of(shift);
                proof {
                    lemma_pow2_pos(shift as nat);
                    assert(sig as int / p as int <= sig) by (nonlinear_arith)
                        requires
                            0 <= sig,
                            p >= 1,
                    ;
                }
                sig / p
            }
        }
    };
    assert(mag == f32_magnitude(bits as int));
    if neg {
        -(mag as i32)
    } else {
        mag as i32
    }
}

fn sample_level_at(bytes: &Vec<u8>, format: SampleFormat, i: usize) -> (r: i32)
    requires
        i < bytes@.len() / sample_width(format),
    ensures
        r == sample_level(bytes@, format, i as int),
        -(LEVEL_LIMIT as int) <= r <= LEVEL_LIMIT,
{
    let n = bytes.len();
    match format {
        SampleFormat::Int16 => {
            assert(2 * i + 1 < bytes@.len()) by (nonlinear_arith)
                requires
                    i < bytes@.len() / 2,
            ;
            let lo = bytes[2 * i];
            let hi = bytes[2 * i + 1];
            let u: i32 = hi as i32 * 256 + lo as i32;
            if u >= 32768 {
                u - 65536
            } else {
                u
            }
        },
        SampleFormat::Float32 => {
            assert(4 * i + 3 < bytes@.len()) by (nonlinear_arith)
                requires
                    i < bytes@.len() / 4,
            ;
            let b0 = bytes[4 * i] as u32;
            let b1 = bytes[4 * i + 1] as u32;
            let b2 = bytes[4 * i + 2] as u32;
            let b3 = bytes[4 * i + 3] as u32;
            f32_level_of(b0 + 256 * (b1 + 256 * (b2 + 256 * b3)))
        },
    }
}


/// The integers held by a vector of levels.
pub open spec fn ints(v: Seq<i32>) -> Seq<int> {
    v.map_values(|x: i32| x as int)
}

/// Bounds on a quotient from bounds on the dividend.
pub proof fn lemma_div_bounds(x: int, n: int, lo: int, hi: int)
    requires
        n > 0,
        n * lo <= x <= n * hi,
    ensures
        lo <= x / n <= hi,
{
    lemma_div_is_ordered(n * lo, x, n);
    lemma_div_is_ordered(x, n * hi, n);
    lemma_div_multiples_vanish_fancy(lo, 0, n);
    lemma_div_multiples_vanish_fancy(hi, 0, n);
}

/// A quotient stays below `hi + 1` when the dividend does below `n * (hi + 1)`.
pub proof fn lemma_div_below(x: int, n: int, hi: int)
    requires
        n > 0,
        0 <= x < n * (hi + 1),
    ensures
        0 <= x / n <= hi,
{
    lemma_fundamental_div_mod(x, n);
    let q = x / n;
    let r = x % n;
    assert(q <= hi) by (nonlinear_arith)
        requires
            x == n * q + r,
            0 <= r,
            x < n * (hi + 1),
            n > 0,
    ;
    assert(0 <= x / n) by (nonlinear_arith)
        requires
            x == n * q + r,
            r < n,
            x >= 0,
            n > 0,
    ;
}

/// `x / d` rounded down, for any sign of `x`.
fn floor_div(x: i128, d: u64) -> (r: i128)
    requires
        d > 0,
        -0x1_0000_0000_0000_0000_0000_0000 <= x <= 0x1_0000_0000_0000_0000_0000_0000,
    ensures
        r == x as int / d as int,
{
    if x >= 0 {
        ((x as u128) / (d as u128)) as i128
    } else {
        let y = (-x) as u128;
        let q = (y + (d as u128) - 1) / (d as u128);
        proof {
            let dd = d as int;
            let yy = y as int + dd - 1;
            lemma_fundamental_div_mod(yy, dd);
            let rr = yy % dd;
            assert(0 <= rr < dd);
            assert(x as int == dd * (-(q as int)) + (dd - 1 - rr)) by (nonlinear_arith)
                requires
                    yy == dd * (q as int) + rr,
                    yy == -(x as int) + dd - 1,
            ;
            lemma_div_multiples_vanish_fancy(-(q as int), dd - 1 - rr, dd);
        }
        -(q as i128)
    }
}

/// Mono levels of one buffer: the mean of each frame of `channel_count`
/// interleaved samples.
pub fn decode_mono(bytes: &Vec<u8>, format: SampleFormat, channel_count: u32) -> (r: Vec<i32>)
    requires
        channel_count >= 1,
    ensures
        ints(r@) == frame_means(sample_levels(bytes@, format), channel_count as nat),
        forall|i: int| 0 <= i < r@.len() ==> -(LEVEL_LIMIT as int) <= #[trigger] r@[i] <= LEVEL_LIMIT,
{
    let width: usize = match format {
        SampleFormat::Int16 => 2,
        SampleFormat::Float32 => 4,
    };
    let c = channel_count as usize;
    let n_samples = bytes.len() / width;
    let n_frames = n_samples / c;
    let ghost levels = sample_levels(bytes@, format);
    let ghost target = frame_means(levels, c as nat);
    let mut out: Vec<i32> = Vec::new();
    let mut f: usize = 0;
    while f < n_frames
        invariant
            width == sample_width(format),
            n_samples == bytes@.len() / sample_width(format),
            n_frames == n_samples / c,
            c == channel_count,
            c >= 1,
            levels == sample_levels(bytes@, format),
            target == frame_means(levels, c as nat),
            f <= n_frames,
            ints(out@) == target.subrange(0, f as int),
            forall|i: int| 0 <= i < out@.len() ==> -(LEVEL_LIMIT as int) <= #[trigger] out@[i] <= LEVEL_LIMIT,
        decreases n_frames - f,
    {
        assert(f * c + c <= n_samples) by (nonlinear_arith)
            requires
                f < n_frames,
                n_frames == n_samples / c,
                c >= 1,
        ;
        let base = f * c;
        let mut acc: i128 = 0;
        let mut k: usize = 0;
        while k < c
            invariant
                width == sample_width(format),
                n_samples == bytes@.len() / sample_width(format),
                levels == sample_levels(bytes@, format),
                base + c <= n_samples,
                k <= c,
                c <= 0xffff_ffff,
                acc == sum(levels.subrange(base as int, base + k)),
                -(k as int) * LEVEL_LIMIT <= acc <= (k as int) * LEVEL_LIMIT,
            decreases c - k,
        {
            let v = sample_level_at(bytes, format, base + k);
            proof {
                assert(levels.subrange(base as int, base + k + 1).drop_last()
                    =~= levels.subrange(base as int, base + k));
            }
            acc = acc + v as i128;
            k = k + 1;
        }
        let mean = floor_div(acc, c as u64);
        proof {
            lemma_div_bounds(acc as int, c as int, -(LEVEL_LIMIT as int), LEVEL_LIMIT as int);
            assert(levels.len() == n_samples);
            assert(target.len() == n_frames);
            assert(target[f as int] == mean);
        }
        let ghost prev = out@;
        out.push(mean as i32);
        proof {
            assert(ints(prev).len() == prev.len());
            assert(prev.len() == f);
            assert forall|i: int| 0 <= i < f implies ints(out@)[i] == target[i] by {
                assert(out@[i] == prev[i]);
                assert(ints(prev)[i] == target.subrange(0, f as int)[i]);
            }
            assert(ints(out@) =~= target.subrange(0, f + 1));
        }
        f = f + 1;
    }
    proof {
        assert(ints(out@) =~= target);
    }
    out
}


/// The mono levels of every buffer, in order.
pub open spec fn buffer_monos(buffers: Seq<AudioBuffer>, format: SampleFormat) -> Seq<Seq<int>> {
    Seq::new(buffers.len(), |b: int| buffer_mono(buffers[b], format))
}

/// The length of the shortest sequence (0 for none).
pub open spec fn shortest(ds: Seq<Seq<int>>) -> nat
    decreases ds.len(),
{
    if ds.len() == 0 {
        0
    } else if ds.len() == 1 {
        ds[0].len()
    } else {
        let m = shortest(ds.drop_last());
        if ds.last().len() < m {
            ds.last().len()
        } else {
            m
        }
    }
}

/// Sum of element `j` over all sequences.
pub open spec fn column_sum(ds: Seq<Seq<int>>, j: int) -> int
    decreases ds.len(),
{
    if ds.len() == 0 {
        0
    } else {
        column_sum(ds.drop_last(), j) + ds.last()[j]
    }
}

/// Elementwise mean (rounded down) of the sequences, over the length of the shortest.
pub open spec fn elementwise_mean(ds: Seq<Seq<int>>) -> Seq<int> {
    Seq::new(shortest(ds), |j: int| column_sum(ds, j) / (ds.len() as int))
}

/// Mixing a single mono sequence gives that sequence back unchanged.
pub proof fn lemma_mix_of_one_is_identity(d: Seq<int>)
    ensures
        elementwise_mean(seq![d]) == d,
{
    let ds = seq![d];
    assert(ds.drop_last() =~= Seq::<Seq<int>>::empty());
    assert forall|j: int| 0 <= j < d.len() implies #[trigger] elementwise_mean(ds)[j] == d[j] by {
        assert(column_sum(ds, j) == column_sum(ds.drop_last(), j) + d[j]);
    }
    assert(elementwise_mean(ds) =~= d);
}

/// The mono mixdown of a frame's buffers.
pub open spec fn mono_mix(buffers: Seq<AudioBuffer>, format: SampleFormat) -> Seq<int> {
    elementwise_mean(buffer_monos(buffers, format))
}

/// Mixes a frame's buffers down to one mono sequence of levels.
///
/// Each buffer is decoded to mono, and all of them are averaged element by
/// element over the length of the shortest one, so a buffer that decodes
/// to nothing empties the result. No buffers give an empty sequence, one
/// buffer its own mono levels.
pub fn mix_to_mono(buffers: &Vec<AudioBuffer>, format: SampleFormat) -> (r: Vec<i32>)
    ensures
        ints(r@) == mono_mix(buffers@, format),
        forall|i: int| 0 <= i < r@.len() ==> -(LEVEL_LIMIT as int) <= #[trigger] r@[i] <= LEVEL_LIMIT,
{
    let mut per_buffer: Vec<Vec<i32>> = Vec::new();
    let mut b: usize = 0;
    while b < buffers.len()
        invariant
            b <= buffers@.len(),
            per_buffer@.len() == b,
            forall|k: int| 0 <= k < b ==> #[trigger] ints(per_buffer@[k]@) == buffer_mono(buffers@[k], format),
            forall|k: int, j: int|
                0 <= k < per_buffer@.len() && 0 <= j < per_buffer@[k]@.len() ==> -(LEVEL_LIMIT as int)
                    <= #[trigger] per_buffer@[k]@[j] <= LEVEL_LIMIT,
        decreases buffers@.len() - b,
    {
        let buffer = &buffers[b];
        let channels: u32 = if buffer.number_channels == 0 {
            1
        } else {
            buffer.number_channels
        };
        let decoded = decode_mono(&buffer.data, format, channels);
        per_buffer.push(decoded);
        b = b + 1;
    }
    let ghost ds = buffer_monos(buffers@, format);
    proof {
        assert forall|k: int| 0 <= k < ds.len() implies #[trigger] ds[k] == ints(per_buffer@[k]@) by {
            assert(ints(per_buffer@[k]@) == buffer_mono(buffers@[k], format));
        }
    }
    let nb = per_buffer.len();
    if nb == 0 {
        let empty: Vec<i32> = Vec::new();
        proof {
            assert(ints(empty@) =~= mono_mix(buffers@, format));
        }
        return empty;
    }
    let mut min_len = per_buffer[0].len();
    let mut k: usize = 1;
    proof {
        assert(ds.subrange(0, 1).len() == 1);
    }
    while k < nb
        invariant
            1 <= k <= nb,
            nb == per_buffer@.len(),
            ds.len() == nb,
            forall|q: int| 0 <= q < ds.len() ==> #[trigger] ds[q] == ints(per_buffer@[q]@),
            min_len == shortest(ds.subrange(0, k as int)),
            forall|q: int| 0 <= q < k ==> min_len <= (#[trigger] per_buffer@[q]@).len(),
        decreases nb - k,
    {
        let len = per_buffer[k].len();
        proof {
            assert(ds.subrange(0, k + 1).drop_last() =~= ds.subrange(0, k as int));
            assert(ints(per_buffer@[k as int]@).len() == len);
        }
        if len < min_len {
            min_len = len;
        }
        k = k + 1;
    }
    proof {
        assert(ds.subrange(0, nb as int) =~= ds);
    }
    let mut mixed: Vec<i32> = Vec::new();
    let mut j: usize = 0;
    while j < min_len
        invariant
            j <= min_len,
            nb == per_buffer@.len(),
            nb >= 1,
            ds.len() == nb,
            forall|q: int| 0 <= q < ds.len() ==> #[trigger] ds[q] == ints(per_buffer@[q]@),
            min_len == shortest(ds),
            forall|q: int| 0 <= q < nb ==> min_len <= (#[trigger] per_buffer@[q]@).len(),
            forall|q: int, i: int|
                0 <= q < per_buffer@.len() && 0 <= i < per_buffer@[q]@.len() ==> -(LEVEL_LIMIT as int)
                    <= #[trigger] per_buffer@[q]@[i] <= LEVEL_LIMIT,
            ints(mixed@) == elementwise_mean(ds).subrange(0, j as int),
            forall|i: int| 0 <= i < mixed@.len() ==> -(LEVEL_LIMIT as int) <= #[trigger] mixed@[i] <= LEVEL_LIMIT,
        decreases min_len - j,
    {
        let mut acc: i128 = 0;
        let mut q: usize = 0;
        while q < nb
            invariant
                q <= nb,
                j < min_len,
                nb == per_buffer@.len(),
                ds.len() == nb,
                forall|q: int| 0 <= q < ds.len() ==> #[trigger] ds[q] == ints(per_buffer@[q]@),
                forall|q: int| 0 <= q < nb ==> min_len <= (#[trigger] per_buffer@[q]@).len(),
                forall|q: int, i: int|
                    0 <= q < per_buffer@.len() && 0 <= i < per_buffer@[q]@.len() ==> -(LEVEL_LIMIT as int)
                        <= #[trigger] per_buffer@[q]@[i] <= LEVEL_LIMIT,
                acc == column_sum(ds.subrange(0, q as int), j as int),
                -(q as int) * LEVEL_LIMIT <= acc <= (q as int) * LEVEL_LIMIT,
            decreases nb - q,
        {
            let v = per_buffer[q][j];
            proof {
                assert(ds.subrange(0, q + 1).drop_last() =~= ds.subrange(0, q as int));
                assert(ds[q as int][j as int] == v);
            }
            acc = acc + v as i128;
            q = q + 1;
        }
        proof {
            assert(ds.subrange(0, nb as int) =~= ds);
            lemma_div_bounds(acc as int, nb as int, -(LEVEL_LIMIT as int), LEVEL_LIMIT as int);
        }
        let mean = floor_div(acc, nb as u64);
        let ghost prev = mixed@;
        mixed.push(mean as i32);
        proof {
            assert(ints(prev).len() == prev.len());
            assert forall|i: int| 0 <= i < j implies ints(mixed@)[i] == elementwise_mean(ds)[i] by {
                assert(mixed@[i] == prev[i]);
                assert(ints(prev)[i] == elementwise_mean(ds).subrange(0, j as int)[i]);
            }
            assert(ints(mixed@) =~= elementwise_mean(ds).subrange(0, j + 1));
        }
        j = j + 1;
    }
    proof {
        assert(ints(mixed@) =~= elementwise_mean(ds));
    }
    mixed
}


/// Number of output samples for `n` input samples at `rate` Hz:
/// floor(n * 16000 / rate).
pub open spec fn resampled_len(n: nat, rate: nat) -> nat {
    if rate == 0 {
        0
    } else {
        (n * OUTPUT_SAMPLE_RATE as nat) / rate
    }
}

/// Output sample `i` of resampling `s` from `rate` Hz: the linear
/// interpolation, rounded down, between input samples floor(p) and
/// min(floor(p) + 1, len - 1) at position p = i * rate / 16000.
pub open spec fn interpolated(s: Seq<int>, rate: nat, i: int) -> int {
    let out = OUTPUT_SAMPLE_RATE as int;
    let pos = i * rate;
    let base = pos / out;
    let frac = pos % out;
    let next = if base + 1 < s.len() {
        base + 1
    } else {
        s.len() - 1
    };
    (s[base] * (out - frac) + s[next] * frac) / out
}

/// An interpolated sample lies between the two input samples it is drawn from.
pub proof fn lemma_interpolated_between(s: Seq<int>, rate: nat, i: int)
    requires
        s.len() > 0,
        rate > 0,
        0 <= i,
        i * rate < s.len() * OUTPUT_SAMPLE_RATE,
    ensures
        ({
            let base = (i * rate) / 16000;
            let next = if base + 1 < s.len() {
                base + 1
            } else {
                s.len() - 1
            };
            let lo = if s[base] < s[next] {
                s[base]
            } else {
                s[next]
            };
            let hi = if s[base] < s[next] {
                s[next]
            } else {
                s[base]
            };
            lo <= interpolated(s, rate, i) <= hi
        }),
{
    let pos = i * rate;
    let base = pos / 16000;
    let frac = pos % 16000;
    let next = if base + 1 < s.len() {
        base + 1
    } else {
        s.len() - 1
    };
    let a = s[base];
    let c = s[next];
    let lo = if a < c {
        a
    } else {
        c
    };
    let hi = if a < c {
        c
    } else {
        a
    };
    let num = a * (16000 - frac) + c * frac;
    assert(16000 * lo <= num <= 16000 * hi) by (nonlinear_arith)
        requires
            0 <= frac < 16000,
            lo <= a <= hi,
            lo <= c <= hi,
            num == a * (16000 - frac) + c * frac,
    ;
    lemma_div_bounds(num, 16000, lo, hi);
}

/// The resampling of `s` from `rate` Hz to 16 kHz.
pub open spec fn resampled(s: Seq<int>, rate: nat) -> Seq<int> {
    if s.len() == 0 || rate == 0 {
        Seq::empty()
    } else if rate == OUTPUT_SAMPLE_RATE {
        s
    } else {
        Seq::new(resampled_len(s.len(), rate), |i: int| interpolated(s, rate, i))
    }
}

/// Resamples mono levels from `source_rate` Hz to 16 kHz by linear interpolation.
///
/// At 16 kHz the input comes back unchanged; otherwise the output holds
/// floor(len * 16000 / source_rate) samples. An empty input or a zero rate
/// gives an empty output.
pub fn resample_to_output_rate(input: &Vec<i32>, source_rate: u32) -> (r: Vec<i32>)
    requires
        input@.len() * OUTPUT_SAMPLE_RATE as nat <= usize::MAX,
    ensures
        ints(r@) == resampled(ints(input@), source_rate as nat),
        source_rate == OUTPUT_SAMPLE_RATE ==> r@ == input@,
        input@.len() > 0 && source_rate > 0 && source_rate != OUTPUT_SAMPLE_RATE ==> r@.len()
            == input@.len() * OUTPUT_SAMPLE_RATE as nat / source_rate as nat,
{
    let ghost s = ints(input@);
    let n = input.len();
    if n == 0 || source_rate == 0 {
        let empty: Vec<i32> = Vec::new();
        proof {
            assert(ints(empty@) =~= resampled(s, source_rate as nat));
        }
        return empty;
    }
    if source_rate == OUTPUT_SAMPLE_RATE {
        let copy = input.clone();
        return copy;
    }
    let rate = source_rate as u128;
    let out_rate = OUTPUT_SAMPLE_RATE as u128;
    let out_len = ((n as u128) * out_rate / rate) as usize;
    proof {
        assert(n as int * 16000 <= source_rate * (n as int * 16000)) by (nonlinear_arith)
            requires
                n >= 0,
                source_rate >= 1,
        ;
        lemma_div_bounds(n as int * 16000, source_rate as int, 0, n as int * 16000);
    }
    let mut out: Vec<i32> = Vec::new();
    let mut i: usize = 0;
    while i < out_len
        invariant
            n == input@.len(),
            n > 0,
            s == ints(input@),
            rate == source_rate,
            source_rate > 0,
            source_rate != OUTPUT_SAMPLE_RATE,
            out_rate == OUTPUT_SAMPLE_RATE,
            out_len == resampled_len(n as nat, source_rate as nat),
            i <= out_len,
            ints(out@) == Seq::new(out_len as nat, |k: int| interpolated(s, source_rate as nat, k)).subrange(0, i as int),
        decreases out_len - i,
    {
        proof {
            assert(i as int * rate < 0x1_0000_0000_0000_0000_0000_0000) by (nonlinear_arith)
                requires
                    i <= usize::MAX,
                    rate <= u32::MAX,
            ;
        }
        let pos = (i as u128) * rate;
        let base_wide = pos / out_rate;
        let frac = pos % out_rate;
        proof {
            assert(pos < n as int * 16000) by (nonlinear_arith)
                requires
                    i < out_len,
                    out_len == (n * 16000) / (source_rate as int),
                    pos == i * source_rate,
                    source_rate > 0,
            {
                lemma_fundamental_div_mod(n * 16000, source_rate as int);
            }
            lemma_fundamental_div_mod(pos as int, 16000);
            assert(base_wide < n) by (nonlinear_arith)
                requires
                    pos == 16000 * base_wide + frac,
                    frac >= 0,
                    pos < n * 16000,
            ;
        }
        let base = base_wide as usize;
        let next = if base + 1 < n {
            base + 1
        } else {
            n - 1
        };
        let a = input[base] as i128;
        let c = input[next] as i128;
        let f = frac as i128;
        proof {
            assert(-0x8000_0000 * 16000 <= a * (16000 - f) <= 0x7fff_ffff * 16000) by (nonlinear_arith)
                requires
                    -0x8000_0000 <= a <= 0x7fff_ffff,
                    0 <= f < 16000,
            ;
            assert(-0x8000_0000 * 16000 <= c * f <= 0x7fff_ffff * 16000) by (nonlinear_arith)
                requires
                    -0x8000_0000 <= c <= 0x7fff_ffff,
                    0 <= f < 16000,
            ;
        }
        let num = a * (16000 - f) + c * f;
        proof {
            assert(-0x8000_0000 * 16000 <= num <= 0x7fff_ffff * 16000) by (nonlinear_arith)
                requires
                    -0x8000_0000 <= a <= 0x7fff_ffff,
                    -0x8000_0000 <= c <= 0x7fff_ffff,
                    0 <= f < 16000,
                    num == a * (16000 - f) + c * f,
            ;
            lemma_div_bounds(num as int, 16000, -0x8000_0000, 0x7fff_ffff);
        }
        let value = floor_div(num, 16000);
        let ghost prev = out@;
        out.push(value as i32);
        proof {
            assert(value == interpolated(s, source_rate as nat, i as int));
            assert(ints(prev).len() == prev.len());
            assert forall|k: int| 0 <= k < i implies ints(out@)[k] == interpolated(s, source_rate as nat, k) by {
                assert(out@[k] == prev[k]);
                assert(ints(prev)[k] == Seq::new(out_len as nat, |k: int| interpolated(s, source_rate as nat, k)).subrange(0, i as int)[k]);
            }
            assert(ints(out@) =~= Seq::new(out_len as nat, |k: int| interpolated(s, source_rate as nat, k)).subrange(0, i + 1));
        }
        i = i + 1;
    }
    proof {
        assert(ints(out@) =~= resampled(s, source_rate as nat));
        assert(ints(out@).len() == out@.len());
    }
    out
}


/// Output gain 1.25 applied to a level, clamped to full scale, in units of
/// 1/131072 (a quarter of a level).
pub open spec fn amplified(v: int) -> int {
    let a = 5 * v;
    if a < -131072 {
        -131072
    } else if a > 131072 {
        131072
    } else {
        a
    }
}

/// The 16-bit PCM value of a level: the amplified, clamped level scaled to
/// 32768 (so that PCM / 32768 reads back as the amplified sample), rounded to
/// nearest with halves away from zero, and clamped to [-32768, 32767].
pub open spec fn pcm_of(v: int) -> int {
    let x = amplified(v);
    let rounded = if x >= 0 {
        (x + 2) / 4
    } else {
        -((-x + 2) / 4)
    };
    if rounded > 32767 {
        32767
    } else {
        rounded
    }
}

/// PCM value of one level.
fn pcm_value(v: i32) -> (r: i16)
    ensures
        r == pcm_of(v as int),
{
    let x: i64 = if (v as i64) * 5 < -131072 {
        -131072
    } else if (v as i64) * 5 > 131072 {
        131072
    } else {
        (v as i64) * 5
    };
    if x >= 0 {
        let q = (x + 2) / 4;
        if q > 32767 {
            32767
        } else {
            q as i16
        }
    } else {
        proof {
            lemma_div_below(-x + 2, 4, 32768);
        }
        -(((-x + 2) / 4) as i32) as i16
    }
}

/// Quantization of a level: the PCM value lies in the 16-bit range; where
/// the amplified level is not clamped, PCM / 32768 is within 1/32768 of
/// 1.25 times the level (|4 * pcm - 5 * v| <= 4 in units of 1/131072); and
/// the two bytes written for it read back as the same value.
pub proof fn lemma_quantize_bounds(v: int)
    ensures
        -32768 <= pcm_of(v) <= 32767,
        -131072 <= 5 * v <= 131072 ==> -4 <= 4 * pcm_of(v) - 5 * v <= 4,
        i16_le(((pcm_of(v) + 65536) % 256) as u8, (((pcm_of(v) + 65536) % 65536) / 256) as u8)
            == pcm_of(v),
{
    let x = amplified(v);
    if x >= 0 {
        lemma_div_below(x + 2, 4, 32768);
        lemma_fundamental_div_mod(x + 2, 4);
    } else {
        lemma_div_below(-x + 2, 4, 32768);
        lemma_fundamental_div_mod(-x + 2, 4);
    }
}

/// Quantization keeps the order of levels.
pub proof fn lemma_quantize_monotone(v1: int, v2: int)
    requires
        v1 <= v2,
    ensures
        pcm_of(v1) <= pcm_of(v2),
{
    let x1 = amplified(v1);
    let x2 = amplified(v2);
    assert(x1 <= x2);
    if x1 >= 0 {
        lemma_div_is_ordered(x1 + 2, x2 + 2, 4);
    } else if x2 < 0 {
        lemma_div_is_ordered(-x2 + 2, -x1 + 2, 4);
    } else {
        lemma_div_below(-x1 + 2, 4, 32768);
        lemma_div_below(x2 + 2, 4, 32768);
    }
}

/// Little-endian 16-bit PCM bytes of levels: two bytes per level, holding
/// `pcm_of` of it.
pub fn levels_to_pcm_bytes(input: &Vec<i32>) -> (r: Vec<u8>)
    requires
        input@.len() * 2 <= usize::MAX,
    ensures
        r@.len() == 2 * input@.len(),
        forall|i: int|
            0 <= i < input@.len() ==> i16_le(r@[2 * i], r@[2 * i + 1]) == pcm_of(
                #[trigger] input@[i] as int,
            ),
{
    let mut bytes: Vec<u8> = Vec::new();
    let mut i: usize = 0;
    while i < input.len()
        invariant
            i <= input@.len(),
            input@.len() * 2 <= usize::MAX,
            bytes@.len() == 2 * i,
            forall|k: int|
                0 <= k < i ==> i16_le(bytes@[2 * k], bytes@[2 * k + 1]) == pcm_of(
                    #[trigger] input@[k] as int,
                ),
        decreases input@.len() - i,
    {
        let p = pcm_value(input[i]);
        let u: u16 = if p >= 0 {
            p as u16
        } else {
            (p as i32 + 65536) as u16
        };
        let lo = (u % 256) as u8;
        let hi = (u / 256) as u8;
        proof {
            lemma_quantize_bounds(input@[i as int] as int);
        }
        let ghost prev = bytes@;
        bytes.push(lo);
        bytes.push(hi);
        proof {
            assert forall|k: int| 0 <= k < i + 1 implies i16_le(bytes@[2 * k], bytes@[2 * k + 1]) == pcm_of(
                #[trigger] input@[k] as int,
            ) by {
                if k < i {
                    assert(bytes@[2 * k] == prev[2 * k]);
                    assert(bytes@[2 * k + 1] == prev[2 * k + 1]);
                }
            }
        }
        i = i + 1;
    }
    bytes
}


/// The resampled mono levels of one delivered frame.
pub open spec fn frame_levels(buffers: Seq<AudioBuffer>, format: SampleFormat, source_rate: nat) -> Seq<int> {
    resampled(mono_mix(buffers, format), source_rate)
}

/// Transcodes one delivered frame to 16 kHz mono 16-bit PCM bytes: mix to
/// mono, resample from `source_rate` Hz, quantize. An empty result means
/// there is nothing to emit for this frame.
pub fn encode_frame(buffers: &Vec<AudioBuffer>, format: SampleFormat, source_rate: u32) -> (r: Vec<u8>)
    ensures
        mono_mix(buffers@, format).len() * 32000 <= usize::MAX ==> {
            let levels = frame_levels(buffers@, format, source_rate as nat);
            &&& r@.len() == 2 * levels.len()
            &&& forall|i: int|
                0 <= i < levels.len() ==> i16_le(r@[2 * i], r@[2 * i + 1]) == pcm_of(
                    #[trigger] levels[i],
                )
        },
        mono_mix(buffers@, format).len() * 32000 > usize::MAX ==> r@.len() == 0,
{
    let mono = mix_to_mono(buffers, format);
    proof {
        assert(ints(mono@).len() == mono@.len());
    }
    if mono.len() > usize::MAX / 32000 {
        return Vec::new();
    }
    let resampled_levels = resample_to_output_rate(&mono, source_rate);
    proof {
        let n = mono@.len() as int;
        assert(ints(resampled_levels@).len() == resampled_levels@.len());
        if source_rate != 0 && source_rate != OUTPUT_SAMPLE_RATE {
            assert(n * 16000 <= source_rate * (n * 16000)) by (nonlinear_arith)
                requires
                    n >= 0,
                    source_rate >= 1,
            ;
            lemma_div_bounds(n * 16000, source_rate as int, 0, n * 16000);
        }
    }
    let bytes = levels_to_pcm_bytes(&resampled_levels);
    proof {
        let levels = frame_levels(buffers@, format, source_rate as nat);
        assert forall|i: int| 0 <= i < levels.len() implies i16_le(bytes@[2 * i], bytes@[2 * i + 1])
            == pcm_of(#[trigger] levels[i]) by {
            assert(levels[i] == ints(resampled_levels@)[i]);
        }
    }
    bytes
}

} // verus!
