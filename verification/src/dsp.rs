//! The integer side of the signal path: reflection padding for the STFT,
//! frame counts, how a track is cut into overlapping chunks, the sample
//! ranges behind the waveform overview, and durations.
use vstd::prelude::*;

verus! {

/// The sample rate everything is resampled to.
pub const TARGET_RATE: u32 = 44_100;

/// Bits per sample of the written stems.
pub const WAV_BITS: u16 = 32;

/// The sample `d` steps after the first one when the signal is mirrored at
/// both ends without repeating the edge samples (a triangle wave of period
/// `2 * (len - 1)`): `d` itself while `d < len`.
pub open spec fn mirror(d: nat, len: nat) -> nat {
    if len <= 1 {
        0
    } else {
        let p = (2 * (len - 1)) as nat;
        let r = d % p;
        if r < len {
            r
        } else {
            (p - r) as nat
        }
    }
}

/// The source index of the padding sample `i + 1` places before the first
/// sample (`front`) or after the last one.
pub open spec fn reflect(i: nat, len: nat, front: bool) -> int {
    if front {
        mirror(i + 1, len) as int
    } else {
        len - 1 - mirror(i + 1, len)
    }
}

/// The source index of the padding sample `i + 1` places before (`front`) or
/// after a signal of `len` samples.
pub fn reflect_index(i: usize, len: usize, front: bool) -> (r: usize)
    requires
        len >= 1,
    ensures
        r as int == reflect(i as nat, len as nat, front),
        r < len,
{
    if len == 1 {
        return 0;
    }
    let p: u128 = 2 * ((len - 1) as u128);
    let d: u128 = (i as u128) + 1;
    let r: u128 = d % p;
    assert(r < p) by (nonlinear_arith)
        requires
            r == d % p,
            p > 0,
    ;
    let m: u128 = if r < len as u128 {
        r
    } else {
        p - r
    };
    assert(m < len);
    assert(m == mirror((i + 1) as nat, len as nat));
    if front {
        m as usize
    } else {
        len - 1 - (m as usize)
    }
}

/// `samples` extended by `pad` mirrored samples on each side (all `fill`
/// when there are no samples): the front holds the samples `pad`, ...,
/// `1` places after the first one, the back the samples `1`, ..., `pad`
/// places before the last one.
pub open spec fn reflect_padded<T>(s: Seq<T>, pad: nat, fill: T) -> Seq<T> {
    if s.len() == 0 {
        Seq::new(2 * pad, |i: int| fill)
    } else {
        Seq::new(pad, |i: int| s[reflect((pad - 1 - i) as nat, s.len(), true)]) + s + Seq::new(
            pad,
            |i: int| s[reflect(i as nat, s.len(), false)],
        )
    }
}

/// Reflection padding as done by `torch.stft(center=True)`: the signal is
/// mirrored around its first and its last sample.
pub fn reflect_pad<T: Copy>(samples: &[T], pad: usize, fill: T) -> (out: Vec<T>)
    requires
        samples@.len() + 2 * pad <= usize::MAX,
    ensures
        out@ == reflect_padded(samples@, pad as nat, fill),
{
    let n = samples.len();
    let mut out: Vec<T> = Vec::new();
    if n == 0 {
        let mut i: usize = 0;
        while i < 2 * pad
            invariant
                n == 0,
                2 * pad <= usize::MAX,
                i <= 2 * pad,
                out@ =~= Seq::new(i as nat, |k: int| fill),
            decreases 2 * pad - i,
        {
            out.push(fill);
            i = i + 1;
        }
        return out;
    }
    let mut i: usize = 0;
    while i < pad
        invariant
            n == samples@.len(),
            n >= 1,
            n + 2 * pad <= usize::MAX,
            i <= pad,
            out@ =~= Seq::new(
                i as nat,
                |k: int| samples@[reflect((pad - 1 - k) as nat, n as nat, true)],
            ),
        decreases pad - i,
    {
        let src = reflect_index(pad - 1 - i, n, true);
        out.push(samples[src]);
        i = i + 1;
    }
    let ghost front = out@;
    let mut j: usize = 0;
    while j < n
        invariant
            n == samples@.len(),
            j <= n,
            out@ =~= front + samples@.take(j as int),
        decreases n - j,
    {
        out.push(samples[j]);
        j = j + 1;
    }
    assert(samples@.take(n as int) =~= samples@);
    let ghost middle = out@;
    let mut k: usize = 0;
    while k < pad
        invariant
            n == samples@.len(),
            n >= 1,
            k <= pad,
            out@ =~= middle + Seq::new(
                k as nat,
                |m: int| samples@[reflect(m as nat, n as nat, false)],
            ),
        decreases pad - k,
    {
        let src = reflect_index(k, n, false);
        out.push(samples[src]);
        k = k + 1;
    }
    out
}

/// When the padding is shorter than the signal, the padded signal is the
/// signal mirrored around its first and last samples: `x[pad], ..., x[1]`
/// before it and `x[len-2], ..., x[len-1-pad]` after it.
pub proof fn law_reflect_pad_mirrors<T>(s: Seq<T>, pad: nat, fill: T)
    requires
        pad < s.len(),
    ensures
        reflect_padded(s, pad, fill).len() == s.len() + 2 * pad,
        forall|j: int| 0 <= j < pad ==> #[trigger] reflect_padded(s, pad, fill)[j] == s[pad - j],
        forall|j: int|
            0 <= j < s.len() ==> #[trigger] reflect_padded(s, pad, fill)[pad + j] == s[j],
        forall|k: int|
            0 <= k < pad ==> #[trigger] reflect_padded(s, pad, fill)[pad + s.len() + k] == s[s.len()
                - 2 - k],
{
    let out = reflect_padded(s, pad, fill);
    let n = s.len();
    assert forall|j: int| 0 <= j < pad implies #[trigger] out[j] == s[pad - j] by {
        let d = (pad - 1 - j + 1) as nat;
        assert(d == pad - j);
        if n > 1 {
            let p = (2 * (n - 1)) as nat;
            assert(d < p);
            assert(d % p == d) by (nonlinear_arith)
                requires
                    d < p,
            ;
        }
    }
    assert forall|k: int| 0 <= k < pad implies #[trigger] out[pad + n + k] == s[n - 2 - k] by {
        let d = (k + 1) as nat;
        let p = (2 * (n - 1)) as nat;
        assert(d < p);
        assert(d % p == d) by (nonlinear_arith)
            requires
                d < p,
        ;
    }
}

/// Frequency bins of a one-sided spectrum.
pub fn n_bins(n_fft: usize) -> (r: usize)
    ensures
        r == n_fft / 2 + 1,
{
    n_fft / 2 + 1
}

/// STFT frames of a padded signal: one per hop while a whole window fits.
pub fn frame_count(padded_len: usize, n_fft: usize, hop: usize) -> (r: usize)
    requires
        hop > 0,
        padded_len >= n_fft ==> (padded_len - n_fft) / (hop as int) < usize::MAX,
    ensures
        r == (if padded_len < n_fft {
            0
        } else {
            1 + (padded_len - n_fft) / (hop as int)
        }),
{
    if padded_len < n_fft {
        0
    } else {
        1 + (padded_len - n_fft) / hop
    }
}

/// Samples between the starts of two chunks: `chunk * (1 - overlap)`,
/// rounded to the nearest sample (halves up), and at least one.
pub open spec fn step_of(chunk: nat, overlap_percent: nat) -> nat {
    if overlap_percent >= 100 {
        1
    } else {
        let q = (chunk * (100 - overlap_percent) as nat + 50) / 100;
        if q >= 1 {
            q
        } else {
            1
        }
    }
}

/// The hop between chunks of `chunk` samples that overlap by `overlap_percent`.
pub fn chunk_step(chunk: usize, overlap_percent: u32) -> (s: usize)
    ensures
        s == step_of(chunk as nat, overlap_percent as nat),
        s >= 1,
{
    if overlap_percent >= 100 {
        return 1;
    }
    let keep: u128 = (100 - overlap_percent) as u128;
    let c: u128 = chunk as u128;
    assert(c * keep <= c * 100) by (nonlinear_arith)
        requires
            keep <= 100,
    ;
    assert(c * 100 <= 0xffff_ffff_ffff_ffff * 100) by (nonlinear_arith)
        requires
            c <= 0xffff_ffff_ffff_ffff,
    ;
    let q: u128 = (c * keep + 50) / 100;
    assert(q <= c) by (nonlinear_arith)
        requires
            q == (c * keep + 50) / 100,
            keep <= 100,
    ;
    if q >= 1 {
        q as usize
    } else {
        1
    }
}

/// Samples a chunk shares with the previous one, blended when added.
pub fn fade_len(chunk: usize, step: usize) -> (r: usize)
    ensures
        r == (if chunk > step {
            chunk - step
        } else {
            0
        }),
{
    chunk.saturating_sub(step)
}

/// How many chunks a track of `n` samples is cut into (at least one).
pub fn total_chunks(n: usize, step: usize) -> (r: usize)
    requires
        step > 0,
    ensures
        r == (if n == 0 {
            1
        } else {
            (n - 1) / (step as int) + 1
        }),
        r >= 1,
{
    if n == 0 {
        1
    } else {
        (n - 1) / step + 1
    }
}

/// The first sample of every chunk: 0, `step`, `2*step`, ... while below `n`.
pub fn chunk_offsets(n: usize, step: usize) -> (r: Vec<usize>)
    requires
        step > 0,
    ensures
        n > 0 ==> r@.len() > 0 && r@[0] == 0,
        n == 0 ==> r@.len() == 0,
        forall|i: int| 0 <= i < r@.len() ==> r@[i] < n,
        forall|i: int, j: int| 0 <= i && j == i + 1 && j < r@.len() ==> #[trigger] r@[j] == #[trigger] r@[i] + step,
        r@.len() > 0 ==> r@[r@.len() - 1] + step >= n,
{
    let mut r: Vec<usize> = Vec::new();
    let mut off: usize = 0;
    let mut done = n == 0;
    while !done
        invariant
            step > 0,
            !done ==> off < n,
            r@.len() > 0 ==> r@[0] == 0,
            r@.len() == 0 ==> off == 0 && (done ==> n == 0),
            r@.len() > 0 && !done ==> off == r@[r@.len() - 1] + step,
            r@.len() > 0 && done ==> r@[r@.len() - 1] + step >= n,
            forall|i: int| 0 <= i < r@.len() ==> r@[i] < n,
            forall|i: int, j: int|
                0 <= i && j == i + 1 && j < r@.len() ==> #[trigger] r@[j] == #[trigger] r@[i] + step,
        decreases n - off + (if done {
            0int
        } else {
            1int
        }),
    {
        r.push(off);
        if n - off <= step {
            done = true;
        } else {
            off = off + step;
        }
    }
    r
}

/// Samples of real audio in the chunk starting at `offset`.
pub fn chunk_avail(n: usize, offset: usize, chunk: usize) -> (r: usize)
    requires
        offset <= n,
    ensures
        r == (if n - offset < chunk {
            n - offset
        } else {
            chunk as int
        }),
{
    let left = n - offset;
    if left < chunk {
        left
    } else {
        chunk
    }
}

/// The sample range `[start, end)` behind each bar of the waveform overview,
/// or `None` when there is nothing to show.
pub open spec fn bucket_size(n: nat, bars: nat) -> nat {
    if n / bars >= 1 {
        n / bars
    } else {
        1
    }
}

/// The sample ranges behind the bars of the waveform overview: `bars`
/// consecutive ranges of `max(n / bars, 1)` samples, cut off at `n`.
pub fn peak_buckets(n: usize, bars: usize) -> (r: Vec<(usize, usize)>)
    requires
        n > 0,
        bars > 0,
    ensures
        r@.len() == bars,
        r@[0].0 == 0,
        forall|i: int|
            0 <= i < r@.len() ==> r@[i].1 == (if r@[i].0 + bucket_size(n as nat, bars as nat) < n {
                r@[i].0 + bucket_size(n as nat, bars as nat)
            } else {
                n as int
            }),
        forall|i: int, j: int|
            0 <= i && j == i + 1 && j < r@.len() ==> (#[trigger] r@[j]).0 == (#[trigger] r@[i]).0
                + bucket_size(n as nat, bars as nat),
{
    let size = if n / bars >= 1 {
        n / bars
    } else {
        1
    };
    proof {
        assert(size * bars <= n || size == 1) by (nonlinear_arith)
            requires
                size == (if n / bars >= 1 {
                    n / bars
                } else {
                    1
                }),
                bars > 0,
        ;
    }
    let mut r: Vec<(usize, usize)> = Vec::new();
    let mut i: usize = 0;
    let mut start: usize = 0;
    while i < bars
        invariant
            size == bucket_size(n as nat, bars as nat),
            size * bars <= n || size == 1,
            i <= bars,
            start == i * size,
            i == 0 ==> start == 0,
            r@.len() == i,
            i > 0 ==> r@[0].0 == 0,
            forall|k: int|
                0 <= k < r@.len() ==> r@[k].1 == (if r@[k].0 + size < n {
                    r@[k].0 + size
                } else {
                    n as int
                }),
            forall|k: int, j: int|
                0 <= k && j == k + 1 && j < r@.len() ==> (#[trigger] r@[j]).0 == (#[trigger] r@[k]).0
                    + size,
            i > 0 ==> start == r@[i - 1].0 + size,
        decreases bars - i,
    {
        proof {
            assert((i + 1) * size <= bars * size) by (nonlinear_arith)
                requires
                    i < bars,
            ;
            assert(bars * size <= n || bars * size == bars) by (nonlinear_arith)
                requires
                    size * bars <= n || size == 1,
            ;
            assert((i + 1) * size == i * size + size) by (nonlinear_arith);
        }
        let end = if start + size < n {
            start + size
        } else {
            n
        };
        r.push((start, end));
        start = start + size;
        i = i + 1;
    }
    r
}

/// Duration in milliseconds of `len` samples at `sample_rate`.
pub fn duration_ms(len: usize, sample_rate: u32) -> (ms: i64)
    requires
        len * 1000 <= i64::MAX,
    ensures
        ms == (if sample_rate == 0 {
            0
        } else {
            (len * 1000) / (sample_rate as int)
        }),
{
    if sample_rate == 0 {
        return 0;
    }
    (len as i64 * 1000) / sample_rate as i64
}

} // verus!
