use vstd::prelude::*;

verus! {

/// The frames as sequences of samples.
pub open spec fn views(frames: Seq<Vec<i16>>) -> Seq<Seq<i16>> {
    Seq::new(frames.len(), |k: int| frames[k]@)
}

/// Sum of the samples at index `i` over all the frames.
pub open spec fn column_sum(frames: Seq<Seq<i16>>, i: int) -> int
    decreases frames.len(),
{
    if frames.len() == 0 {
        0
    } else {
        column_sum(frames.drop_last(), i) + frames.last()[i]
    }
}

/// `sum / n` rounded to the nearest integer, halves away from zero.
pub open spec fn rounded_mean(sum: int, n: int) -> int {
    if sum >= 0 {
        (2 * sum + n) / (2 * n)
    } else {
        -((n - 2 * sum) / (2 * n))
    }
}

/// `v` brought into the range of a 16-bit signed sample.
pub open spec fn clamped(v: int) -> i16 {
    if v > i16::MAX {
        i16::MAX
    } else if v < i16::MIN {
        i16::MIN
    } else {
        v as i16
    }
}

/// The equal-weight mix of the frames at index `i`.
pub open spec fn mixed_sample(frames: Seq<Seq<i16>>, i: int) -> i16 {
    clamped(rounded_mean(column_sum(frames, i), frames.len() as int))
}

/// The equal-weight mix of the frames, `len` samples long.
pub open spec fn mixdown(frames: Seq<Seq<i16>>, len: nat) -> Seq<i16> {
    Seq::new(len, |i: int| mixed_sample(frames, i))
}

/// A column sum is bounded by the number of frames times the sample range.
pub proof fn lemma_column_sum_bounds(frames: Seq<Seq<i16>>, i: int)
    requires
        forall|k: int| 0 <= k < frames.len() ==> i < (#[trigger] frames[k]).len(),
        0 <= i,
    ensures
        frames.len() * (i16::MIN as int) <= column_sum(frames, i) <= frames.len() * (i16::MAX as int),
    decreases frames.len(),
{
    if frames.len() > 0 {
        let init = frames.drop_last();
        assert forall|k: int| 0 <= k < init.len() implies i < (#[trigger] init[k]).len() by {
            assert(init[k] == frames[k]);
        }
        lemma_column_sum_bounds(init, i);
        assert(frames.len() * (i16::MIN as int) == init.len() * (i16::MIN as int) + i16::MIN)
            by (nonlinear_arith)
            requires
                frames.len() == init.len() + 1,
        ;
        assert(frames.len() * (i16::MAX as int) == init.len() * (i16::MAX as int) + i16::MAX)
            by (nonlinear_arith)
            requires
                frames.len() == init.len() + 1,
        ;
    }
}

/// The rounded mean is a nearest integer to `sum / n`: it is off by half
/// at most.
pub proof fn law_rounded_mean_is_nearest(sum: int, n: int)
    requires
        n > 0,
    ensures
        2 * n * rounded_mean(sum, n) - n <= 2 * sum <= 2 * n * rounded_mean(sum, n) + n,
{
    let d = 2 * n;
    if sum >= 0 {
        let x = 2 * sum + n;
        assert(x == d * (x / d) + x % d && 0 <= x % d < d) by (nonlinear_arith)
            requires
                d > 0,
        ;
        assert(2 * n * (x / d) == d * (x / d)) by (nonlinear_arith)
            requires
                d == 2 * n,
        ;
    } else {
        let x = n - 2 * sum;
        assert(x == d * (x / d) + x % d && 0 <= x % d < d) by (nonlinear_arith)
            requires
                d > 0,
        ;
        assert(2 * n * (-(x / d)) == -(d * (x / d))) by (nonlinear_arith)
            requires
                d == 2 * n,
        ;
    }
}

/// The mean of samples is itself in the range of a sample: clamping never
/// alters an equal-weight mix.
pub proof fn law_mix_needs_no_clamp(frames: Seq<Seq<i16>>, i: int)
    requires
        frames.len() > 0,
        0 <= i,
        forall|k: int| 0 <= k < frames.len() ==> i < (#[trigger] frames[k]).len(),
    ensures
        mixed_sample(frames, i) == rounded_mean(column_sum(frames, i), frames.len() as int),
{
    let n = frames.len() as int;
    let sum = column_sum(frames, i);
    let r = rounded_mean(sum, n);
    lemma_column_sum_bounds(frames, i);
    law_rounded_mean_is_nearest(sum, n);
    assert(i16::MIN <= r <= i16::MAX) by (nonlinear_arith)
        requires
            n > 0,
            n * (-32768) <= sum <= n * 32767,
            2 * n * r - n <= 2 * sum <= 2 * n * r + n,
    ;
}

/// A speaker that is alone in the mix is heard unchanged.
pub proof fn law_single_speaker(a: Seq<i16>, i: int)
    requires
        0 <= i < a.len(),
    ensures
        mixed_sample(seq![a], i) == a[i],
{
    let frames = seq![a];
    assert(frames.drop_last() =~= Seq::<Seq<i16>>::empty());
    assert(column_sum(frames.drop_last(), i) == 0);
    assert(column_sum(frames, i) == a[i]);
    let v = a[i] as int;
    if v >= 0 {
        assert((2 * v + 1) / 2 == v);
    } else {
        assert((1 - 2 * v) / 2 == -v);
    }
}

/// Two speakers are mixed with equal weight: where one holds `A` and the
/// other `B`, the mix holds `(A + B) / 2`, rounded to the nearest integer
/// and clamped to the range of a sample.
pub proof fn law_two_speakers(a: Seq<i16>, b: Seq<i16>, i: int)
    requires
        0 <= i < a.len(),
        i < b.len(),
    ensures
        mixed_sample(seq![a, b], i) == clamped(rounded_mean(a[i] + b[i], 2)),
{
    let frames = seq![a, b];
    assert(frames.drop_last() =~= seq![a]);
    assert(seq![a].drop_last() =~= Seq::<Seq<i16>>::empty());
    assert(column_sum(seq![a].drop_last(), i) == 0);
    assert(column_sum(seq![a], i) == a[i]);
    assert(column_sum(frames, i) == a[i] + b[i]);
}

/// Brings a wide value into the range of a sample.
fn clamp_sample(v: i128) -> (s: i16)
    ensures
        s == clamped(v as int),
{
    if v > 32767 {
        32767
    } else if v < -32768 {
        -32768
    } else {
        v as i16
    }
}

/// The mean of `n` samples that add up to `sum`, rounded and clamped.
fn mean_sample(sum: i128, n: usize) -> (s: i16)
    requires
        n > 0,
        n * (i16::MIN as int) <= sum <= n * (i16::MAX as int),
    ensures
        s == clamped(rounded_mean(sum as int, n as int)),
{
    let count: i128 = n as i128;
    let twice: i128 = 2 * count;
    if sum >= 0 {
        clamp_sample((2 * sum + count) / twice)
    } else {
        clamp_sample(-((count - 2 * sum) / twice))
    }
}

/// Mixes the frames of the active speakers into one frame by equal-weight
/// averaging, sample by sample.
pub fn mix_frames(frames: &Vec<Vec<i16>>, frame_len: usize) -> (out: Vec<i16>)
    requires
        frames@.len() > 0,
        forall|k: int| 0 <= k < frames@.len() ==> (#[trigger] frames@[k])@.len() == frame_len,
    ensures
        out@ == mixdown(views(frames@), frame_len as nat),
{
    let ghost all = views(frames@);
    let mut out: Vec<i16> = Vec::new();
    let mut i: usize = 0;
    while i < frame_len
        invariant
            i <= frame_len,
            all == views(frames@),
            frames@.len() > 0,
            forall|k: int| 0 <= k < frames@.len() ==> (#[trigger] frames@[k])@.len() == frame_len,
            out@.len() == i,
            forall|j: int| 0 <= j < i ==> out@[j] == mixed_sample(all, j),
        decreases frame_len - i,
    {
        let mut sum: i128 = 0;
        let mut k: usize = 0;
        while k < frames.len()
            invariant
                k <= frames@.len(),
                i < frame_len,
                all == views(frames@),
                forall|m: int| 0 <= m < frames@.len() ==> (#[trigger] frames@[m])@.len() == frame_len,
                sum == column_sum(all.take(k as int), i as int),
                k * (i16::MIN as int) <= sum <= k * (i16::MAX as int),
            decreases frames@.len() - k,
        {
            let sample: i16 = frames[k][i];
            proof {
                let upto = all.take(k as int + 1);
                assert(upto.drop_last() =~= all.take(k as int));
                assert(upto.last() == frames@[k as int]@);
                assert((k + 1) * (i16::MIN as int) == k * (i16::MIN as int) + i16::MIN)
                    by (nonlinear_arith);
                assert((k + 1) * (i16::MAX as int) == k * (i16::MAX as int) + i16::MAX)
                    by (nonlinear_arith);
                assert(k * (i16::MAX as int) <= usize::MAX * (i16::MAX as int))
                    by (nonlinear_arith)
                    requires
                        k <= usize::MAX,
                ;
                assert(k * (i16::MIN as int) >= usize::MAX * (i16::MIN as int))
                    by (nonlinear_arith)
                    requires
                        k <= usize::MAX,
                ;
            }
            sum = sum + sample as i128;
            k = k + 1;
        }
        assert(all.take(k as int) =~= all);
        let mixed = mean_sample(sum, frames.len());
        out.push(mixed);
        i = i + 1;
    }
    assert(out@ =~= mixdown(all, frame_len as nat));
    out
}

} // verus!
