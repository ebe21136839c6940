use vstd::prelude::*;

verus! {

/// Nanoseconds in a second.
pub const NANOS_PER_SEC: u64 = 1_000_000_000;

/// How long a frame of `frame_size` samples per channel lasts at
/// `sample_rate`, in whole nanoseconds.
pub open spec fn interval_nanos(frame_size: nat, sample_rate: nat) -> nat {
    frame_size * 1_000_000_000 / sample_rate
}

/// The time between two ticks of the mixing loop.
#[derive(Clone, Copy, Debug, PartialEq, Eq, Structural)]
pub struct TickInterval {
    pub secs: u64,
    /// Less than a second.
    pub nanos: u32,
}

impl TickInterval {
    pub open spec fn total_nanos(self) -> nat {
        (self.secs * 1_000_000_000 + self.nanos) as nat
    }
}

/// The time between two ticks: as long as one frame lasts.
pub fn tick_interval(frame_size: usize, sample_rate: u32) -> (interval: TickInterval)
    requires
        sample_rate > 0,
    ensures
        interval.total_nanos() == interval_nanos(frame_size as nat, sample_rate as nat),
        interval.nanos < NANOS_PER_SEC,
{
    let size: u64 = frame_size as u64;
    let rate: u64 = sample_rate as u64;
    let secs: u64 = size / rate;
    let rest: u64 = size % rate;
    assert(rest * NANOS_PER_SEC <= 0xffff_ffff * NANOS_PER_SEC) by (nonlinear_arith)
        requires
            rest <= 0xffff_ffff,
    ;
    let nanos: u64 = rest * NANOS_PER_SEC / rate;
    proof {
        let s = size as int;
        let r = rate as int;
        let q = secs as int;
        let m = rest as int;
        assert(s == q * r + m && 0 <= m < r) by (nonlinear_arith)
            requires
                r > 0,
                q == s / r,
                m == s % r,
        ;
        assert(s * 1_000_000_000 == (q * 1_000_000_000) * r + m * 1_000_000_000)
            by (nonlinear_arith)
            requires
                s == q * r + m,
        ;
        let b = m * 1_000_000_000;
        assert(b == r * (b / r) + b % r && 0 <= b % r < r && 0 <= b / r < 1_000_000_000)
            by (nonlinear_arith)
            requires
                r > 0,
                0 <= m < r,
                b == m * 1_000_000_000,
        ;
        assert(s * 1_000_000_000 == r * (q * 1_000_000_000 + b / r) + b % r) by (nonlinear_arith)
            requires
                s * 1_000_000_000 == (q * 1_000_000_000) * r + b,
                b == r * (b / r) + b % r,
        ;
        vstd::arithmetic::div_mod::lemma_div_multiples_vanish_fancy(
            q * 1_000_000_000 + b / r,
            b % r,
            r,
        );
    }
    TickInterval { secs, nanos: nanos as u32 }
}

} // verus!
