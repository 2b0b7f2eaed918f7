//! Audio-side logic: RMS volume of a PCM buffer and the shot-trigger
//! debounce with its 5-second lockout.

use vstd::prelude::*;

use crate::num::{isqrt, sqrt_floor};

verus! {

/// Milliseconds for which the trigger stays locked after an accepted trigger.
pub const TRIGGER_LOCK_MS: i64 = 5_000;

/// Sum of squares of the samples, as a mathematical integer.
pub open spec fn sum_squares(s: Seq<i16>) -> nat
    decreases s.len(),
{
    if s.len() == 0 {
        0
    } else {
        sum_squares(s.drop_last()) + (s.last() * s.last()) as nat
    }
}

/// RMS volume of a PCM buffer in milli-units: the floor square root of
/// `10^6` times the mean of the squared samples (so 1000 equals an RMS
/// amplitude of one sample unit).
pub open spec fn rms_milli_spec(s: Seq<i16>) -> nat {
    sqrt_floor((sum_squares(s) * 1_000_000) / s.len())
}

proof fn lemma_sum_squares_bound(s: Seq<i16>)
    ensures
        sum_squares(s) <= s.len() * 0x4000_0000,
    decreases s.len(),
{
    if s.len() == 0 {
    } else {
        lemma_sum_squares_bound(s.drop_last());
        assert(0 <= (s.last() as int) * (s.last() as int) <= 0x4000_0000) by (nonlinear_arith)
            requires -0x8000 <= s.last() <= 0x7fff;
        assert(sum_squares(s) == sum_squares(s.drop_last()) + (s.last() * s.last()) as nat);
        assert(s.len() * 0x4000_0000 == s.drop_last().len() * 0x4000_0000 + 0x4000_0000)
            by (nonlinear_arith)
            requires s.len() >= 1 && s.drop_last().len() == s.len() - 1;
    }
}

/// RMS volume of a buffer of 16-bit samples, in milli-units.
///
/// Mirrors the audio callback's volume computation: the square root of the
/// mean squared sample, carried in fixed point instead of floating point.
pub fn rms_milli(samples: &[i16]) -> (r: u64)
    requires
        0 < samples@.len() <= 0x1_0000_0000,
    ensures
        r == rms_milli_spec(samples@),
{
    let n: usize = samples.len();
    let mut sum: u64 = 0;
    let mut i: usize = 0;
    while i < n
        invariant
            0 < n == samples@.len() <= 0x1_0000_0000,
            0 <= i <= n,
            sum == sum_squares(samples@.subrange(0, i as int)),
            sum <= (i as nat) * 0x4000_0000,
        decreases n - i,
    {
        let v: i64 = samples[i] as i64;
        proof {
            assert(samples@.subrange(0, i + 1).drop_last() =~= samples@.subrange(0, i as int));
            assert(samples@.subrange(0, i + 1).last() == samples@[i as int]);
            assert(0 <= (v as int) * (v as int) <= 0x4000_0000) by (nonlinear_arith)
                requires -0x8000 <= v <= 0x7fff;
            assert((i + 1) as nat * 0x4000_0000 == (i as nat) * 0x4000_0000 + 0x4000_0000)
                by (nonlinear_arith);
            assert((i as nat) * 0x4000_0000 <= 0x1_0000_0000 * 0x4000_0000) by (nonlinear_arith)
                requires i as nat <= 0x1_0000_0000;
        }
        sum = sum + ((v * v) as u64);
        i = i + 1;
    }
    proof {
        assert(samples@.subrange(0, n as int) =~= samples@);
        lemma_sum_squares_bound(samples@);
        assert((sum as nat) * 1_000_000 <= 0x1_0000_0000 * 0x4000_0000 * 1_000_000)
            by (nonlinear_arith)
            requires sum as nat <= 0x1_0000_0000 * 0x4000_0000;
    }
    let scaled: u128 = (sum as u128) * 1_000_000;
    let mean: u128 = scaled / (n as u128);
    proof {
        assert(scaled / (n as u128) <= scaled / 1) by (nonlinear_arith)
            requires n >= 1 && scaled >= 0;
        assert((sum as nat) * 1_000_000 / (n as nat) <= (sum as nat) * 1_000_000);
        assert(sum as nat <= (n as nat) * 0x4000_0000);
        assert((sum as nat) * 1_000_000 / (n as nat) <= 0x4000_0000 * 1_000_000)
            by (nonlinear_arith)
            requires sum as nat <= (n as nat) * 0x4000_0000 && n >= 1;
    }
    isqrt(mean as u64)
}

/// The shot-trigger debounce: remembers the time of the last accepted
/// trigger and suppresses any further trigger within the 5-second lockout.
pub struct TriggerGate {
    pub last_trigger_ms: Option<i64>,
}

impl TriggerGate {
    /// The trigger fires on this observation: the volume is above the
    /// threshold and no trigger was accepted within the last 5 seconds.
    pub open spec fn fires(self, now_ms: int, volume_milli: u64, threshold_milli: u64) -> bool {
        &&& match self.last_trigger_ms {
            Some(t) => now_ms - t > TRIGGER_LOCK_MS,
            None => true,
        }
        &&& volume_milli > threshold_milli
    }

    /// A fresh debounce state with no trigger accepted yet.
    pub fn new() -> (r: TriggerGate)
        ensures
            r.last_trigger_ms.is_none(),
    {
        TriggerGate { last_trigger_ms: None }
    }

    /// Takes one volume observation. Returns whether a trigger is
    /// forwarded to the shot engine; an accepted trigger locks out any
    /// further trigger for the next 5 seconds.
    pub fn observe(&mut self, now_ms: i64, volume_milli: u64, threshold_milli: u64) -> (fire:
        bool)
        requires
            match old(self).last_trigger_ms {
                Some(t) => t <= now_ms,
                None => true,
            },
        ensures
            fire == old(self).fires(now_ms as int, volume_milli, threshold_milli),
            final(self).last_trigger_ms == if fire {
                Some(now_ms)
            } else {
                old(self).last_trigger_ms
            },
    {
        let locked: bool = match self.last_trigger_ms {
            Some(t) => (now_ms as i128) - (t as i128) <= TRIGGER_LOCK_MS as i128,
            None => false,
        };
        if !locked && volume_milli > threshold_milli {
            self.last_trigger_ms = Some(now_ms);
            true
        } else {
            false
        }
    }
}

/// One volume observation: a time in milliseconds, a volume and a
/// threshold in milli-units.
pub struct VolumeObs {
    pub now_ms: i64,
    pub volume_milli: u64,
    pub threshold_milli: u64,
}

/// The times of the triggers accepted over a sequence of observations
/// taken in order, together with the debounce state left behind.
pub open spec fn gate_run(g: TriggerGate, obs: Seq<VolumeObs>) -> (TriggerGate, Seq<i64>)
    decreases obs.len(),
{
    if obs.len() == 0 {
        (g, Seq::empty())
    } else {
        let o = obs[0];
        let fire = g.fires(o.now_ms as int, o.volume_milli, o.threshold_milli);
        let g1 = TriggerGate {
            last_trigger_ms: if fire {
                Some(o.now_ms)
            } else {
                g.last_trigger_ms
            },
        };
        let (gf, acc) = gate_run(g1, obs.drop_first());
        if fire {
            (gf, seq![o.now_ms].add(acc))
        } else {
            (gf, acc)
        }
    }
}

/// Observation times are non-decreasing, and none precedes the last
/// trigger accepted so far.
pub open spec fn gate_obs_wf(g: TriggerGate, obs: Seq<VolumeObs>) -> bool {
    &&& forall|i: int, j: int|
        0 <= i <= j < obs.len() ==> #[trigger] obs[i].now_ms <= #[trigger] obs[j].now_ms
    &&& obs.len() > 0 ==> match g.last_trigger_ms {
        Some(t) => t <= obs[0].now_ms,
        None => true,
    }
}

/// Debounce law: over any monotone sequence of volume observations, no
/// two accepted triggers lie within 5 seconds of each other; moreover
/// every accepted trigger comes more than 5 seconds after the trigger
/// last accepted before the sequence began.
pub proof fn lemma_trigger_debounce(g: TriggerGate, obs: Seq<VolumeObs>)
    requires
        gate_obs_wf(g, obs),
    ensures
        forall|i: int, j: int|
            0 <= i < j < gate_run(g, obs).1.len() ==> #[trigger] gate_run(g, obs).1[j]
                - #[trigger] gate_run(g, obs).1[i] > TRIGGER_LOCK_MS,
        forall|i: int|
            0 <= i < gate_run(g, obs).1.len() ==> match g.last_trigger_ms {
                Some(t) => #[trigger] gate_run(g, obs).1[i] - t > TRIGGER_LOCK_MS,
                None => true,
            },
        obs.len() > 0 ==> forall|i: int|
            0 <= i < gate_run(g, obs).1.len() ==> obs[0].now_ms <= #[trigger] gate_run(g, obs).1[i],
    decreases obs.len(),
{
    if obs.len() == 0 {
    } else {
        let o = obs[0];
        let fire = g.fires(o.now_ms as int, o.volume_milli, o.threshold_milli);
        let g1 = TriggerGate {
            last_trigger_ms: if fire {
                Some(o.now_ms)
            } else {
                g.last_trigger_ms
            },
        };
        let rest = obs.drop_first();
        assert(gate_obs_wf(g1, rest));
        lemma_trigger_debounce(g1, rest);
        let acc_rest = gate_run(g1, rest).1;
        let acc = gate_run(g, obs).1;
        if fire {
            assert(acc =~= seq![o.now_ms].add(acc_rest));
            assert forall|i: int, j: int| 0 <= i < j < acc.len() implies #[trigger] acc[j]
                - #[trigger] acc[i] > TRIGGER_LOCK_MS by {
                if i == 0 {
                    assert(acc[j] == acc_rest[j - 1]);
                } else {
                    assert(acc[i] == acc_rest[i - 1] && acc[j] == acc_rest[j - 1]);
                }
            }
        } else {
            assert(acc =~= acc_rest);
        }
    }
}

} // verus!
