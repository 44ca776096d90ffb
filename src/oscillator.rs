//! The FM oscillator pair: two phase accumulators, a carrier whose
//! instantaneous frequency follows the modulator's waveform.
//!
//! A phase is held as a numerator over the oscillator's period, which is the
//! sample rate times 1000: a frequency in millihertz is then exactly the
//! amount a phase advances per sample. Phases wrap modulo one period, so they
//! stay in `[0, 1)` of a cycle whatever the frequency, negative instantaneous
//! frequencies included.
//!
//! A parameter change keeps both phases where they are: a new note is
//! continuous in phase and jumps in frequency and amplitude.
use vstd::prelude::*;
use vstd::arithmetic::div_mod::{lemma_fundamental_div_mod, lemma_fundamental_div_mod_converse, lemma_multiply_divide_le, lemma_div_pos_is_pos};
use crate::envelope::lemma_mul_at_most;
use crate::params::FMParams;
use crate::{MILLI, UNIT};

verus! {

/// Bhaskara's rational approximation of `sin(pi * t / p)` on a half cycle,
/// in fixed point: `16 t (p - t) / (5 p^2 - 4 t (p - t))`.
pub open spec fn half_sine(t: int, p: int) -> int {
    (16 * UNIT * (t * (p - t))) / (5 * (p * p) - 4 * (t * (p - t)))
}

/// The waveform `sin(2 pi * phase / period)` in fixed point: the half-cycle
/// approximation, positive on the first half and negated on the second.
pub open spec fn sine(phase: int, period: int) -> int {
    let x = 2 * phase;
    if x < period {
        half_sine(x, period)
    } else {
        -half_sine(x - period, period)
    }
}

/// `x * num / den`, rounded toward zero.
pub open spec fn scale(x: int, num: int, den: int) -> int {
    if x >= 0 {
        (x * num) / den
    } else {
        -(((-x) * num) / den)
    }
}

/// The carrier's instantaneous frequency in millihertz,
/// `carrier * (1 + index * m)`, for modulator value `m` (fixed point).
pub open spec fn instant_freq(p: FMParams, m: int) -> int {
    p.carrier_freq + scale(m, p.carrier_freq * p.modulation_index, (MILLI * UNIT) as int)
}

pub struct FMOscillator {
    pub sample_rate: u32,
    pub carrier_phase: u64,
    pub modulator_phase: u64,
    pub params: FMParams,
}

impl FMOscillator {
    /// One full cycle in phase units.
    pub open spec fn period(&self) -> int {
        self.sample_rate * 1000
    }

    pub open spec fn wf(&self) -> bool {
        &&& self.sample_rate > 0
        &&& self.carrier_phase < self.period()
        &&& self.modulator_phase < self.period()
        &&& self.params.wf()
    }

    /// The sample that the next call of `next_sample` returns.
    pub open spec fn sample_after(&self) -> int {
        scale(
            sine(self.carrier_phase as int, self.period()),
            self.params.amplitude as int,
            MILLI as int,
        )
    }

    /// The oscillator after one call of `next_sample`.
    pub open spec fn stepped(self) -> FMOscillator {
        let m = sine(self.modulator_phase as int, self.period());
        FMOscillator {
            carrier_phase: ((self.carrier_phase + instant_freq(self.params, m)) % self.period()) as u64,
            modulator_phase: ((self.modulator_phase + self.params.modulator_freq) % self.period()) as u64,
            ..self
        }
    }

    /// The oscillator after `n` calls of `next_sample`.
    pub open spec fn run(self, n: nat) -> FMOscillator
        decreases n,
    {
        if n == 0 {
            self
        } else {
            self.stepped().run((n - 1) as nat)
        }
    }

    /// A fresh oscillator: both phases at zero.
    pub open spec fn new_spec(sample_rate: u32, params: FMParams) -> FMOscillator {
        FMOscillator { sample_rate, carrier_phase: 0, modulator_phase: 0, params }
    }

    pub fn new(sample_rate: u32, params: FMParams) -> (r: FMOscillator)
        requires
            sample_rate > 0,
            params.wf(),
        ensures
            r.wf(),
            r == Self::new_spec(sample_rate, params),
    {
        FMOscillator { sample_rate, carrier_phase: 0, modulator_phase: 0, params }
    }

    /// Returns the carrier's value at the current phase times the amplitude,
    /// then advances both phases by one sample.
    pub fn next_sample(&mut self) -> (r: i64)
        requires
            old(self).wf(),
        ensures
            *final(self) == old(self).stepped(),
            final(self).wf(),
            r == old(self).sample_after(),
            -(UNIT as int) <= r <= UNIT,
    {
        let period = self.sample_rate as u64 * 1000;
        let m = sine_at(self.modulator_phase, period);
        let c = sine_at(self.carrier_phase, period);
        proof {
            lemma_mul_at_most(self.params.carrier_freq as int, self.params.modulation_index as int, u32::MAX as int, u32::MAX as int);
            assert(u32::MAX * u32::MAX <= u64::MAX) by (nonlinear_arith);
        }
        let depth = self.params.carrier_freq as u64 * self.params.modulation_index as u64;
        proof {
            lemma_scale_bound(m as int, depth as int, (MILLI * UNIT) as int);
            lemma_scale_bound(c as int, self.params.amplitude as int, MILLI as int);
        }
        let deviation = scale_toward_zero(m, depth, MILLI * UNIT);
        if deviation >= 0 {
            self.carrier_phase = advance(self.carrier_phase, self.params.carrier_freq as u64 + deviation as u64, true, period);
        } else if (-deviation) as u64 <= self.params.carrier_freq as u64 {
            self.carrier_phase = advance(self.carrier_phase, self.params.carrier_freq as u64 - (-deviation) as u64, true, period);
        } else {
            self.carrier_phase = advance(self.carrier_phase, (-deviation) as u64 - self.params.carrier_freq as u64, false, period);
        }
        self.modulator_phase = advance(self.modulator_phase, self.params.modulator_freq as u64, true, period);
        scale_toward_zero(c, self.params.amplitude as u64, MILLI)
    }

    /// Replaces the parameters; both phases are kept.
    pub fn set_params(&mut self, params: FMParams)
        requires
            old(self).wf(),
            params.wf(),
        ensures
            final(self).wf(),
            *final(self) == (FMOscillator { params, ..*old(self) }),
    {
        self.params = params;
    }
}

/// Every number of samples leaves both phases within one period.
pub proof fn lemma_phases_in_range(o: FMOscillator, n: nat)
    requires
        o.wf(),
    ensures
        o.run(n).wf(),
        0 <= o.run(n).carrier_phase < o.run(n).period(),
        0 <= o.run(n).modulator_phase < o.run(n).period(),
    decreases n,
{
    let m = sine(o.modulator_phase as int, o.period());
    let s = o.stepped();
    assert(s.wf()) by {
        lemma_mod_in_range(o.carrier_phase + instant_freq(o.params, m), o.period());
        lemma_mod_in_range(o.modulator_phase + o.params.modulator_freq, o.period());
    }
    if n > 0 {
        lemma_phases_in_range(s, (n - 1) as nat);
    }
}

proof fn lemma_mod_in_range(x: int, p: int)
    requires
        p > 0,
    ensures
        0 <= x % p < p,
{
    lemma_fundamental_div_mod(x, p);
}

/// `(phase ± step) mod period`, adding when `up` holds.
fn advance(phase: u64, step: u64, up: bool, period: u64) -> (r: u64)
    requires
        0 < period,
        phase < period,
    ensures
        r < period,
        up ==> r == (phase + step) % (period as int),
        !up ==> r == (phase - step) % (period as int),
{
    if up {
        let r = ((phase as u128 + step as u128) % period as u128) as u64;
        r
    } else {
        let d = step % period;
        proof {
            let q = step as int / period as int;
            lemma_fundamental_div_mod(step as int, period as int);
            if d <= phase {
                assert(phase - step == (-q) * period + (phase - d)) by (nonlinear_arith)
                    requires
                        step == period * q + d,
                ;
                lemma_fundamental_div_mod_converse(phase - step, period as int, -q, phase - d);
            } else {
                assert(phase - step == (-q - 1) * period + (phase + period - d)) by (nonlinear_arith)
                    requires
                        step == period * q + d,
                ;
                lemma_fundamental_div_mod_converse(phase - step, period as int, -q - 1, phase + period - d);
            }
        }
        if d <= phase {
            phase - d
        } else {
            phase + (period - d)
        }
    }
}

/// `half_sine(t, p)` lies in `[0, UNIT]`.
proof fn lemma_half_sine_bound(t: int, p: int)
    requires
        0 <= t < p,
    ensures
        0 <= half_sine(t, p) <= UNIT,
        (5 * (p * p) - 4 * (t * (p - t))) >= 4 * (p * p),
        p * p > 0,
{
    let a = t * (p - t);
    assert(4 * a <= p * p) by (nonlinear_arith)
        requires
            a == t * (p - t),
    ;
    assert(0 <= a) by (nonlinear_arith)
        requires
            a == t * (p - t),
            0 <= t < p,
    ;
    let den = 5 * (p * p) - 4 * a;
    assert(p * p > 0) by (nonlinear_arith)
        requires
            p > 0,
    ;
    assert(16 * UNIT * a <= den * UNIT) by (nonlinear_arith)
        requires
            4 * a <= p * p,
            den == 5 * (p * p) - 4 * a,
    ;
    lemma_multiply_divide_le(16 * UNIT * a, den, UNIT as int);
    lemma_div_pos_is_pos(16 * UNIT * a, den);
}

/// `sine(phase, period)` lies in `[-UNIT, UNIT]`.
proof fn lemma_sine_bound(phase: int, period: int)
    requires
        0 <= phase < period,
    ensures
        -(UNIT as int) <= sine(phase, period) <= UNIT,
{
    if 2 * phase < period {
        lemma_half_sine_bound(2 * phase, period);
    } else {
        lemma_half_sine_bound(2 * phase - period, period);
    }
}

fn sine_at(phase: u64, period: u64) -> (r: i64)
    requires
        phase < period,
        period <= u32::MAX * 1000,
    ensures
        r == sine(phase as int, period as int),
        -(UNIT as int) <= r <= UNIT,
{
    proof {
        lemma_sine_bound(phase as int, period as int);
    }
    let x = 2 * phase as u128;
    let p = period as u128;
    let (t, negative) = if x < p {
        (x, false)
    } else {
        (x - p, true)
    };
    proof {
        lemma_half_sine_bound(t as int, p as int);
        lemma_mul_at_most(t as int, (p - t) as int, p as int, p as int);
        lemma_mul_at_most(p as int, p as int, (u32::MAX * 1000) as int, (u32::MAX * 1000) as int);
        lemma_mul_at_most(16 * UNIT as int, (t * (p - t)) as int, 16 * UNIT as int, (p * p) as int);
    }
    let v = (16 * UNIT as u128 * (t * (p - t))) / (5 * (p * p) - 4 * (t * (p - t)));
    if negative {
        -(v as i64)
    } else {
        v as i64
    }
}

/// `scale(x, num, den)` for `|x| <= UNIT` is at most `UNIT * num / den` in size.
pub(crate) proof fn lemma_scale_bound(x: int, num: int, den: int)
    requires
        -(UNIT as int) <= x <= UNIT,
        0 <= num,
        0 < den,
    ensures
        -((UNIT * num) / den) <= scale(x, num, den) <= (UNIT * num) / den,
{
    let ax = if x >= 0 { x } else { -x };
    lemma_mul_at_most(ax, num, UNIT as int, num);
    vstd::arithmetic::div_mod::lemma_div_is_ordered(ax * num, UNIT * num, den);
    lemma_div_pos_is_pos(ax * num, den);
}

pub(crate) fn scale_toward_zero(x: i64, num: u64, den: u64) -> (r: i64)
    requires
        -(UNIT as int) <= x <= UNIT,
        0 < den,
        (UNIT * num) / (den as int) <= i64::MAX,
    ensures
        r == scale(x as int, num as int, den as int),
{
    let ax: u64 = if x >= 0 { x as u64 } else { (-x) as u64 };
    proof {
        lemma_mul_at_most(ax as int, num as int, UNIT as int, num as int);
        lemma_mul_at_most(ax as int, num as int, UNIT as int, u64::MAX as int);
        vstd::arithmetic::div_mod::lemma_div_is_ordered(ax * num, UNIT * num, den as int);
        lemma_div_pos_is_pos(ax * num, den as int);
    }
    let v = (ax as u128 * num as u128 / den as u128) as i64;
    if x >= 0 {
        v
    } else {
        -v
    }
}

} // verus!
