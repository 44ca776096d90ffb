//! The ADSR envelope: a five-state machine that yields one amplitude level per
//! audio sample. Levels are fixed-point with `UNIT` standing for 1.0; time is
//! counted in samples and compared with durations given in milliseconds.
use vstd::prelude::*;
use vstd::arithmetic::div_mod::{lemma_div_is_ordered, lemma_div_pos_is_pos, lemma_multiply_divide_le};
use vstd::arithmetic::mul::lemma_mul_inequality;
use crate::UNIT;

verus! {

/// Attack time of a new envelope, in milliseconds.
pub const DEFAULT_ATTACK_MS: u32 = 10;

/// Decay time of a new envelope, in milliseconds.
pub const DEFAULT_DECAY_MS: u32 = 100;

/// Sustain level of a new envelope, in thousandths.
pub const DEFAULT_SUSTAIN: u32 = 700;

/// Release time of a new envelope, in milliseconds.
pub const DEFAULT_RELEASE_MS: u32 = 500;

#[derive(Clone, Copy, Debug, PartialEq, Eq, Structural)]
pub enum EnvelopeState {
    Idle,
    Attack,
    Decay,
    Sustain,
    Release,
}

/// Whether `elapsed` samples at `rate` samples per second last at least `ms` milliseconds.
pub open spec fn reached(elapsed: int, ms: int, rate: int) -> bool {
    elapsed * 1000 >= ms * rate
}

/// Level during the attack: the elapsed fraction of the attack time, held at
/// full scale from the sample on which the attack time has passed.
pub open spec fn attack_level(elapsed: int, attack_ms: int, rate: int) -> int {
    if reached(elapsed, attack_ms, rate) {
        UNIT as int
    } else {
        (UNIT * (elapsed * 1000)) / (attack_ms * rate)
    }
}

/// Level during the decay: `1 - (1 - sustain) * elapsed / decay` (with
/// `sustain` in fixed point), on the sample that ends the decay too. It is
/// held at zero should it fall below, which only a decay shorter than two
/// samples can make it do; a decay of no time gives the sustain level.
pub open spec fn decay_level(elapsed: int, decay_ms: int, rate: int, sustain: int) -> int {
    if decay_ms * rate == 0 {
        sustain
    } else {
        let fall = ((UNIT - sustain) * (elapsed * 1000)) / (decay_ms * rate);
        if fall <= UNIT {
            UNIT - fall
        } else {
            0
        }
    }
}

/// Level during the release: from `sustain` (fixed-point) down to zero, which
/// it is from the sample on which the release time has passed.
pub open spec fn release_level(elapsed: int, release_ms: int, rate: int, sustain: int) -> int {
    if reached(elapsed, release_ms, rate) {
        0
    } else {
        sustain - (sustain * (elapsed * 1000)) / (release_ms * rate)
    }
}

/// A sample counter that stops at the largest `u64`.
pub open spec fn count_up(n: int) -> int {
    if n < u64::MAX {
        n + 1
    } else {
        n
    }
}

pub struct Envelope {
    pub attack_ms: u32,
    pub decay_ms: u32,
    /// Sustain level in thousandths.
    pub sustain: u32,
    pub release_ms: u32,
    pub sample_rate: u32,
    pub state: EnvelopeState,
    /// The level computed by the last call of `process`.
    pub level: u64,
    /// Samples counted since the current state was entered: `process` counts
    /// its sample before it computes the level, and a transition resets it.
    pub elapsed: u64,
}

impl Envelope {
    pub open spec fn wf(&self) -> bool {
        &&& self.sample_rate > 0
        &&& self.sustain <= 1000
        &&& self.level <= UNIT
    }

    /// The sustain level in fixed point.
    pub open spec fn sustain_level(&self) -> int {
        self.sustain * 1000
    }

    /// Both envelopes have the same timings, sustain level and sample rate.
    pub open spec fn same_shape(&self, other: &Envelope) -> bool {
        &&& self.attack_ms == other.attack_ms
        &&& self.decay_ms == other.decay_ms
        &&& self.sustain == other.sustain
        &&& self.release_ms == other.release_ms
        &&& self.sample_rate == other.sample_rate
    }

    /// The sample count that the next call of `process` computes with.
    pub open spec fn counted(&self) -> int {
        count_up(self.elapsed as int)
    }

    /// The level that the next call of `process` computes.
    pub open spec fn level_after(&self) -> int {
        let e = self.counted();
        match self.state {
            EnvelopeState::Idle => 0,
            EnvelopeState::Attack => attack_level(
                e,
                self.attack_ms as int,
                self.sample_rate as int,
            ),
            EnvelopeState::Decay => decay_level(
                e,
                self.decay_ms as int,
                self.sample_rate as int,
                self.sustain_level(),
            ),
            EnvelopeState::Sustain => self.sustain_level(),
            EnvelopeState::Release => release_level(
                e,
                self.release_ms as int,
                self.sample_rate as int,
                self.sustain_level(),
            ),
        }
    }

    /// The state after the next call of `process`.
    pub open spec fn state_after(&self) -> EnvelopeState {
        let e = self.counted();
        let rate = self.sample_rate as int;
        match self.state {
            EnvelopeState::Attack => if reached(e, self.attack_ms as int, rate) {
                EnvelopeState::Decay
            } else {
                EnvelopeState::Attack
            },
            EnvelopeState::Decay => if reached(e, self.decay_ms as int, rate) {
                EnvelopeState::Sustain
            } else {
                EnvelopeState::Decay
            },
            EnvelopeState::Release => if reached(e, self.release_ms as int, rate) {
                EnvelopeState::Idle
            } else {
                EnvelopeState::Release
            },
            s => s,
        }
    }

    /// The sample count after the next call of `process`: zero after a
    /// transition, else the count that the level was computed with.
    pub open spec fn elapsed_after(&self) -> int {
        if self.state_after() != self.state {
            0
        } else {
            self.counted()
        }
    }

    /// The envelope after one call of `process`.
    pub open spec fn stepped(self) -> Envelope {
        Envelope {
            state: self.state_after(),
            level: self.level_after() as u64,
            elapsed: self.elapsed_after() as u64,
            ..self
        }
    }

    /// The envelope after `n` calls of `process`.
    pub open spec fn run(self, n: nat) -> Envelope
        decreases n,
    {
        if n == 0 {
            self
        } else {
            self.stepped().run((n - 1) as nat)
        }
    }

    /// An idle envelope with the default attack, decay, sustain and release.
    pub open spec fn new_spec(sample_rate: u32) -> Envelope {
        Envelope {
            attack_ms: DEFAULT_ATTACK_MS,
            decay_ms: DEFAULT_DECAY_MS,
            sustain: DEFAULT_SUSTAIN,
            release_ms: DEFAULT_RELEASE_MS,
            sample_rate,
            state: EnvelopeState::Idle,
            level: 0,
            elapsed: 0,
        }
    }

    pub fn new(sample_rate: u32) -> (r: Envelope)
        requires
            sample_rate > 0,
        ensures
            r.wf(),
            r == Self::new_spec(sample_rate),
    {
        Envelope {
            attack_ms: DEFAULT_ATTACK_MS,
            decay_ms: DEFAULT_DECAY_MS,
            sustain: DEFAULT_SUSTAIN,
            release_ms: DEFAULT_RELEASE_MS,
            sample_rate,
            state: EnvelopeState::Idle,
            level: 0,
            elapsed: 0,
        }
    }

    /// Starts the attack from its beginning, whatever the current state; the
    /// level reached so far is not carried over.
    pub fn trigger(&mut self)
        requires
            old(self).wf(),
        ensures
            final(self).wf(),
            final(self).same_shape(old(self)),
            final(self).state == EnvelopeState::Attack,
            final(self).elapsed == 0,
            final(self).level == old(self).level,
    {
        self.state = EnvelopeState::Attack;
        self.elapsed = 0;
    }

    /// Moves to the release from any state but Idle, where it does nothing.
    pub fn release(&mut self)
        requires
            old(self).wf(),
        ensures
            final(self).wf(),
            final(self).same_shape(old(self)),
            final(self).level == old(self).level,
            old(self).state == EnvelopeState::Idle ==> *final(self) == *old(self),
            old(self).state != EnvelopeState::Idle ==> final(self).state == EnvelopeState::Release
                && final(self).elapsed == 0,
    {
        match self.state {
            EnvelopeState::Idle => {},
            _ => {
                self.state = EnvelopeState::Release;
                self.elapsed = 0;
            },
        }
    }

    /// Counts one sample, computes the level for the current state, makes any
    /// transition that is due (restarting the count at zero), and returns the
    /// level.
    pub fn process(&mut self) -> (r: u64)
        requires
            old(self).wf(),
        ensures
            *final(self) == old(self).stepped(),
            final(self).wf(),
            r == final(self).level,
            r == old(self).level_after(),
    {
        proof {
            lemma_level_after_in_range(*self);
        }
        if self.elapsed < u64::MAX {
            self.elapsed = self.elapsed + 1;
        }
        let rate = self.sample_rate as u128;
        let t = self.elapsed as u128 * 1000;
        let sustain = self.sustain as u128 * 1000;
        proof {
            lemma_mul_at_most(self.attack_ms as int, rate as int, u32::MAX as int, u32::MAX as int);
            lemma_mul_at_most(self.decay_ms as int, rate as int, u32::MAX as int, u32::MAX as int);
            lemma_mul_at_most(self.release_ms as int, rate as int, u32::MAX as int, u32::MAX as int);
            lemma_mul_at_most(UNIT - sustain, t as int, UNIT as int, u64::MAX * 1000);
            lemma_mul_at_most(sustain as int, t as int, UNIT as int, u64::MAX * 1000);
            lemma_mul_at_most(UNIT as int, t as int, UNIT as int, u64::MAX * 1000);
        }
        match self.state {
            EnvelopeState::Idle => {
                self.level = 0;
            },
            EnvelopeState::Attack => {
                let span = self.attack_ms as u128 * rate;
                if t >= span {
                    self.level = UNIT;
                    self.state = EnvelopeState::Decay;
                    self.elapsed = 0;
                } else {
                    self.level = (UNIT as u128 * t / span) as u64;
                }
            },
            EnvelopeState::Decay => {
                let span = self.decay_ms as u128 * rate;
                let fall = if span == 0 {
                    UNIT as u128 - sustain
                } else {
                    (UNIT as u128 - sustain) * t / span
                };
                self.level = if fall <= UNIT as u128 {
                    (UNIT as u128 - fall) as u64
                } else {
                    0
                };
                if t >= span {
                    self.state = EnvelopeState::Sustain;
                    self.elapsed = 0;
                }
            },
            EnvelopeState::Sustain => {
                self.level = sustain as u64;
            },
            EnvelopeState::Release => {
                let span = self.release_ms as u128 * rate;
                if t >= span {
                    self.level = 0;
                    self.state = EnvelopeState::Idle;
                    self.elapsed = 0;
                } else {
                    let fall = sustain * t / span;
                    self.level = (sustain - fall) as u64;
                }
            },
        }
        self.level
    }
}

/// Every level an envelope yields lies in `[0, UNIT]`, whatever number of
/// samples it has processed.
pub proof fn lemma_level_in_range(e: Envelope, n: nat)
    requires
        e.wf(),
    ensures
        e.run(n).wf(),
        e.run(n).level <= UNIT,
    decreases n,
{
    lemma_level_after_in_range(e);
    if n > 0 {
        lemma_level_in_range(e.stepped(), (n - 1) as nat);
    }
}

/// The attack starts from zero and never falls as time goes on.
pub proof fn lemma_attack_rises(e1: int, e2: int, attack_ms: int, rate: int)
    requires
        0 <= e1 <= e2,
        attack_ms > 0,
        rate > 0,
    ensures
        attack_level(0, attack_ms, rate) == 0,
        attack_level(e1, attack_ms, rate) <= attack_level(e2, attack_ms, rate),
{
    let span = attack_ms * rate;
    lemma_mul_at_most(1, 1, attack_ms, rate);
    lemma_mul_at_most(e1, 1000, e2, 1000);
    if !reached(e2, attack_ms, rate) {
        lemma_mul_at_most(UNIT as int, e1 * 1000, UNIT as int, e2 * 1000);
        lemma_div_is_ordered(UNIT * (e1 * 1000), UNIT * (e2 * 1000), span);
    } else if !reached(e1, attack_ms, rate) {
        lemma_fraction_below(UNIT as int, e1 * 1000, span);
    }
}

/// The release starts from the sustain level and never rises as time goes on.
pub proof fn lemma_release_falls(e1: int, e2: int, release_ms: int, rate: int, sustain: int)
    requires
        0 <= e1 <= e2,
        0 <= sustain,
        release_ms > 0,
        rate > 0,
    ensures
        release_level(0, release_ms, rate, sustain) == sustain,
        release_level(e1, release_ms, rate, sustain) >= release_level(e2, release_ms, rate, sustain),
        release_level(e2, release_ms, rate, sustain) >= 0,
{
    let span = release_ms * rate;
    lemma_mul_at_most(1, 1, release_ms, rate);
    lemma_mul_at_most(e1, 1000, e2, 1000);
    if !reached(e2, release_ms, rate) {
        lemma_mul_at_most(sustain, e1 * 1000, sustain, e2 * 1000);
        lemma_div_is_ordered(sustain * (e1 * 1000), sustain * (e2 * 1000), span);
        lemma_fraction_below(sustain, e2 * 1000, span);
    } else if !reached(e1, release_ms, rate) {
        lemma_fraction_below(sustain, e1 * 1000, span);
    }
}

/// Once idle, an envelope stays idle and yields zero.
pub proof fn lemma_idle_stays(e: Envelope, n: nat)
    requires
        e.wf(),
        e.state == EnvelopeState::Idle,
    ensures
        e.run(n).state == EnvelopeState::Idle,
        n > 0 ==> e.run(n).level == 0,
    decreases n,
{
    if n > 0 {
        lemma_idle_stays(e.stepped(), (n - 1) as nat);
    }
}

/// An envelope in release, `j` samples in, is idle with level zero after
/// `n` more samples once `j + n` samples reach the release time.
proof fn lemma_release_reaches_idle(e: Envelope, n: nat)
    requires
        e.wf(),
        e.state == EnvelopeState::Release,
        n >= 1,
        reached(e.elapsed + n, e.release_ms as int, e.sample_rate as int),
    ensures
        e.run(n).state == EnvelopeState::Idle,
        e.run(n).level == 0,
    decreases n,
{
    lemma_level_after_in_range(e);
    let s = e.stepped();
    lemma_mul_at_most(e.release_ms as int, e.sample_rate as int, u32::MAX as int, u32::MAX as int);
    if reached(e.counted(), e.release_ms as int, e.sample_rate as int) {
        lemma_idle_stays(s, (n - 1) as nat);
    } else {
        assert(e.elapsed < u64::MAX);
        assert(s.elapsed == e.elapsed + 1);
        lemma_release_reaches_idle(s, (n - 1) as nat);
    }
}

/// After `release()`, once `n` samples span the release time, the envelope
/// is idle and its level is exactly zero.
pub proof fn lemma_release_ends(e: Envelope, n: nat)
    requires
        e.wf(),
        e.state == EnvelopeState::Release,
        e.elapsed == 0,
        n >= 1,
        reached(n as int, e.release_ms as int, e.sample_rate as int),
    ensures
        e.run(n).state == EnvelopeState::Idle,
        e.run(n).level == 0,
{
    lemma_release_reaches_idle(e, n);
}

/// A retriggered envelope computes its next level from the start of the
/// attack alone: the level it had reached before plays no part.
pub proof fn lemma_retrigger_discards_level(e: Envelope, level: u64)
    requires
        e.wf(),
        e.state == EnvelopeState::Attack,
        e.elapsed == 0,
    ensures
        e.level_after() == attack_level(1, e.attack_ms as int, e.sample_rate as int),
        (Envelope { level, ..e }).level_after() == e.level_after(),
        (Envelope { level, ..e }).state_after() == e.state_after(),
{
}

/// A product of bounded factors is bounded by the product of the bounds.
pub proof fn lemma_mul_at_most(a: int, b: int, x: int, y: int)
    requires
        0 <= a <= x,
        0 <= b <= y,
    ensures
        0 <= a * b <= x * y,
{
    assert(0 <= a * b <= x * y) by (nonlinear_arith)
        requires
            0 <= a <= x,
            0 <= b <= y,
    ;
}

/// `c * t / span` lies in `[0, c]` when `t` is below `span`.
proof fn lemma_fraction_below(c: int, t: int, span: int)
    requires
        0 <= c,
        0 <= t < span,
    ensures
        0 <= (c * t) / span <= c,
{
    lemma_mul_inequality(t, span, c);
    assert(c * t <= span * c) by (nonlinear_arith)
        requires
            t * c <= span * c,
    ;
    lemma_multiply_divide_le(c * t, span, c);
    assert(0 <= c * t) by (nonlinear_arith)
        requires
            0 <= c,
            0 <= t,
    ;
    lemma_div_pos_is_pos(c * t, span);
}

proof fn lemma_level_after_in_range(e: Envelope)
    requires
        e.wf(),
    ensures
        0 <= e.level_after() <= UNIT,
        e.state == EnvelopeState::Release ==> e.level_after() <= e.sustain_level(),
{
    let t = e.counted() * 1000;
    let rate = e.sample_rate as int;
    let sus = e.sustain_level();
    match e.state {
        EnvelopeState::Attack => {
            if !reached(e.counted(), e.attack_ms as int, rate) {
                lemma_fraction_below(UNIT as int, t, e.attack_ms * rate);
            }
        },
        EnvelopeState::Decay => {
            let span = e.decay_ms * rate;
            if span != 0 {
                lemma_mul_at_most(e.decay_ms as int, rate, e.decay_ms as int, rate);
                lemma_mul_at_most(UNIT - sus, t, UNIT - sus, t);
                lemma_div_pos_is_pos((UNIT - sus) * t, span);
            }
        },
        EnvelopeState::Release => {
            if !reached(e.counted(), e.release_ms as int, rate) {
                lemma_fraction_below(sus, t, e.release_ms * rate);
            }
        },
        _ => {},
    }
}

} // verus!
