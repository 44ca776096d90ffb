//! One FM voice: the oscillator pair shaped by the envelope, sample by sample.
use vstd::prelude::*;
use crate::envelope::Envelope;
use crate::oscillator::{FMOscillator, scale};
use crate::params::FMParams;
use crate::sequencer::Cue;
use crate::envelope::EnvelopeState;
use crate::UNIT;

verus! {

pub struct FMSynth {
    pub oscillator: FMOscillator,
    pub envelope: Envelope,
}

impl FMSynth {
    pub open spec fn wf(&self) -> bool {
        self.oscillator.wf() && self.envelope.wf()
    }

    /// The sample that the next call of `next_sample` returns: the
    /// oscillator's output times the envelope's level.
    pub open spec fn sample_after(&self) -> int {
        scale(self.oscillator.sample_after(), self.envelope.level_after(), UNIT as int)
    }

    /// The voice after one call of `next_sample`.
    pub open spec fn stepped(self) -> FMSynth {
        FMSynth { oscillator: self.oscillator.stepped(), envelope: self.envelope.stepped() }
    }

    /// The voice after `n` calls of `next_sample`.
    pub open spec fn run(self, n: nat) -> FMSynth
        decreases n,
    {
        if n == 0 {
            self
        } else {
            self.stepped().run((n - 1) as nat)
        }
    }

    /// A silent voice with the given parameters and the default envelope.
    pub fn new(sample_rate: u32, params: FMParams) -> (r: FMSynth)
        requires
            sample_rate > 0,
            params.wf(),
        ensures
            r.wf(),
            r.oscillator == FMOscillator::new_spec(sample_rate, params),
            r.envelope == Envelope::new_spec(sample_rate),
    {
        FMSynth { oscillator: FMOscillator::new(sample_rate, params), envelope: Envelope::new(sample_rate) }
    }

    pub fn next_sample(&mut self) -> (r: i64)
        requires
            old(self).wf(),
        ensures
            *final(self) == old(self).stepped(),
            final(self).wf(),
            r == old(self).sample_after(),
            -(UNIT as int) <= r <= UNIT,
    {
        let osc = self.oscillator.next_sample();
        let env = self.envelope.process();
        proof {
            crate::oscillator::lemma_scale_bound(osc as int, env as int, UNIT as int);
            vstd::arithmetic::div_mod::lemma_div_is_ordered(UNIT * env, UNIT * UNIT, UNIT as int);
            vstd::arithmetic::div_mod::lemma_div_multiples_vanish(UNIT as int, UNIT as int);
            crate::envelope::lemma_mul_at_most(UNIT as int, env as int, UNIT as int, UNIT as int);
        }
        crate::oscillator::scale_toward_zero(osc, env, UNIT)
    }

    /// Starts a note: the envelope restarts its attack.
    pub fn note_on(&mut self)
        requires
            old(self).wf(),
        ensures
            final(self).wf(),
            final(self).oscillator == old(self).oscillator,
            final(self).envelope.same_shape(&old(self).envelope),
            final(self).envelope.state == crate::envelope::EnvelopeState::Attack,
            final(self).envelope.elapsed == 0,
            final(self).envelope.level == old(self).envelope.level,
    {
        self.envelope.trigger();
    }

    /// Ends a note: the envelope moves to its release unless it is idle.
    pub fn note_off(&mut self)
        requires
            old(self).wf(),
        ensures
            final(self).wf(),
            final(self).oscillator == old(self).oscillator,
            final(self).envelope.same_shape(&old(self).envelope),
            final(self).envelope.level == old(self).envelope.level,
            old(self).envelope.state == crate::envelope::EnvelopeState::Idle ==> *final(self) == *old(self),
            old(self).envelope.state != crate::envelope::EnvelopeState::Idle
                ==> final(self).envelope.state == crate::envelope::EnvelopeState::Release
                && final(self).envelope.elapsed == 0,
    {
        self.envelope.release();
    }

    /// Replaces the oscillator's parameters; the envelope is untouched.
    pub fn set_params(&mut self, params: FMParams)
        requires
            old(self).wf(),
            params.wf(),
        ensures
            final(self).wf(),
            final(self).envelope == old(self).envelope,
            final(self).oscillator == (FMOscillator { params, ..old(self).oscillator }),
    {
        self.oscillator.set_params(params);
    }

    /// Carries out one cue on the voice: a note start applies its parameters
    /// and triggers the envelope, a release releases it, and a wait leaves
    /// the voice alone and returns its length in milliseconds.
    pub fn apply(&mut self, cue: Cue) -> (r: Option<u64>)
        requires
            old(self).wf(),
            cue matches Cue::NoteOn(p) ==> p.wf(),
        ensures
            final(self).wf(),
            match cue {
                Cue::NoteOn(p) => r is None
                    && final(self).oscillator == (FMOscillator { params: p, ..old(self).oscillator })
                    && final(self).envelope == (Envelope {
                        state: EnvelopeState::Attack,
                        elapsed: 0,
                        ..old(self).envelope
                    }),
                Cue::NoteOff => r is None
                    && final(self).oscillator == old(self).oscillator
                    && (old(self).envelope.state == EnvelopeState::Idle ==> *final(self) == *old(self))
                    && (old(self).envelope.state != EnvelopeState::Idle ==> final(self).envelope == (Envelope {
                        state: EnvelopeState::Release,
                        elapsed: 0,
                        ..old(self).envelope
                    })),
                Cue::Wait(ms) => r == Some(ms) && *final(self) == *old(self),
            },
    {
        match cue {
            Cue::NoteOn(p) => {
                self.set_params(p);
                self.note_on();
                None
            },
            Cue::NoteOff => {
                self.note_off();
                None
            },
            Cue::Wait(ms) => Some(ms),
        }
    }

    /// Overwrites every slot of `buffer` with the next samples, in order.
    pub fn fill_buffer(&mut self, buffer: &mut Vec<i64>)
        requires
            old(self).wf(),
        ensures
            final(self).wf(),
            *final(self) == old(self).run(old(buffer)@.len()),
            final(buffer)@.len() == old(buffer)@.len(),
            forall|i: int|
                0 <= i < old(buffer)@.len() ==> final(buffer)@[i] == old(self).run(i as nat).sample_after(),
    {
        let ghost start = *self;
        let n = buffer.len();
        let mut i: usize = 0;
        while i < n
            invariant
                0 <= i <= n,
                n == old(buffer)@.len(),
                buffer@.len() == n,
                start == *old(self),
                self.wf(),
                *self == start.run(i as nat),
                forall|j: int| 0 <= j < i ==> buffer@[j] == start.run(j as nat).sample_after(),
            decreases n - i,
        {
            proof {
                lemma_run_step(start, i as nat);
            }
            let s = self.next_sample();
            buffer.set(i, s);
            i = i + 1;
        }
    }
}

/// A voice whose envelope is idle stays idle and renders silence, however
/// many samples it renders, until a note starts.
pub proof fn lemma_idle_voice_is_silent(s: FMSynth, n: nat)
    requires
        s.wf(),
        s.envelope.state == EnvelopeState::Idle,
    ensures
        s.run(n).wf(),
        s.run(n).envelope.state == EnvelopeState::Idle,
        s.run(n).sample_after() == 0,
    decreases n,
{
    let o = s.oscillator;
    crate::oscillator::lemma_phases_in_range(o, 1);
    assert(o.run(1) == o.stepped()) by {
        assert(o.stepped().run(0) == o.stepped());
    }
    crate::envelope::lemma_level_in_range(s.envelope, 1);
    assert(s.envelope.run(1) == s.envelope.stepped()) by {
        assert(s.envelope.stepped().run(0) == s.envelope.stepped());
    }
    assert(s.sample_after() == 0);
    if n > 0 {
        lemma_idle_voice_is_silent(s.stepped(), (n - 1) as nat);
    }
}

/// One more step after `n` steps is `n + 1` steps.
proof fn lemma_run_step(s: FMSynth, n: nat)
    ensures
        s.run(n).stepped() == s.run(n + 1),
    decreases n,
{
    if n > 0 {
        lemma_run_step(s.stepped(), (n - 1) as nat);
    } else {
        assert(s.run(1) == s.stepped().run(0));
    }
}

} // verus!
