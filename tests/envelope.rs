use fm_synth::envelope::{Envelope, EnvelopeState};
use fm_synth::UNIT;

const RATE: u32 = 48_000;

#[test]
fn new_envelope_is_idle_and_silent() {
    let mut e = Envelope::new(RATE);
    assert_eq!(e.state, EnvelopeState::Idle);
    for _ in 0..10 {
        assert_eq!(e.process(), 0);
    }
    assert_eq!(e.state, EnvelopeState::Idle);
}

#[test]
fn attack_rises_to_full_then_decays() {
    let mut e = Envelope::new(RATE);
    e.trigger();
    assert_eq!(e.process(), 2083);
    assert_eq!(e.elapsed, 1);
    assert_eq!(e.process(), 4166);
    let mut last = 4166;
    // the attack lasts 10 ms: 480 samples at 48 kHz
    for _ in 2..479 {
        let level = e.process();
        assert!(level >= last);
        assert!(level < UNIT);
        last = level;
    }
    assert_eq!(e.state, EnvelopeState::Attack);
    assert_eq!(e.elapsed, 479);
    assert_eq!(e.process(), UNIT);
    assert_eq!(e.state, EnvelopeState::Decay);
    assert_eq!(e.elapsed, 0);
    assert_eq!(e.process(), 999_938);
    assert_eq!(e.elapsed, 1);
}

#[test]
fn decay_settles_at_sustain() {
    let mut e = Envelope::new(RATE);
    e.trigger();
    for _ in 0..480 {
        e.process();
    }
    assert_eq!(e.state, EnvelopeState::Decay);
    assert_eq!(e.elapsed, 0);
    // the decay lasts 100 ms: 4800 samples
    for _ in 0..4799 {
        let level = e.process();
        assert!(level > 700_000 && level <= UNIT);
    }
    assert_eq!(e.state, EnvelopeState::Decay);
    assert_eq!(e.process(), 700_000);
    assert_eq!(e.state, EnvelopeState::Sustain);
    assert_eq!(e.elapsed, 0);
    for _ in 0..1000 {
        assert_eq!(e.process(), 700_000);
    }
}

#[test]
fn decay_shorter_than_a_sample_count_uses_formula() {
    // 1 ms at 1500 samples per second: the decay ends 1.5 samples in
    let mut e = Envelope::new(1500);
    e.decay_ms = 1;
    e.sustain = 200;
    e.trigger();
    for _ in 0..15 {
        e.process();
    }
    assert_eq!(e.state, EnvelopeState::Decay);
    // 1 - 0.8 * (1 / 1.5)
    assert_eq!(e.process(), 466_667);
    // 1 - 0.8 * (2 / 1.5) falls below zero: held at zero
    assert_eq!(e.process(), 0);
    assert_eq!(e.state, EnvelopeState::Sustain);
    assert_eq!(e.process(), 200_000);
}

#[test]
fn release_falls_to_exact_zero_and_idles() {
    let mut e = Envelope::new(RATE);
    e.trigger();
    for _ in 0..6000 {
        e.process();
    }
    assert_eq!(e.state, EnvelopeState::Sustain);
    e.release();
    assert_eq!(e.state, EnvelopeState::Release);
    assert_eq!(e.elapsed, 0);
    assert_eq!(e.process(), 699_971);
    let mut last = 699_971;
    // the release lasts 500 ms: 24000 samples
    for _ in 1..23_999 {
        let level = e.process();
        assert!(level <= last);
        last = level;
    }
    assert_eq!(e.state, EnvelopeState::Release);
    assert_eq!(e.process(), 0);
    assert_eq!(e.state, EnvelopeState::Idle);
    assert_eq!(e.elapsed, 0);
    assert_eq!(e.level, 0);
    assert_eq!(e.process(), 0);
}

#[test]
fn release_while_idle_does_nothing() {
    let mut e = Envelope::new(RATE);
    e.release();
    assert_eq!(e.state, EnvelopeState::Idle);
    assert_eq!(e.process(), 0);
}

#[test]
fn retrigger_restarts_attack_from_any_state() {
    for steps in [100usize, 1000, 7000] {
        let mut e = Envelope::new(RATE);
        e.trigger();
        for _ in 0..steps {
            e.process();
        }
        if steps == 7000 {
            e.release();
            e.process();
            assert_eq!(e.state, EnvelopeState::Release);
        }
        e.trigger();
        assert_eq!(e.state, EnvelopeState::Attack);
        assert_eq!(e.elapsed, 0);
        assert_eq!(e.process(), 2083);
    }
}

#[test]
fn levels_stay_within_unit() {
    let mut e = Envelope::new(44_100);
    for i in 0..60_000u32 {
        if i % 20_000 == 0 {
            e.trigger();
        }
        if i % 20_000 == 9_000 {
            e.release();
        }
        let level = e.process();
        assert!(level <= UNIT);
    }
}
