use fm_synth::sequencer::Cue;
use fm_synth::oscillator::FMOscillator;
use fm_synth::params::FMParams;
use fm_synth::synth::FMSynth;
use fm_synth::envelope::EnvelopeState;
use fm_synth::UNIT;

fn plain(carrier: u32, modulator: u32, index: u32, amplitude: u32) -> FMParams {
    FMParams { carrier_freq: carrier, modulator_freq: modulator, modulation_index: index, amplitude }
}

#[test]
fn unmodulated_carrier_traces_a_sine() {
    // 2 Hz at 8 samples per second: a quarter cycle per sample
    let mut o = FMOscillator::new(8, plain(2000, 0, 0, 1000));
    assert_eq!(o.next_sample(), 0);
    assert_eq!(o.next_sample(), UNIT as i64);
    assert_eq!(o.next_sample(), 0);
    assert_eq!(o.next_sample(), -(UNIT as i64));
    assert_eq!(o.next_sample(), 0);
    assert_eq!(o.carrier_phase, 2000);
}

#[test]
fn amplitude_scales_the_waveform() {
    let mut o = FMOscillator::new(8, plain(2000, 0, 0, 300));
    o.next_sample();
    assert_eq!(o.next_sample(), 300_000);
    o.next_sample();
    assert_eq!(o.next_sample(), -300_000);
}

#[test]
fn negative_instantaneous_frequency_wraps_into_range() {
    // period 8000; the modulator moves a quarter cycle per sample
    let mut o = FMOscillator::new(8, plain(1000, 2000, 12_000, 1000));
    o.next_sample();
    assert_eq!(o.carrier_phase, 1000);
    o.next_sample();
    assert_eq!(o.carrier_phase, 6000);
    o.next_sample();
    assert_eq!(o.carrier_phase, 7000);
    o.next_sample();
    assert_eq!(o.carrier_phase, 4000);
    assert_eq!(o.modulator_phase, 0);
}

#[test]
fn phases_stay_in_range_for_extreme_parameters() {
    let mut o = FMOscillator::new(44_100, plain(u32::MAX, u32::MAX, u32::MAX, 1000));
    for _ in 0..10_000 {
        let s = o.next_sample();
        assert!(s >= -(UNIT as i64) && s <= UNIT as i64);
        assert!(o.carrier_phase < 44_100_000);
        assert!(o.modulator_phase < 44_100_000);
    }
}

#[test]
fn set_params_keeps_phases() {
    let mut o = FMOscillator::new(8, plain(2000, 3000, 0, 1000));
    o.next_sample();
    let (c, m) = (o.carrier_phase, o.modulator_phase);
    o.set_params(plain(1000, 1000, 500, 200));
    assert_eq!((o.carrier_phase, o.modulator_phase), (c, m));
    assert_eq!(o.params, plain(1000, 1000, 500, 200));
}

#[test]
fn default_params_match_documentation() {
    assert_eq!(FMParams::default(), plain(440_000, 220_000, 2000, 300));
}

#[test]
fn scaling_to_a_pitch_moves_both_frequencies() {
    let bell = plain(440_000, 440_000, 7000, 300);
    assert_eq!(bell.scaled_to(261_630), plain(261_630, 261_630, 7000, 300));
    let bass = plain(110_000, 110_000, 1500, 500);
    assert_eq!(bass.scaled_to(261_630), plain(65_407, 65_407, 1500, 500));
    let huge = plain(u32::MAX, 1, 0, 0);
    assert_eq!(huge.scaled_to(880_000), plain(u32::MAX, 2, 0, 0));
}

#[test]
fn silent_voice_until_note_on() {
    let mut s = FMSynth::new(8, plain(2000, 0, 0, 1000));
    for _ in 0..4 {
        assert_eq!(s.next_sample(), 0);
    }
    s.note_on();
    assert_eq!(s.envelope.state, EnvelopeState::Attack);
    s.note_off();
    assert_eq!(s.envelope.state, EnvelopeState::Release);
}

#[test]
fn voice_multiplies_oscillator_by_envelope() {
    // at 1000 samples per second the attack takes 10 samples
    let mut s = FMSynth::new(1000, plain(250_000, 0, 0, 1000));
    s.note_on();
    let samples: Vec<i64> = (0..3).map(|_| s.next_sample()).collect();
    // oscillator: 0, then a quarter cycle (UNIT); envelope: 0.1, then 0.2
    assert_eq!(samples[0], 0);
    assert_eq!(samples[1], 200_000);
    assert_eq!(samples[2], 0);
}

#[test]
fn fill_buffer_matches_sample_by_sample() {
    let p = plain(440_000, 220_000, 2000, 300);
    let mut a = FMSynth::new(48_000, p);
    let mut b = FMSynth::new(48_000, p);
    a.note_on();
    b.note_on();
    let mut buffer = vec![7i64; 256];
    a.fill_buffer(&mut buffer);
    let expected: Vec<i64> = (0..256).map(|_| b.next_sample()).collect();
    assert_eq!(buffer, expected);
    assert!(buffer.iter().any(|&s| s != 0));
    assert_eq!(a.next_sample(), b.next_sample());
}

#[test]
fn cues_drive_the_voice() {
    let p = plain(440_000, 220_000, 2000, 300);
    let mut s = FMSynth::new(48_000, p);
    assert_eq!(s.apply(Cue::Wait(300)), Some(300));
    assert_eq!(s.envelope.state, EnvelopeState::Idle);
    assert_eq!(s.apply(Cue::NoteOff), None);
    assert_eq!(s.envelope.state, EnvelopeState::Idle);
    let q = plain(261_630, 261_630, 7000, 300);
    assert_eq!(s.apply(Cue::NoteOn(q)), None);
    assert_eq!(s.oscillator.params, q);
    assert_eq!(s.envelope.state, EnvelopeState::Attack);
    assert_eq!(s.apply(Cue::NoteOff), None);
    assert_eq!(s.envelope.state, EnvelopeState::Release);
}

#[test]
fn idle_voice_renders_silence_through_a_rest() {
    let mut s = FMSynth::new(48_000, plain(440_000, 220_000, 2000, 300));
    s.note_on();
    for _ in 0..2000 {
        s.next_sample();
    }
    s.note_off();
    // the release lasts 24000 samples
    for _ in 0..24_000 {
        s.next_sample();
    }
    assert_eq!(s.envelope.state, EnvelopeState::Idle);
    // a rest of 300 ms
    let mut buffer = vec![1i64; 14_400];
    s.fill_buffer(&mut buffer);
    assert!(buffer.iter().all(|&x| x == 0));
}
