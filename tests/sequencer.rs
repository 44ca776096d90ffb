use fm_synth::params::FMParams;
use fm_synth::sequencer::{sequence, Cue, TAIL_MS};
use fm_synth::tables::{demo_scale, get_melodies, get_presets};

fn bell() -> FMParams {
    FMParams { carrier_freq: 440_000, modulator_freq: 440_000, modulation_index: 7000, amplitude: 300 }
}

fn times(cues: &[Cue]) -> Vec<(u64, Cue)> {
    let mut t = 0u64;
    let mut out = Vec::new();
    for c in cues {
        match c {
            Cue::Wait(ms) => t += ms,
            other => out.push((t, *other)),
        }
    }
    out
}

#[test]
fn sounding_note_is_held_four_fifths() {
    let cues = sequence(bell(), &vec![("A4", 500)]);
    assert_eq!(
        cues,
        vec![Cue::NoteOn(bell()), Cue::Wait(400), Cue::NoteOff, Cue::Wait(100), Cue::Wait(TAIL_MS)]
    );
}

#[test]
fn uneven_durations_still_add_up() {
    let cues = sequence(bell(), &vec![("C4", 3), ("C4", 151)]);
    assert_eq!(cues[1], Cue::Wait(2));
    assert_eq!(cues[3], Cue::Wait(1));
    assert_eq!(cues[5], Cue::Wait(120));
    assert_eq!(cues[7], Cue::Wait(31));
    let total: u64 = cues.iter().map(|c| if let Cue::Wait(ms) = c { *ms } else { 0 }).sum();
    assert_eq!(total, 3 + 151 + TAIL_MS);
}

#[test]
fn rest_is_plain_silence() {
    let cues = sequence(bell(), &vec![("REST", 300)]);
    assert_eq!(cues, vec![Cue::Wait(300), Cue::Wait(TAIL_MS)]);
}

#[test]
fn twinkle_with_bell_timeline() {
    let melodies = get_melodies();
    let cues = sequence(bell(), &melodies[0].1);
    let events = times(&cues);
    let c4 = FMParams { carrier_freq: 261_630, modulator_freq: 261_630, modulation_index: 7000, amplitude: 300 };
    assert_eq!(events[0], (0, Cue::NoteOn(c4)));
    assert_eq!(events[1], (400, Cue::NoteOff));
    assert_eq!(events[2], (500, Cue::NoteOn(c4)));
    assert_eq!(events.len(), 2 * 14);
    let total: u64 = cues.iter().map(|c| if let Cue::Wait(ms) = c { *ms } else { 0 }).sum();
    assert_eq!(total, 8000 + TAIL_MS);
}

#[test]
fn synth_demo_rest_touches_nothing() {
    let melodies = get_melodies();
    assert_eq!(melodies[9].0, "Synth Demo");
    let cues = sequence(bell(), &melodies[9].1);
    let ons = cues.iter().filter(|c| matches!(c, Cue::NoteOn(_))).count();
    let offs = cues.iter().filter(|c| matches!(c, Cue::NoteOff)).count();
    assert_eq!(ons, 18);
    assert_eq!(offs, 18);
    // the eleventh note ends at 1800 ms; the rest runs to 2100 ms
    let events = times(&cues);
    assert_eq!(events[21], (1800 - 60, Cue::NoteOff));
    assert_eq!(events[22].0, 2100);
}

#[test]
fn tables_have_their_entries() {
    let presets = get_presets();
    assert_eq!(presets.len(), 12);
    assert_eq!(presets[0].0, "Bell");
    assert_eq!(presets[0].1, bell());
    assert_eq!(presets[5].0, "Synth Lead");
    assert_eq!(presets[5].1.amplitude, 350);
    assert_eq!(presets[11].0, "Wood Block");
    assert_eq!(presets[11].1.modulation_index, 12_000);
    let melodies = get_melodies();
    assert_eq!(melodies.len(), 10);
    assert_eq!(melodies[0].0, "Twinkle Twinkle");
    assert_eq!(melodies[0].1.len(), 14);
    assert_eq!(melodies[9].1[11], ("REST", 300));
    assert_eq!(demo_scale().len(), 8);
    assert_eq!(demo_scale()[7], ("C5", 600));
}
