use fm_synth::catalog::{position_containing, position_equal, Catalog, PlayError};
use fm_synth::params::FMParams;
use fm_synth::sequencer::Cue;

fn names(v: &[&str]) -> Vec<String> {
    v.iter().map(|s| s.to_string()).collect()
}

#[test]
fn preset_by_number() {
    let c = Catalog::new();
    let bass = FMParams { carrier_freq: 110_000, modulator_freq: 110_000, modulation_index: 1500, amplitude: 500 };
    assert_eq!(c.find_preset("2"), Some(bass));
    assert_eq!(c.find_preset("+2"), Some(bass));
    assert_eq!(c.find_preset("12").unwrap().modulator_freq, 300_000);
    assert_eq!(c.find_preset("0"), None);
    assert_eq!(c.find_preset("13"), None);
    assert_eq!(c.find_preset("-1"), None);
}

#[test]
fn preset_by_name_ignores_case_but_not_parts() {
    let c = Catalog::new();
    assert_eq!(c.find_preset("bell"), c.find_preset("1"));
    assert_eq!(c.find_preset("BELL"), c.find_preset("1"));
    assert_eq!(c.find_preset("synth lead"), c.find_preset("6"));
    assert_eq!(c.find_preset("synth"), None);
    assert_eq!(c.find_preset("nonexistent"), None);
}

#[test]
fn melody_by_number_and_by_part_of_name() {
    let c = Catalog::new();
    let twinkle = c.find_melody("1").unwrap();
    assert_eq!(twinkle.len(), 14);
    assert_eq!(c.find_melody("twinkle"), Some(twinkle.clone()));
    assert_eq!(c.find_melody("TWINKLE twinkle"), Some(twinkle.clone()));
    assert_eq!(c.find_melody("lamb").unwrap()[0], ("E4", 500));
    assert_eq!(c.find_melody("2"), c.find_melody("birthday"));
    assert_eq!(c.find_melody("11"), None);
    assert_eq!(c.find_melody("bell"), None);
    assert_eq!(c.find_melody(""), Some(twinkle));
}

#[test]
fn positions_on_given_names() {
    let v = names(&["bell", "bass", "bass"]);
    assert_eq!(position_equal(&v, "bass"), Some(1));
    assert_eq!(position_equal(&v, "bas"), None);
    assert_eq!(position_equal(&v, "Bass"), None);
    assert_eq!(position_containing(&v, "as"), Some(1));
    assert_eq!(position_containing(&v, "l"), Some(0));
    assert_eq!(position_containing(&v, ""), Some(0));
    assert_eq!(position_containing(&v, "x"), None);
    assert_eq!(position_containing(&names(&[]), ""), None);
}

#[test]
fn listings_are_numbered_lines() {
    let c = Catalog::new();
    let presets = c.list_presets();
    assert!(presets.starts_with("1. Bell\n2. Bass\n3. Electric Piano\n"));
    assert!(presets.ends_with("\n10. Metallic\n11. Glockenspiel\n12. Wood Block"));
    assert_eq!(presets.lines().count(), 12);
    let melodies = c.list_melodies();
    assert!(melodies.starts_with("1. Twinkle Twinkle\n2. Happy Birthday\n"));
    assert!(melodies.ends_with("\n10. Synth Demo"));
}

#[test]
fn unknown_preset_is_reported_first() {
    let c = Catalog::new();
    assert_eq!(c.prepare("nonexistent", "Bell").unwrap_err(), PlayError::PresetNotFound);
    assert_eq!(c.prepare("nonexistent", "nonexistent").unwrap_err(), PlayError::PresetNotFound);
    assert_eq!(c.prepare("bell", "nonexistent").unwrap_err(), PlayError::MelodyNotFound);
    assert_eq!(c.prepare("1", "99").unwrap_err(), PlayError::MelodyNotFound);
}

#[test]
fn play_bell_twinkle_cues() {
    let c = Catalog::new();
    let cues = c.prepare("Bell", "Twinkle Twinkle").unwrap();
    let c4 = FMParams { carrier_freq: 261_630, modulator_freq: 261_630, modulation_index: 7000, amplitude: 300 };
    assert_eq!(&cues[..5], &[Cue::NoteOn(c4), Cue::Wait(400), Cue::NoteOff, Cue::Wait(100), Cue::NoteOn(c4)]);
    assert_eq!(c.prepare_indexed(0, 0), Some(cues));
}

#[test]
fn indexed_play_checks_range() {
    let c = Catalog::new();
    assert!(c.prepare_indexed(11, 9).is_some());
    assert_eq!(c.prepare_indexed(12, 0), None);
    assert_eq!(c.prepare_indexed(0, 10), None);
}

#[test]
fn numbers_read_like_usize() {
    let c = Catalog::new();
    assert_eq!(c.find_preset("0002"), c.find_preset("2"));
    assert_eq!(c.find_preset("+"), None);
    assert_eq!(c.find_preset("2 "), None);
    assert_eq!(c.find_preset("18446744073709551617"), None);
    assert_eq!(c.find_preset("18446744073709551615"), None);
    assert_eq!(c.find_melody("+10").unwrap().len(), 19);
}

#[test]
fn demo_plays_the_scale_with_every_preset() {
    let c = Catalog::new();
    let demo = c.demo_cues();
    assert_eq!(demo.len(), 12);
    for (cues, (_, preset)) in demo.iter().zip(c.presets.iter()) {
        let c4 = preset.scaled_to(261_630);
        assert_eq!(cues[0], Cue::NoteOn(c4));
        assert_eq!(cues.len(), 8 * 4 + 1);
    }
    assert_eq!(demo[0][29], Cue::Wait(480));
}
