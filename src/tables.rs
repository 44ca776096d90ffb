//! The built-in presets and melodies. A melody is a list of note names with
//! durations in milliseconds; `"REST"` stands for silence.
use vstd::prelude::*;
use crate::params::FMParams;

verus! {

/// The presets in order: name and parameters.
pub open spec fn preset_table() -> Seq<(Seq<char>, FMParams)> {
    seq![
        ("Bell"@, FMParams { carrier_freq: 440_000, modulator_freq: 440_000, modulation_index: 7_000, amplitude: 300 }),
        ("Bass"@, FMParams { carrier_freq: 110_000, modulator_freq: 110_000, modulation_index: 1_500, amplitude: 500 }),
        ("Electric Piano"@, FMParams { carrier_freq: 440_000, modulator_freq: 880_000, modulation_index: 3_000, amplitude: 400 }),
        ("Brass"@, FMParams { carrier_freq: 440_000, modulator_freq: 440_000, modulation_index: 2_500, amplitude: 400 }),
        ("Organ"@, FMParams { carrier_freq: 440_000, modulator_freq: 880_000, modulation_index: 1_000, amplitude: 400 }),
        ("Synth Lead"@, FMParams { carrier_freq: 440_000, modulator_freq: 1320_000, modulation_index: 4_000, amplitude: 350 }),
        ("Marimba"@, FMParams { carrier_freq: 440_000, modulator_freq: 440_000, modulation_index: 3_500, amplitude: 400 }),
        ("Strings"@, FMParams { carrier_freq: 440_000, modulator_freq: 220_000, modulation_index: 800, amplitude: 300 }),
        ("Flute"@, FMParams { carrier_freq: 440_000, modulator_freq: 440_000, modulation_index: 500, amplitude: 250 }),
        ("Metallic"@, FMParams { carrier_freq: 440_000, modulator_freq: 567_000, modulation_index: 9_000, amplitude: 300 }),
        ("Glockenspiel"@, FMParams { carrier_freq: 440_000, modulator_freq: 1760_000, modulation_index: 2_500, amplitude: 300 }),
        ("Wood Block"@, FMParams { carrier_freq: 440_000, modulator_freq: 300_000, modulation_index: 12_000, amplitude: 400 }),
    ]
}

/// The melodies in order: name and notes.
pub open spec fn melody_table() -> Seq<(Seq<char>, Seq<(Seq<char>, u64)>)> {
    seq![
        ("Twinkle Twinkle"@, seq![("C4"@, 500), ("C4"@, 500), ("G4"@, 500), ("G4"@, 500), ("A4"@, 500), ("A4"@, 500), ("G4"@, 1000), ("F4"@, 500), ("F4"@, 500), ("E4"@, 500), ("E4"@, 500), ("D4"@, 500), ("D4"@, 500), ("C4"@, 1000)]),
        ("Happy Birthday"@, seq![("C4"@, 250), ("C4"@, 250), ("D4"@, 500), ("C4"@, 500), ("F4"@, 500), ("E4"@, 1000), ("C4"@, 250), ("C4"@, 250), ("D4"@, 500), ("C4"@, 500), ("G4"@, 500), ("F4"@, 1000)]),
        ("Ode to Joy"@, seq![("E4"@, 500), ("E4"@, 500), ("F4"@, 500), ("G4"@, 500), ("G4"@, 500), ("F4"@, 500), ("E4"@, 500), ("D4"@, 500), ("C4"@, 500), ("C4"@, 500), ("D4"@, 500), ("E4"@, 500), ("E4"@, 750), ("D4"@, 250), ("D4"@, 1000)]),
        ("Mary Had a Little Lamb"@, seq![("E4"@, 500), ("D4"@, 500), ("C4"@, 500), ("D4"@, 500), ("E4"@, 500), ("E4"@, 500), ("E4"@, 1000), ("D4"@, 500), ("D4"@, 500), ("D4"@, 1000), ("E4"@, 500), ("G4"@, 500), ("G4"@, 1000)]),
        ("Chromatic Scale"@, seq![("C4"@, 200), ("C#4"@, 200), ("D4"@, 200), ("D#4"@, 200), ("E4"@, 200), ("F4"@, 200), ("F#4"@, 200), ("G4"@, 200), ("G#4"@, 200), ("A4"@, 200), ("A#4"@, 200), ("B4"@, 200), ("C5"@, 400)]),
        ("Major Arpeggio"@, seq![("C4"@, 300), ("E4"@, 300), ("G4"@, 300), ("C5"@, 300), ("G4"@, 300), ("E4"@, 300), ("C4"@, 600)]),
        ("Minor Pentatonic"@, seq![("A3"@, 400), ("C4"@, 400), ("D4"@, 400), ("E4"@, 400), ("G4"@, 400), ("A4"@, 400), ("G4"@, 400), ("E4"@, 400), ("D4"@, 400), ("C4"@, 400), ("A3"@, 800)]),
        ("Jazz Lick"@, seq![("C4"@, 200), ("E4"@, 200), ("G4"@, 200), ("A#4"@, 200), ("A4"@, 400), ("F4"@, 200), ("D4"@, 400), ("G4"@, 200), ("E4"@, 200), ("C4"@, 600)]),
        ("Bach Invention"@, seq![("C4"@, 200), ("D4"@, 200), ("E4"@, 200), ("F4"@, 200), ("D4"@, 200), ("E4"@, 200), ("C4"@, 400), ("G4"@, 200), ("F4"@, 200), ("E4"@, 200), ("D4"@, 200), ("B3"@, 200), ("C4"@, 600)]),
        ("Synth Demo"@, seq![("C4"@, 150), ("E4"@, 150), ("G4"@, 150), ("C5"@, 150), ("E5"@, 150), ("G5"@, 150), ("E5"@, 150), ("C5"@, 150), ("G4"@, 150), ("E4"@, 150), ("C4"@, 300), ("REST"@, 300), ("F4"@, 150), ("A4"@, 150), ("C5"@, 150), ("F5"@, 150), ("C5"@, 150), ("A4"@, 150), ("F4"@, 300)]),
    ]
}

/// The names and parameters of a list of presets.
pub open spec fn presets_view(s: Seq<(&str, FMParams)>) -> Seq<(Seq<char>, FMParams)> {
    s.map_values(|e: (&str, FMParams)| (e.0@, e.1))
}

pub fn get_presets() -> (r: Vec<(&'static str, FMParams)>)
    ensures
        presets_view(r@) == preset_table(),
        forall|i: int| 0 <= i < r@.len() ==> (#[trigger] r@[i]).1.wf(),
{
    let r = vec![
        ("Bell", FMParams { carrier_freq: 440_000, modulator_freq: 440_000, modulation_index: 7_000, amplitude: 300 }),
        ("Bass", FMParams { carrier_freq: 110_000, modulator_freq: 110_000, modulation_index: 1_500, amplitude: 500 }),
        ("Electric Piano", FMParams { carrier_freq: 440_000, modulator_freq: 880_000, modulation_index: 3_000, amplitude: 400 }),
        ("Brass", FMParams { carrier_freq: 440_000, modulator_freq: 440_000, modulation_index: 2_500, amplitude: 400 }),
        ("Organ", FMParams { carrier_freq: 440_000, modulator_freq: 880_000, modulation_index: 1_000, amplitude: 400 }),
        ("Synth Lead", FMParams { carrier_freq: 440_000, modulator_freq: 1320_000, modulation_index: 4_000, amplitude: 350 }),
        ("Marimba", FMParams { carrier_freq: 440_000, modulator_freq: 440_000, modulation_index: 3_500, amplitude: 400 }),
        ("Strings", FMParams { carrier_freq: 440_000, modulator_freq: 220_000, modulation_index: 800, amplitude: 300 }),
        ("Flute", FMParams { carrier_freq: 440_000, modulator_freq: 440_000, modulation_index: 500, amplitude: 250 }),
        ("Metallic", FMParams { carrier_freq: 440_000, modulator_freq: 567_000, modulation_index: 9_000, amplitude: 300 }),
        ("Glockenspiel", FMParams { carrier_freq: 440_000, modulator_freq: 1760_000, modulation_index: 2_500, amplitude: 300 }),
        ("Wood Block", FMParams { carrier_freq: 440_000, modulator_freq: 300_000, modulation_index: 12_000, amplitude: 400 }),
    ];
    assert(presets_view(r@) =~= preset_table());
    r
}

pub fn get_melodies() -> (r: Vec<(&'static str, Vec<(&'static str, u64)>)>)
    ensures
        r.deep_view() == melody_table(),
{
    let notes0 = vec![("C4", 500), ("C4", 500), ("G4", 500), ("G4", 500), ("A4", 500), ("A4", 500), ("G4", 1000), ("F4", 500), ("F4", 500), ("E4", 500), ("E4", 500), ("D4", 500), ("D4", 500), ("C4", 1000)];
    assert(notes0.deep_view() =~= melody_table()[0].1);
    let notes1 = vec![("C4", 250), ("C4", 250), ("D4", 500), ("C4", 500), ("F4", 500), ("E4", 1000), ("C4", 250), ("C4", 250), ("D4", 500), ("C4", 500), ("G4", 500), ("F4", 1000)];
    assert(notes1.deep_view() =~= melody_table()[1].1);
    let notes2 = vec![("E4", 500), ("E4", 500), ("F4", 500), ("G4", 500), ("G4", 500), ("F4", 500), ("E4", 500), ("D4", 500), ("C4", 500), ("C4", 500), ("D4", 500), ("E4", 500), ("E4", 750), ("D4", 250), ("D4", 1000)];
    assert(notes2.deep_view() =~= melody_table()[2].1);
    let notes3 = vec![("E4", 500), ("D4", 500), ("C4", 500), ("D4", 500), ("E4", 500), ("E4", 500), ("E4", 1000), ("D4", 500), ("D4", 500), ("D4", 1000), ("E4", 500), ("G4", 500), ("G4", 1000)];
    assert(notes3.deep_view() =~= melody_table()[3].1);
    let notes4 = vec![("C4", 200), ("C#4", 200), ("D4", 200), ("D#4", 200), ("E4", 200), ("F4", 200), ("F#4", 200), ("G4", 200), ("G#4", 200), ("A4", 200), ("A#4", 200), ("B4", 200), ("C5", 400)];
    assert(notes4.deep_view() =~= melody_table()[4].1);
    let notes5 = vec![("C4", 300), ("E4", 300), ("G4", 300), ("C5", 300), ("G4", 300), ("E4", 300), ("C4", 600)];
    assert(notes5.deep_view() =~= melody_table()[5].1);
    let notes6 = vec![("A3", 400), ("C4", 400), ("D4", 400), ("E4", 400), ("G4", 400), ("A4", 400), ("G4", 400), ("E4", 400), ("D4", 400), ("C4", 400), ("A3", 800)];
    assert(notes6.deep_view() =~= melody_table()[6].1);
    let notes7 = vec![("C4", 200), ("E4", 200), ("G4", 200), ("A#4", 200), ("A4", 400), ("F4", 200), ("D4", 400), ("G4", 200), ("E4", 200), ("C4", 600)];
    assert(notes7.deep_view() =~= melody_table()[7].1);
    let notes8 = vec![("C4", 200), ("D4", 200), ("E4", 200), ("F4", 200), ("D4", 200), ("E4", 200), ("C4", 400), ("G4", 200), ("F4", 200), ("E4", 200), ("D4", 200), ("B3", 200), ("C4", 600)];
    assert(notes8.deep_view() =~= melody_table()[8].1);
    let notes9 = vec![("C4", 150), ("E4", 150), ("G4", 150), ("C5", 150), ("E5", 150), ("G5", 150), ("E5", 150), ("C5", 150), ("G4", 150), ("E4", 150), ("C4", 300), ("REST", 300), ("F4", 150), ("A4", 150), ("C5", 150), ("F5", 150), ("C5", 150), ("A4", 150), ("F4", 300)];
    assert(notes9.deep_view() =~= melody_table()[9].1);
    let r = vec![
        ("Twinkle Twinkle", notes0),
        ("Happy Birthday", notes1),
        ("Ode to Joy", notes2),
        ("Mary Had a Little Lamb", notes3),
        ("Chromatic Scale", notes4),
        ("Major Arpeggio", notes5),
        ("Minor Pentatonic", notes6),
        ("Jazz Lick", notes7),
        ("Bach Invention", notes8),
        ("Synth Demo", notes9),
    ];
    assert(r.deep_view() =~~= melody_table());
    r
}

/// The scale the demo plays through every preset.
pub open spec fn demo_table() -> Seq<(Seq<char>, u64)> {
    seq![("C4"@, 300), ("D4"@, 300), ("E4"@, 300), ("F4"@, 300), ("G4"@, 300), ("A4"@, 300), ("B4"@, 300), ("C5"@, 600)]
}

pub fn demo_scale() -> (r: Vec<(&'static str, u64)>)
    ensures
        r.deep_view() == demo_table(),
{
    let r = vec![("C4", 300), ("D4", 300), ("E4", 300), ("F4", 300), ("G4", 300), ("A4", 300), ("B4", 300), ("C5", 600)];
    assert(r.deep_view() =~= demo_table());
    r
}

} // verus!
