//! Note names and their pitches, from C3 to A5 with sharps.
use vstd::prelude::*;
use crate::text::same_text;

verus! {

/// The pitch of a note name in millihertz; zero, which means a rest, for
/// `"REST"` and for every name that is not a note.
pub open spec fn note_pitch(name: Seq<char>) -> u32 {
    if name == "C3"@ {
        130_810
    } else if name == "C#3"@ {
        138_590
    } else if name == "D3"@ {
        146_830
    } else if name == "D#3"@ {
        155_560
    } else if name == "E3"@ {
        164_810
    } else if name == "F3"@ {
        174_610
    } else if name == "F#3"@ {
        185_000
    } else if name == "G3"@ {
        196_000
    } else if name == "G#3"@ {
        207_650
    } else if name == "A3"@ {
        220_000
    } else if name == "A#3"@ {
        233_080
    } else if name == "B3"@ {
        246_940
    } else if name == "C4"@ {
        261_630
    } else if name == "C#4"@ {
        277_180
    } else if name == "D4"@ {
        293_660
    } else if name == "D#4"@ {
        311_130
    } else if name == "E4"@ {
        329_630
    } else if name == "F4"@ {
        349_230
    } else if name == "F#4"@ {
        369_990
    } else if name == "G4"@ {
        392_000
    } else if name == "G#4"@ {
        415_300
    } else if name == "A4"@ {
        440_000
    } else if name == "A#4"@ {
        466_160
    } else if name == "B4"@ {
        493_880
    } else if name == "C5"@ {
        523_250
    } else if name == "C#5"@ {
        554_370
    } else if name == "D5"@ {
        587_330
    } else if name == "D#5"@ {
        622_250
    } else if name == "E5"@ {
        659_250
    } else if name == "F5"@ {
        698_460
    } else if name == "F#5"@ {
        739_990
    } else if name == "G5"@ {
        783_990
    } else if name == "G#5"@ {
        830_610
    } else if name == "A5"@ {
        880_000
    } else {
        0
    }
}

/// Looks a note name up; an unknown name, `"REST"` among them, gives zero.
pub fn note_freq(note: &str) -> (r: u32)
    ensures
        r == note_pitch(note@),
{
    if same_text(note, "C3") {
        130_810
    } else if same_text(note, "C#3") {
        138_590
    } else if same_text(note, "D3") {
        146_830
    } else if same_text(note, "D#3") {
        155_560
    } else if same_text(note, "E3") {
        164_810
    } else if same_text(note, "F3") {
        174_610
    } else if same_text(note, "F#3") {
        185_000
    } else if same_text(note, "G3") {
        196_000
    } else if same_text(note, "G#3") {
        207_650
    } else if same_text(note, "A3") {
        220_000
    } else if same_text(note, "A#3") {
        233_080
    } else if same_text(note, "B3") {
        246_940
    } else if same_text(note, "C4") {
        261_630
    } else if same_text(note, "C#4") {
        277_180
    } else if same_text(note, "D4") {
        293_660
    } else if same_text(note, "D#4") {
        311_130
    } else if same_text(note, "E4") {
        329_630
    } else if same_text(note, "F4") {
        349_230
    } else if same_text(note, "F#4") {
        369_990
    } else if same_text(note, "G4") {
        392_000
    } else if same_text(note, "G#4") {
        415_300
    } else if same_text(note, "A4") {
        440_000
    } else if same_text(note, "A#4") {
        466_160
    } else if same_text(note, "B4") {
        493_880
    } else if same_text(note, "C5") {
        523_250
    } else if same_text(note, "C#5") {
        554_370
    } else if same_text(note, "D5") {
        587_330
    } else if same_text(note, "D#5") {
        622_250
    } else if same_text(note, "E5") {
        659_250
    } else if same_text(note, "F5") {
        698_460
    } else if same_text(note, "F#5") {
        739_990
    } else if same_text(note, "G5") {
        783_990
    } else if same_text(note, "G#5") {
        830_610
    } else if same_text(note, "A5") {
        880_000
    } else {
        0
    }
}

/// `"REST"` is no note name: it has no pitch, so a melody entry with it is
/// silence.
pub proof fn lemma_rest_has_no_pitch()
    ensures
        note_pitch("REST"@) == 0,
{
    reveal_strlit("REST");
    assert("REST"@.len() == 4);
    reveal_strlit("C3");
    assert("C3"@.len() == 2);
    reveal_strlit("C#3");
    assert("C#3"@.len() == 3);
    reveal_strlit("D3");
    assert("D3"@.len() == 2);
    reveal_strlit("D#3");
    assert("D#3"@.len() == 3);
    reveal_strlit("E3");
    assert("E3"@.len() == 2);
    reveal_strlit("F3");
    assert("F3"@.len() == 2);
    reveal_strlit("F#3");
    assert("F#3"@.len() == 3);
    reveal_strlit("G3");
    assert("G3"@.len() == 2);
    reveal_strlit("G#3");
    assert("G#3"@.len() == 3);
    reveal_strlit("A3");
    assert("A3"@.len() == 2);
    reveal_strlit("A#3");
    assert("A#3"@.len() == 3);
    reveal_strlit("B3");
    assert("B3"@.len() == 2);
    reveal_strlit("C4");
    assert("C4"@.len() == 2);
    reveal_strlit("C#4");
    assert("C#4"@.len() == 3);
    reveal_strlit("D4");
    assert("D4"@.len() == 2);
    reveal_strlit("D#4");
    assert("D#4"@.len() == 3);
    reveal_strlit("E4");
    assert("E4"@.len() == 2);
    reveal_strlit("F4");
    assert("F4"@.len() == 2);
    reveal_strlit("F#4");
    assert("F#4"@.len() == 3);
    reveal_strlit("G4");
    assert("G4"@.len() == 2);
    reveal_strlit("G#4");
    assert("G#4"@.len() == 3);
    reveal_strlit("A4");
    assert("A4"@.len() == 2);
    reveal_strlit("A#4");
    assert("A#4"@.len() == 3);
    reveal_strlit("B4");
    assert("B4"@.len() == 2);
    reveal_strlit("C5");
    assert("C5"@.len() == 2);
    reveal_strlit("C#5");
    assert("C#5"@.len() == 3);
    reveal_strlit("D5");
    assert("D5"@.len() == 2);
    reveal_strlit("D#5");
    assert("D#5"@.len() == 3);
    reveal_strlit("E5");
    assert("E5"@.len() == 2);
    reveal_strlit("F5");
    assert("F5"@.len() == 2);
    reveal_strlit("F#5");
    assert("F#5"@.len() == 3);
    reveal_strlit("G5");
    assert("G5"@.len() == 2);
    reveal_strlit("G#5");
    assert("G#5"@.len() == 3);
    reveal_strlit("A5");
    assert("A5"@.len() == 2);
}

} // verus!
