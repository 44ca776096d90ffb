use fm_synth::notes::note_freq;

#[test]
fn every_note_name_has_its_pitch() {
    let table: [(&str, u32); 34] = [
        ("C3", 130_810), ("C#3", 138_590), ("D3", 146_830), ("D#3", 155_560), ("E3", 164_810),
        ("F3", 174_610), ("F#3", 185_000), ("G3", 196_000), ("G#3", 207_650), ("A3", 220_000),
        ("A#3", 233_080), ("B3", 246_940),
        ("C4", 261_630), ("C#4", 277_180), ("D4", 293_660), ("D#4", 311_130), ("E4", 329_630),
        ("F4", 349_230), ("F#4", 369_990), ("G4", 392_000), ("G#4", 415_300), ("A4", 440_000),
        ("A#4", 466_160), ("B4", 493_880),
        ("C5", 523_250), ("C#5", 554_370), ("D5", 587_330), ("D#5", 622_250), ("E5", 659_250),
        ("F5", 698_460), ("F#5", 739_990), ("G5", 783_990), ("G#5", 830_610), ("A5", 880_000),
    ];
    for (name, pitch) in table {
        assert_eq!(note_freq(name), pitch, "{}", name);
    }
}

#[test]
fn rest_and_unknown_names_are_silent() {
    for name in ["REST", "", "c4", "H4", "C6", "A#5", "C4 ", "Bb4"] {
        assert_eq!(note_freq(name), 0, "{}", name);
    }
}
