//! The note sequencer: turns a preset and a melody into the timed list of
//! actions that a player carries out against a voice.
//!
//! Each sounding note is applied at its own pitch and started, held for 80%
//! of its duration, released, and given the rest of its duration to fade.
//! A rest waits its whole duration and touches the voice not at all. After
//! the last note a fixed tail lets the final release finish.
use vstd::prelude::*;
use vstd::arithmetic::div_mod::{lemma_fundamental_div_mod, lemma_fundamental_div_mod_converse};
use crate::notes::{note_freq, note_pitch};
use crate::params::FMParams;

verus! {

/// Time left after the last note for its release to finish, in milliseconds.
pub const TAIL_MS: u64 = 500;

/// One action of a player.
#[derive(Clone, Copy, Debug, PartialEq, Eq, Structural)]
pub enum Cue {
    /// Apply these parameters to the voice and start a note.
    NoteOn(FMParams),
    /// Release the sounding note.
    NoteOff,
    /// Wait this many milliseconds without touching the voice.
    Wait(u64),
}

/// The sounding part of a note of `duration` milliseconds: 80%, rounded down.
pub open spec fn sounding_ms(duration: int) -> int {
    (4 * duration) / 5
}

/// The cues for one melody entry.
pub open spec fn note_cues(preset: FMParams, name: Seq<char>, duration: u64) -> Seq<Cue> {
    let pitch = note_pitch(name);
    if pitch == 0 {
        seq![Cue::Wait(duration)]
    } else {
        seq![
            Cue::NoteOn(preset.at_pitch(pitch as int)),
            Cue::Wait(sounding_ms(duration as int) as u64),
            Cue::NoteOff,
            Cue::Wait((duration - sounding_ms(duration as int)) as u64),
        ]
    }
}

/// The cues for the melody entries in order.
pub open spec fn melody_cues(preset: FMParams, notes: Seq<(Seq<char>, u64)>) -> Seq<Cue>
    decreases notes.len(),
{
    if notes.len() == 0 {
        seq![]
    } else {
        melody_cues(preset, notes.drop_last()) + note_cues(preset, notes.last().0, notes.last().1)
    }
}

/// The whole cue list of a melody: its entries, then the tail.
pub open spec fn schedule(preset: FMParams, notes: Seq<(Seq<char>, u64)>) -> Seq<Cue> {
    melody_cues(preset, notes) + seq![Cue::Wait(TAIL_MS)]
}

/// The time the cues take, in milliseconds: the sum of their waits.
pub open spec fn total_wait(cues: Seq<Cue>) -> int
    decreases cues.len(),
{
    if cues.len() == 0 {
        0
    } else {
        total_wait(cues.drop_last()) + wait_of(cues.last())
    }
}

/// The time one cue takes, in milliseconds.
pub open spec fn wait_of(c: Cue) -> int {
    match c {
        Cue::Wait(ms) => ms as int,
        _ => 0,
    }
}

/// One for a note start, zero for any other cue.
pub open spec fn start_of(c: Cue) -> int {
    if c is NoteOn {
        1
    } else {
        0
    }
}

/// The sum of the durations of melody entries.
pub open spec fn total_duration(notes: Seq<(Seq<char>, u64)>) -> int
    decreases notes.len(),
{
    if notes.len() == 0 {
        0
    } else {
        total_duration(notes.drop_last()) + notes.last().1
    }
}

/// The number of note starts among the cues.
pub open spec fn note_ons(cues: Seq<Cue>) -> int
    decreases cues.len(),
{
    if cues.len() == 0 {
        0
    } else {
        note_ons(cues.drop_last()) + start_of(cues.last())
    }
}

fn sounding(duration: u64) -> (r: u64)
    ensures
        r == sounding_ms(duration as int),
        r <= duration,
{
    let q = duration / 5;
    let m = duration % 5;
    proof {
        lemma_fundamental_div_mod(duration as int, 5);
        let k = (4 * m as int) / 5;
        lemma_fundamental_div_mod(4 * m as int, 5);
        lemma_fundamental_div_mod_converse(4 * duration as int, 5, 4 * q + k, (4 * m as int) % 5);
    }
    4 * q + (4 * m) / 5
}

/// The cue list for playing `melody` with `preset`.
pub fn sequence(preset: FMParams, melody: &Vec<(&str, u64)>) -> (r: Vec<Cue>)
    ensures
        r@ == schedule(preset, melody.deep_view()),
{
    let mut out: Vec<Cue> = Vec::new();
    let mut i: usize = 0;
    while i < melody.len()
        invariant
            i <= melody@.len(),
            out@ == melody_cues(preset, melody.deep_view().take(i as int)),
        decreases melody@.len() - i,
    {
        let (name, duration) = melody[i];
        proof {
            let notes = melody.deep_view();
            assert(notes.take(i + 1).drop_last() =~= notes.take(i as int));
            assert(notes[i as int] == (name@, duration));
        }
        let pitch = note_freq(name);
        if pitch == 0 {
            out.push(Cue::Wait(duration));
        } else {
            let on = sounding(duration);
            out.push(Cue::NoteOn(preset.scaled_to(pitch)));
            out.push(Cue::Wait(on));
            out.push(Cue::NoteOff);
            out.push(Cue::Wait(duration - on));
        }
        i = i + 1;
    }
    assert(melody.deep_view().take(melody@.len() as int) =~= melody.deep_view());
    out.push(Cue::Wait(TAIL_MS));
    out
}

proof fn lemma_total_wait_append(a: Seq<Cue>, b: Seq<Cue>)
    ensures
        total_wait(a + b) == total_wait(a) + total_wait(b),
    decreases b.len(),
{
    if b.len() == 0 {
        assert(a + b =~= a);
    } else {
        assert((a + b).drop_last() =~= a + b.drop_last());
        lemma_total_wait_append(a, b.drop_last());
    }
}

proof fn lemma_note_ons_append(a: Seq<Cue>, b: Seq<Cue>)
    ensures
        note_ons(a + b) == note_ons(a) + note_ons(b),
    decreases b.len(),
{
    if b.len() == 0 {
        assert(a + b =~= a);
    } else {
        assert((a + b).drop_last() =~= a + b.drop_last());
        lemma_note_ons_append(a, b.drop_last());
    }
}

proof fn lemma_single(x: Cue)
    ensures
        total_wait(seq![x]) == wait_of(x),
        note_ons(seq![x]) == start_of(x),
{
    let s = seq![x];
    assert(s.drop_last() =~= Seq::<Cue>::empty());
    assert(s.last() == x);
    assert(total_wait(Seq::<Cue>::empty()) == 0);
    assert(note_ons(Seq::<Cue>::empty()) == 0);
}

/// The waits and note starts of the cues of one entry.
proof fn lemma_note_cues_counts(preset: FMParams, name: Seq<char>, duration: u64)
    ensures
        total_wait(note_cues(preset, name, duration)) == duration,
        note_ons(note_cues(preset, name, duration)) == if note_pitch(name) != 0 {
            1int
        } else {
            0int
        },
{
    let c = note_cues(preset, name, duration);
    lemma_single(c[0]);
    if note_pitch(name) != 0 {
        let s1 = seq![c[0]];
        let s2 = seq![c[1]];
        let s3 = seq![c[2]];
        let s4 = seq![c[3]];
        lemma_single(c[1]);
        lemma_single(c[2]);
        lemma_single(c[3]);
        assert(c =~= s1 + s2 + s3 + s4);
        lemma_total_wait_append(s1, s2);
        lemma_total_wait_append(s1 + s2, s3);
        lemma_total_wait_append(s1 + s2 + s3, s4);
        lemma_note_ons_append(s1, s2);
        lemma_note_ons_append(s1 + s2, s3);
        lemma_note_ons_append(s1 + s2 + s3, s4);
    }
}

/// Every melody entry takes exactly its duration, sounding or not, so a
/// played melody lasts the sum of its durations plus the tail.
pub proof fn lemma_schedule_duration(preset: FMParams, notes: Seq<(Seq<char>, u64)>)
    ensures
        total_wait(melody_cues(preset, notes)) == total_duration(notes),
        total_wait(schedule(preset, notes)) == total_duration(notes) + TAIL_MS,
    decreases notes.len(),
{
    if notes.len() > 0 {
        let last = notes.last();
        lemma_schedule_duration(preset, notes.drop_last());
        lemma_total_wait_append(melody_cues(preset, notes.drop_last()), note_cues(preset, last.0, last.1));
        lemma_note_cues_counts(preset, last.0, last.1);
    }
    lemma_total_wait_append(melody_cues(preset, notes), seq![Cue::Wait(TAIL_MS)]);
    lemma_single(Cue::Wait(TAIL_MS));
}

/// The tail after the last note is long enough for the envelope's release.
pub proof fn lemma_tail_covers_release()
    ensures
        TAIL_MS >= crate::envelope::DEFAULT_RELEASE_MS,
{
}

/// A rest makes no note start and no release: it is a single wait of its
/// duration.
pub proof fn lemma_rest_is_silent(preset: FMParams, name: Seq<char>, duration: u64)
    requires
        note_pitch(name) == 0,
    ensures
        note_cues(preset, name, duration) == seq![Cue::Wait(duration)],
{
}

/// A melody starts one note for each entry that names a pitch, and none for
/// rests.
pub proof fn lemma_one_start_per_note(preset: FMParams, notes: Seq<(Seq<char>, u64)>)
    ensures
        note_ons(melody_cues(preset, notes)) == notes.filter(|e: (Seq<char>, u64)| note_pitch(e.0) != 0).len(),
    decreases notes.len(),
{
    if notes.len() > 0 {
        let last = notes.last();
        lemma_one_start_per_note(preset, notes.drop_last());
        lemma_note_ons_append(melody_cues(preset, notes.drop_last()), note_cues(preset, last.0, last.1));
        lemma_note_cues_counts(preset, last.0, last.1);
        assert(notes =~= notes.drop_last().push(last));
        notes.drop_last().lemma_filter_push(last, |e: (Seq<char>, u64)| note_pitch(e.0) != 0);
    } else {
        assert(notes.filter(|e: (Seq<char>, u64)| note_pitch(e.0) != 0) =~= Seq::<(Seq<char>, u64)>::empty());
    }
}

} // verus!
