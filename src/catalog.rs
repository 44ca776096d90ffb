//! The preset and melody catalog: lookup by 1-based number or by name,
//! numbered listings, and the cue lists that playing a pair of them takes.
use vstd::prelude::*;
use crate::params::FMParams;
use crate::sequencer::{Cue, schedule, sequence};
use crate::tables::{demo_scale, demo_table, get_melodies, get_presets, melody_table, preset_table, presets_view};
use crate::text::{contains_text, decimal, decimal_text, lemma_decimal_reads_back, lower_of, lowercase, occurs_in, parse_number, parsed_number, same_text};

verus! {

/// Why a play request was refused; nothing has been played when it is.
#[derive(Clone, Copy, Debug, PartialEq, Eq, Structural)]
pub enum PlayError {
    PresetNotFound,
    MelodyNotFound,
}

/// The position a reference names by number: `"1"` is the first of `count`
/// entries. Numbers out of range name nothing.
pub open spec fn numbered(reference: Seq<char>, count: int) -> Option<int> {
    match parsed_number(reference) {
        Some(n) => if 1 <= n <= count {
            Some(n - 1)
        } else {
            None
        },
        None => None,
    }
}

/// The first position at or after `from` where `names` holds `key`.
pub open spec fn first_equal(names: Seq<Seq<char>>, key: Seq<char>, from: int) -> Option<int>
    decreases names.len() - from,
{
    if from < 0 || from >= names.len() {
        None
    } else if names[from] == key {
        Some(from)
    } else {
        first_equal(names, key, from + 1)
    }
}

/// The first position at or after `from` where `names` holds a name that
/// contains `key`.
pub open spec fn first_containing(names: Seq<Seq<char>>, key: Seq<char>, from: int) -> Option<int>
    decreases names.len() - from,
{
    if from < 0 || from >= names.len() {
        None
    } else if occurs_in(key, names[from]) {
        Some(from)
    } else {
        first_containing(names, key, from + 1)
    }
}

/// The names in lowercase.
pub open spec fn folded(names: Seq<Seq<char>>) -> Seq<Seq<char>> {
    names.map_values(|n: Seq<char>| lower_of(n))
}

/// The preset a reference names: by number, else the first whose name is the
/// reference up to case.
pub open spec fn preset_position(names: Seq<Seq<char>>, reference: Seq<char>) -> Option<int> {
    let by_number = numbered(reference, names.len() as int);
    if by_number is Some {
        by_number
    } else {
        first_equal(folded(names), lower_of(reference), 0)
    }
}

/// The melody a reference names: by number, else the first whose name
/// contains the reference up to case.
pub open spec fn melody_position(names: Seq<Seq<char>>, reference: Seq<char>) -> Option<int> {
    let by_number = numbered(reference, names.len() as int);
    if by_number is Some {
        by_number
    } else {
        first_containing(folded(names), lower_of(reference), 0)
    }
}

/// One line of a listing: the number, a dot, a space and the name.
pub open spec fn line(number: nat, name: Seq<char>) -> Seq<char> {
    decimal(number) + ". "@ + name
}

/// The names numbered from 1, one per line, with no newline after the last.
pub open spec fn listing(names: Seq<Seq<char>>) -> Seq<char>
    decreases names.len(),
{
    if names.len() == 0 {
        seq![]
    } else if names.len() == 1 {
        line(1, names[0])
    } else {
        listing(names.drop_last()) + "\n"@ + line(names.len(), names.last())
    }
}

/// The position of the first name that equals `key`.
pub fn position_equal(names: &Vec<String>, key: &str) -> (r: Option<usize>)
    ensures
        match r {
            Some(i) => first_equal(names.deep_view(), key@, 0) == Some(i as int),
            None => first_equal(names.deep_view(), key@, 0) is None,
        },
{
    let ghost all = names.deep_view();
    let mut i: usize = 0;
    while i < names.len()
        invariant
            all == names.deep_view(),
            i <= names@.len(),
            first_equal(all, key@, 0) == first_equal(all, key@, i as int),
        decreases names@.len() - i,
    {
        if same_text(names[i].as_str(), key) {
            return Some(i);
        }
        i = i + 1;
    }
    None
}

/// The position of the first name that contains `key`.
pub fn position_containing(names: &Vec<String>, key: &str) -> (r: Option<usize>)
    ensures
        match r {
            Some(i) => first_containing(names.deep_view(), key@, 0) == Some(i as int),
            None => first_containing(names.deep_view(), key@, 0) is None,
        },
{
    let ghost all = names.deep_view();
    let mut i: usize = 0;
    while i < names.len()
        invariant
            all == names.deep_view(),
            i <= names@.len(),
            first_containing(all, key@, 0) == first_containing(all, key@, i as int),
        decreases names@.len() - i,
    {
        if contains_text(names[i].as_str(), key) {
            return Some(i);
        }
        i = i + 1;
    }
    None
}

/// The position that a reference names by number among `count` entries.
fn number_in_range(reference: &str, count: usize) -> (r: Option<usize>)
    ensures
        match r {
            Some(i) => numbered(reference@, count as int) == Some(i as int),
            None => numbered(reference@, count as int) is None,
        },
{
    match parse_number(reference) {
        Some(n) => if n > 0 && n <= count {
            Some(n - 1)
        } else {
            None
        },
        None => None,
    }
}

/// Appends the listing line for position `i` (numbered `i + 1`).
fn push_line(out: &mut String, i: usize, name: &str)
    requires
        i < usize::MAX,
    ensures
        final(out)@ == if i == 0 {
            old(out)@ + line(1, name@)
        } else {
            old(out)@ + "\n"@ + line((i + 1) as nat, name@)
        },
{
    if i > 0 {
        out.append("\n");
    }
    let number = decimal_text(i + 1);
    out.append(number.as_str());
    out.append(". ");
    out.append(name);
}

pub struct Catalog {
    pub presets: Vec<(&'static str, FMParams)>,
    pub melodies: Vec<(&'static str, Vec<(&'static str, u64)>)>,
}

impl Catalog {
    pub open spec fn preset_names(&self) -> Seq<Seq<char>> {
        self.presets@.map_values(|e: (&str, FMParams)| e.0@)
    }

    pub open spec fn melody_names(&self) -> Seq<Seq<char>> {
        self.melodies.deep_view().map_values(|e: (Seq<char>, Seq<(Seq<char>, u64)>)| e.0)
    }

    pub open spec fn wf(&self) -> bool {
        forall|i: int| 0 <= i < self.presets@.len() ==> (#[trigger] self.presets@[i]).1.wf()
    }

    /// The built-in presets and melodies.
    pub fn new() -> (r: Catalog)
        ensures
            r.wf(),
            presets_view(r.presets@) == preset_table(),
            r.melodies.deep_view() == melody_table(),
    {
        Catalog { presets: get_presets(), melodies: get_melodies() }
    }

    fn preset_name_list(&self) -> (r: Vec<&'static str>)
        ensures
            r.deep_view() == self.preset_names(),
    {
        let mut out: Vec<&'static str> = Vec::new();
        let mut i: usize = 0;
        while i < self.presets.len()
            invariant
                i <= self.presets@.len(),
                out.deep_view() == self.preset_names().take(i as int),
                out@.len() == i,
            decreases self.presets@.len() - i,
        {
            let ghost before = out@;
            out.push(self.presets[i].0);
            proof {
                assert(self.preset_names()[i as int] == self.presets@[i as int].0@);
                assert forall|j: int| 0 <= j < i + 1 implies #[trigger] out.deep_view()[j]
                    == self.preset_names().take(i + 1)[j] by {
                    if j < i {
                        assert(out@[j] == before[j]);
                        assert(before[j]@ == self.preset_names().take(i as int)[j]);
                    }
                }
                assert(out.deep_view() =~= self.preset_names().take(i + 1));
            }
            i = i + 1;
        }
        assert(out.deep_view() =~= self.preset_names());
        out
    }

    fn melody_name_list(&self) -> (r: Vec<&'static str>)
        ensures
            r.deep_view() == self.melody_names(),
    {
        let mut out: Vec<&'static str> = Vec::new();
        let mut i: usize = 0;
        while i < self.melodies.len()
            invariant
                i <= self.melodies@.len(),
                out.deep_view() == self.melody_names().take(i as int),
                out@.len() == i,
            decreases self.melodies@.len() - i,
        {
            let ghost before = out@;
            out.push(self.melodies[i].0);
            proof {
                assert(self.melody_names()[i as int] == self.melodies@[i as int].0@);
                assert forall|j: int| 0 <= j < i + 1 implies #[trigger] out.deep_view()[j]
                    == self.melody_names().take(i + 1)[j] by {
                    if j < i {
                        assert(out@[j] == before[j]);
                        assert(before[j]@ == self.melody_names().take(i as int)[j]);
                    }
                }
                assert(out.deep_view() =~= self.melody_names().take(i + 1));
            }
            i = i + 1;
        }
        assert(out.deep_view() =~= self.melody_names());
        out
    }

    /// The position of the preset that `reference` names.
    pub fn preset_index(&self, reference: &str) -> (r: Option<usize>)
        ensures
            match r {
                Some(i) => preset_position(self.preset_names(), reference@) == Some(i as int)
                    && i < self.presets@.len(),
                None => preset_position(self.preset_names(), reference@) is None,
            },
    {
        if let Some(i) = number_in_range(reference, self.presets.len()) {
            return Some(i);
        }
        let key = lowercase(reference);
        let names = fold_names(&self.preset_name_list());
        let r = position_equal(&names, key.as_str());
        proof {
            lemma_first_equal_in_range(names.deep_view(), key@, 0);
        }
        r
    }

    /// The position of the melody that `reference` names.
    pub fn melody_index(&self, reference: &str) -> (r: Option<usize>)
        ensures
            match r {
                Some(i) => melody_position(self.melody_names(), reference@) == Some(i as int)
                    && i < self.melodies@.len(),
                None => melody_position(self.melody_names(), reference@) is None,
            },
    {
        if let Some(i) = number_in_range(reference, self.melodies.len()) {
            return Some(i);
        }
        let key = lowercase(reference);
        let names = fold_names(&self.melody_name_list());
        let r = position_containing(&names, key.as_str());
        proof {
            lemma_first_containing_in_range(names.deep_view(), key@, 0);
        }
        r
    }

    /// The parameters of the preset that `name` names: by 1-based number, or
    /// by its name in any case.
    pub fn find_preset(&self, name: &str) -> (r: Option<FMParams>)
        ensures
            match preset_position(self.preset_names(), name@) {
                Some(i) => r == Some(self.presets@[i].1),
                None => r is None,
            },
    {
        match self.preset_index(name) {
            Some(i) => Some(self.presets[i].1),
            None => None,
        }
    }

    /// The notes of the melody that `name` names: by 1-based number, or by a
    /// part of its name in any case.
    pub fn find_melody(&self, name: &str) -> (r: Option<Vec<(&'static str, u64)>>)
        ensures
            match melody_position(self.melody_names(), name@) {
                Some(i) => r matches Some(notes) && notes.deep_view() == self.melodies.deep_view()[i].1,
                None => r is None,
            },
    {
        match self.melody_index(name) {
            Some(i) => Some(copy_notes(&self.melodies[i].1)),
            None => None,
        }
    }

    /// The cue list for playing the melody that `melody_ref` names with the
    /// preset that `preset_ref` names; an unknown preset is reported first.
    pub fn prepare(&self, preset_ref: &str, melody_ref: &str) -> (r: Result<Vec<Cue>, PlayError>)
        ensures
            match (preset_position(self.preset_names(), preset_ref@), melody_position(self.melody_names(), melody_ref@)) {
                (None, _) => r == Err::<Vec<Cue>, PlayError>(PlayError::PresetNotFound),
                (Some(_), None) => r == Err::<Vec<Cue>, PlayError>(PlayError::MelodyNotFound),
                (Some(p), Some(m)) => r matches Ok(cues)
                    && cues@ == schedule(self.presets@[p].1, self.melodies.deep_view()[m].1),
            },
    {
        let p = match self.preset_index(preset_ref) {
            Some(p) => p,
            None => return Err(PlayError::PresetNotFound),
        };
        let m = match self.melody_index(melody_ref) {
            Some(m) => m,
            None => return Err(PlayError::MelodyNotFound),
        };
        proof {
            assert(self.melodies.deep_view()[m as int].1 == self.melodies@[m as int].1.deep_view());
        }
        Ok(sequence(self.presets[p].1, &self.melodies[m].1))
    }

    /// The cue list for preset and melody given by 0-based positions, or
    /// `None` when either is out of range.
    pub fn prepare_indexed(&self, preset: usize, melody: usize) -> (r: Option<Vec<Cue>>)
        ensures
            preset < self.presets@.len() && melody < self.melodies@.len() ==> (r matches Some(cues)
                && cues@ == schedule(self.presets@[preset as int].1, self.melodies.deep_view()[melody as int].1)),
            !(preset < self.presets@.len() && melody < self.melodies@.len()) ==> r is None,
    {
        if preset >= self.presets.len() || melody >= self.melodies.len() {
            return None;
        }
        proof {
            assert(self.melodies.deep_view()[melody as int].1 == self.melodies@[melody as int].1.deep_view());
        }
        Some(sequence(self.presets[preset].1, &self.melodies[melody].1))
    }

    /// The preset names numbered from 1, one per line.
    pub fn list_presets(&self) -> (r: String)
        ensures
            r@ == listing(self.preset_names()),
    {
        numbered_lines(&self.preset_name_list())
    }

    /// The melody names numbered from 1, one per line.
    pub fn list_melodies(&self) -> (r: String)
        ensures
            r@ == listing(self.melody_names()),
    {
        numbered_lines(&self.melody_name_list())
    }

    /// The cue lists for the demo scale played with each preset in order.
    pub fn demo_cues(&self) -> (r: Vec<Vec<Cue>>)
        ensures
            r@.len() == self.presets@.len(),
            forall|i: int| 0 <= i < r@.len() ==> (#[trigger] r@[i])@ == schedule(self.presets@[i].1, demo_table()),
    {
        let scale = demo_scale();
        let mut out: Vec<Vec<Cue>> = Vec::new();
        let mut i: usize = 0;
        while i < self.presets.len()
            invariant
                i <= self.presets@.len(),
                scale.deep_view() == demo_table(),
                out@.len() == i,
                forall|j: int| 0 <= j < i ==> (#[trigger] out@[j])@ == schedule(self.presets@[j].1, demo_table()),
            decreases self.presets@.len() - i,
        {
            out.push(sequence(self.presets[i].1, &scale));
            i = i + 1;
        }
        out
    }
}

/// The names in lowercase.
fn fold_names(names: &Vec<&str>) -> (r: Vec<String>)
    ensures
        r.deep_view() == folded(names.deep_view()),
{
    let ghost all = names.deep_view();
    let mut out: Vec<String> = Vec::new();
    let mut i: usize = 0;
    while i < names.len()
        invariant
            all == names.deep_view(),
            i <= names@.len(),
            out@.len() == i,
            out.deep_view() == folded(all).take(i as int),
        decreases names@.len() - i,
    {
        let ghost before = out@;
        let folded_name = lowercase(names[i]);
        out.push(folded_name);
        proof {
            assert forall|j: int| 0 <= j < i + 1 implies #[trigger] out.deep_view()[j]
                == folded(all).take(i + 1)[j] by {
                if j < i {
                    assert(out@[j] == before[j]);
                    assert(before[j]@ == folded(all).take(i as int)[j]);
                }
            }
            assert(out.deep_view() =~= folded(all).take(i + 1));
        }
        i = i + 1;
    }
    assert(out.deep_view() =~= folded(all));
    out
}

/// The names numbered from 1, one per line.
fn numbered_lines(names: &Vec<&str>) -> (r: String)
    ensures
        r@ == listing(names.deep_view()),
{
    let ghost all = names.deep_view();
    let mut out = String::new();
    let mut i: usize = 0;
    while i < names.len()
        invariant
            all == names.deep_view(),
            i <= names@.len(),
            out@ == listing(all.take(i as int)),
        decreases names@.len() - i,
    {
        push_line(&mut out, i, names[i]);
        proof {
            let prefix = all.take(i + 1);
            assert(prefix.drop_last() =~= all.take(i as int));
            if i == 0 {
                assert(out@ =~= line(1, prefix[0]));
            }
        }
        i = i + 1;
    }
    assert(all.take(names@.len() as int) =~= all);
    out
}

/// A number from 1 to the count of entries, written in decimal, names the
/// entry at that 1-based position, for presets and melodies alike.
pub proof fn lemma_number_selects(names: Seq<Seq<char>>, n: nat)
    requires
        1 <= n <= names.len(),
        n <= usize::MAX,
    ensures
        preset_position(names, decimal(n)) == Some(n - 1),
        melody_position(names, decimal(n)) == Some(n - 1),
{
    lemma_decimal_reads_back(n);
}

/// A number past the count of entries names none of them by number; only a
/// name match can still find one.
pub proof fn lemma_number_out_of_range(names: Seq<Seq<char>>, n: nat)
    requires
        n > names.len(),
        n <= usize::MAX,
    ensures
        numbered(decimal(n), names.len() as int) is None,
        preset_position(names, decimal(n)) == first_equal(folded(names), lower_of(decimal(n)), 0),
        melody_position(names, decimal(n)) == first_containing(folded(names), lower_of(decimal(n)), 0),
{
    lemma_decimal_reads_back(n);
}

/// A reference that is no number in range, and whose lowercase form is that
/// of no preset name, names no preset; playing it is refused as an unknown
/// preset whatever the melody, before any cue exists.
pub proof fn lemma_unknown_preset_refused(names: Seq<Seq<char>>, reference: Seq<char>)
    requires
        numbered(reference, names.len() as int) is None,
        forall|i: int| 0 <= i < names.len() ==> lower_of(#[trigger] names[i]) != lower_of(reference),
    ensures
        preset_position(names, reference) is None,
{
    lemma_first_equal_absent(folded(names), lower_of(reference), 0);
}

proof fn lemma_first_equal_absent(names: Seq<Seq<char>>, key: Seq<char>, from: int)
    requires
        forall|i: int| 0 <= i < names.len() ==> #[trigger] names[i] != key,
    ensures
        first_equal(names, key, from) is None,
    decreases names.len() - from,
{
    if 0 <= from < names.len() {
        lemma_first_equal_absent(names, key, from + 1);
    }
}

fn copy_notes(notes: &Vec<(&'static str, u64)>) -> (r: Vec<(&'static str, u64)>)
    ensures
        r@ == notes@,
{
    let mut out: Vec<(&'static str, u64)> = Vec::new();
    let mut i: usize = 0;
    while i < notes.len()
        invariant
            i <= notes@.len(),
            out@ == notes@.take(i as int),
        decreases notes@.len() - i,
    {
        out.push(notes[i]);
        assert(out@ =~= notes@.take(i + 1));
        i = i + 1;
    }
    assert(notes@.take(notes@.len() as int) =~= notes@);
    out
}

proof fn lemma_first_equal_in_range(names: Seq<Seq<char>>, key: Seq<char>, from: int)
    ensures
        first_equal(names, key, from) matches Some(i) ==> from <= i < names.len(),
    decreases names.len() - from,
{
    if 0 <= from < names.len() && names[from] != key {
        lemma_first_equal_in_range(names, key, from + 1);
    }
}

proof fn lemma_first_containing_in_range(names: Seq<Seq<char>>, key: Seq<char>, from: int)
    ensures
        first_containing(names, key, from) matches Some(i) ==> from <= i < names.len(),
    decreases names.len() - from,
{
    if 0 <= from < names.len() && !occurs_in(key, names[from]) {
        lemma_first_containing_in_range(names, key, from + 1);
    }
}

} // verus!
