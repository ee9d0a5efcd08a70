//! Equal-tempered pitch naming relative to the 440 Hz concert pitch.
//!
//! A pitch is given by its distance from the concert pitch in cents, a
//! hundredth of a semitone: `1200 * log2(f / 440)` for a frequency `f`,
//! rounded to a whole number. Semitone 0 is A4.

use vstd::prelude::*;

verus! {

/// Number of cents in one equal-tempered semitone.
pub const CENTS_PER_SEMITONE: i32 = 100;

/// Number of semitones in one octave.
pub const SEMITONES_PER_OCTAVE: i32 = 12;

/// Distance in semitones from C of octave -1 up to the concert pitch A4.
pub const CONCERT_PITCH_KEY: i32 = 69;

/// The twelve pitch classes of the chromatic scale, from C upwards.
#[derive(Clone, Copy, Debug, PartialEq, Eq, Structural)]
pub enum PitchClass {
    C,
    CSharp,
    D,
    DSharp,
    E,
    F,
    FSharp,
    G,
    GSharp,
    A,
    ASharp,
    B,
}

/// The vocabulary in which pitch classes are named.
#[derive(Clone, Copy, Debug, PartialEq, Eq, Structural)]
pub enum Notation {
    /// C, D, E, F, G, A, B.
    English,
    /// Do, Re, Mi, Fa, Sol, La, Si.
    Romance,
}

/// The semitone nearest to a pitch lying `cents` cents above the concert
/// pitch; a pitch exactly half way between two semitones belongs to the
/// lower one.
pub open spec fn spec_nearest_semitone(cents: int) -> int {
    (cents + 49) / (CENTS_PER_SEMITONE as int)
}

/// How far, in cents, a pitch lies above its nearest semitone.
pub open spec fn spec_cents_offset(cents: int) -> int {
    cents - CENTS_PER_SEMITONE * spec_nearest_semitone(cents)
}

/// The octave that semitone `n` lies in; octaves start at C, and A4 is
/// semitone 0.
pub open spec fn spec_octave(n: int) -> int {
    (n + CONCERT_PITCH_KEY) / (SEMITONES_PER_OCTAVE as int) - 1
}

/// The position of semitone `n` within its octave, counted from C.
pub open spec fn spec_pitch_index(n: int) -> int {
    (n + CONCERT_PITCH_KEY) % (SEMITONES_PER_OCTAVE as int)
}

impl PitchClass {
    /// The position of the class within an octave, counted from C.
    pub open spec fn spec_index(self) -> int {
        match self {
            PitchClass::C => 0,
            PitchClass::CSharp => 1,
            PitchClass::D => 2,
            PitchClass::DSharp => 3,
            PitchClass::E => 4,
            PitchClass::F => 5,
            PitchClass::FSharp => 6,
            PitchClass::G => 7,
            PitchClass::GSharp => 8,
            PitchClass::A => 9,
            PitchClass::ASharp => 10,
            PitchClass::B => 11,
        }
    }

    /// The class at position `i` counted from C; positions repeat every
    /// twelve.
    pub open spec fn spec_from_index(i: int) -> PitchClass {
        let r = i % 12;
        if r == 0 {
            PitchClass::C
        } else if r == 1 {
            PitchClass::CSharp
        } else if r == 2 {
            PitchClass::D
        } else if r == 3 {
            PitchClass::DSharp
        } else if r == 4 {
            PitchClass::E
        } else if r == 5 {
            PitchClass::F
        } else if r == 6 {
            PitchClass::FSharp
        } else if r == 7 {
            PitchClass::G
        } else if r == 8 {
            PitchClass::GSharp
        } else if r == 9 {
            PitchClass::A
        } else if r == 10 {
            PitchClass::ASharp
        } else {
            PitchClass::B
        }
    }

    /// The name of the class in the given vocabulary.
    pub open spec fn spec_name(self, notation: Notation) -> Seq<char> {
        match notation {
            Notation::English => match self {
                PitchClass::C => "C"@,
                PitchClass::CSharp => "C#"@,
                PitchClass::D => "D"@,
                PitchClass::DSharp => "D#"@,
                PitchClass::E => "E"@,
                PitchClass::F => "F"@,
                PitchClass::FSharp => "F#"@,
                PitchClass::G => "G"@,
                PitchClass::GSharp => "G#"@,
                PitchClass::A => "A"@,
                PitchClass::ASharp => "A#"@,
                PitchClass::B => "B"@,
            },
            Notation::Romance => match self {
                PitchClass::C => "Do"@,
                PitchClass::CSharp => "Do#"@,
                PitchClass::D => "Re"@,
                PitchClass::DSharp => "Re#"@,
                PitchClass::E => "Mi"@,
                PitchClass::F => "Fa"@,
                PitchClass::FSharp => "Fa#"@,
                PitchClass::G => "Sol"@,
                PitchClass::GSharp => "Sol#"@,
                PitchClass::A => "La"@,
                PitchClass::ASharp => "La#"@,
                PitchClass::B => "Si"@,
            },
        }
    }

    /// The position of the class within an octave, counted from C.
    pub fn index(&self) -> (i: u8)
        ensures
            i == self.spec_index(),
            PitchClass::spec_from_index(i as int) == *self,
    {
        match self {
            PitchClass::C => 0,
            PitchClass::CSharp => 1,
            PitchClass::D => 2,
            PitchClass::DSharp => 3,
            PitchClass::E => 4,
            PitchClass::F => 5,
            PitchClass::FSharp => 6,
            PitchClass::G => 7,
            PitchClass::GSharp => 8,
            PitchClass::A => 9,
            PitchClass::ASharp => 10,
            PitchClass::B => 11,
        }
    }

    /// The class at position `i` counted from C; positions repeat every
    /// twelve.
    pub fn from_index(i: u32) -> (p: PitchClass)
        ensures
            p == PitchClass::spec_from_index(i as int),
            p.spec_index() == i % 12,
    {
        let r: u32 = i % 12;
        if r == 0 {
            PitchClass::C
        } else if r == 1 {
            PitchClass::CSharp
        } else if r == 2 {
            PitchClass::D
        } else if r == 3 {
            PitchClass::DSharp
        } else if r == 4 {
            PitchClass::E
        } else if r == 5 {
            PitchClass::F
        } else if r == 6 {
            PitchClass::FSharp
        } else if r == 7 {
            PitchClass::G
        } else if r == 8 {
            PitchClass::GSharp
        } else if r == 9 {
            PitchClass::A
        } else if r == 10 {
            PitchClass::ASharp
        } else {
            PitchClass::B
        }
    }

    /// The name of the class in the given vocabulary.
    pub fn name(&self, notation: Notation) -> (s: &'static str)
        ensures
            s@ == self.spec_name(notation),
    {
        match notation {
            Notation::English => match self {
                PitchClass::C => "C",
                PitchClass::CSharp => "C#",
                PitchClass::D => "D",
                PitchClass::DSharp => "D#",
                PitchClass::E => "E",
                PitchClass::F => "F",
                PitchClass::FSharp => "F#",
                PitchClass::G => "G",
                PitchClass::GSharp => "G#",
                PitchClass::A => "A",
                PitchClass::ASharp => "A#",
                PitchClass::B => "B",
            },
            Notation::Romance => match self {
                PitchClass::C => "Do",
                PitchClass::CSharp => "Do#",
                PitchClass::D => "Re",
                PitchClass::DSharp => "Re#",
                PitchClass::E => "Mi",
                PitchClass::F => "Fa",
                PitchClass::FSharp => "Fa#",
                PitchClass::G => "Sol",
                PitchClass::GSharp => "Sol#",
                PitchClass::A => "La",
                PitchClass::ASharp => "La#",
                PitchClass::B => "Si",
            },
        }
    }
}

impl Notation {
    /// The vocabulary that a one-letter flag selects: `e` is English,
    /// anything else Romance.
    pub open spec fn spec_from_flag(flag: Seq<char>) -> Notation {
        if flag == seq!['e'] {
            Notation::English
        } else {
            Notation::Romance
        }
    }

    /// The vocabulary that a one-letter flag selects: `e` is English,
    /// anything else Romance.
    pub fn from_flag(flag: &str) -> (n: Notation)
        ensures
            n == Notation::spec_from_flag(flag@),
    {
        if flag.unicode_len() == 1 && flag.get_char(0) == 'e' {
            assert(flag@ == seq!['e']);
            Notation::English
        } else {
            Notation::Romance
        }
    }
}

/// The semitone nearest to a pitch lying `cents` cents above the concert
/// pitch.
pub fn nearest_semitone(cents: i32) -> (n: i32)
    ensures
        n == spec_nearest_semitone(cents as int),
{
    let step: i64 = CENTS_PER_SEMITONE as i64;
    let wide: i64 = cents as i64 + 49;
    if wide >= 0 {
        (wide / step) as i32
    } else {
        let up: i64 = (step - 1 - wide) / step;
        (-up) as i32
    }
}

/// How far, in cents, a pitch lies above its nearest semitone: more than
/// -50 and at most 50.
pub fn cents_offset(cents: i32) -> (d: i32)
    ensures
        d == spec_cents_offset(cents as int),
        -50 < d <= 50,
{
    let n: i64 = nearest_semitone(cents) as i64;
    (cents as i64 - CENTS_PER_SEMITONE as i64 * n) as i32
}

/// The octave that semitone `n` lies in.
pub fn octave_of(n: i32) -> (o: i32)
    ensures
        o == spec_octave(n as int),
{
    let span: i64 = SEMITONES_PER_OCTAVE as i64;
    let key: i64 = n as i64 + CONCERT_PITCH_KEY as i64;
    if key >= 0 {
        (key / span - 1) as i32
    } else {
        let up: i64 = (span - 1 - key) / span;
        (-up - 1) as i32
    }
}

/// The pitch class of semitone `n`.
pub fn pitch_class_of(n: i32) -> (p: PitchClass)
    ensures
        p == PitchClass::spec_from_index(spec_pitch_index(n as int)),
        p.spec_index() == spec_pitch_index(n as int),
{
    let span: i64 = SEMITONES_PER_OCTAVE as i64;
    let key: i64 = n as i64 + CONCERT_PITCH_KEY as i64;
    let r: i64 = if key >= 0 {
        key % span
    } else {
        let m: i64 = (-key) % span;
        if m == 0 {
            0
        } else {
            span - m
        }
    };
    assert(r == spec_pitch_index(n as int));
    PitchClass::from_index(r as u32)
}

/// The musical name of one spectral peak.
#[derive(Clone, Copy, Debug, PartialEq, Eq, Structural)]
pub struct NoteEvent {
    /// The pitch class of the nearest semitone.
    pub pitch_class: PitchClass,
    /// The octave of the nearest semitone.
    pub octave: i32,
    /// The deviation from the nearest semitone in cents, more than -50 and
    /// at most 50.
    pub cents_offset: i32,
}

/// A note as mathematical values.
pub struct NoteModel {
    /// The pitch class of the nearest semitone.
    pub pitch_class: PitchClass,
    /// The octave of the nearest semitone.
    pub octave: int,
    /// The deviation from the nearest semitone in cents.
    pub cents_offset: int,
}

impl NoteModel {
    /// The semitone that the note names, counted from the concert pitch.
    pub open spec fn semitone(self) -> int {
        12 * (self.octave + 1) + self.pitch_class.spec_index() - 69
    }
}

impl View for NoteEvent {
    type V = NoteModel;

    open spec fn view(&self) -> NoteModel {
        NoteModel {
            pitch_class: self.pitch_class,
            octave: self.octave as int,
            cents_offset: self.cents_offset as int,
        }
    }
}

/// The note of a pitch lying `cents` cents above the concert pitch.
pub open spec fn spec_note(cents: int) -> NoteModel {
    let n = spec_nearest_semitone(cents);
    NoteModel {
        pitch_class: PitchClass::spec_from_index(spec_pitch_index(n)),
        octave: spec_octave(n),
        cents_offset: spec_cents_offset(cents),
    }
}

impl NoteEvent {
    /// The note of a pitch lying `cents` cents above the concert pitch.
    pub fn from_cents(cents: i32) -> (note: NoteEvent)
        ensures
            note@ == spec_note(cents as int),
            -50 < note.cents_offset <= 50,
    {
        let n: i32 = nearest_semitone(cents);
        NoteEvent {
            pitch_class: pitch_class_of(n),
            octave: octave_of(n),
            cents_offset: cents_offset(cents),
        }
    }
}

/// Names every peak, in the order given; peaks that fall on the same note
/// each keep their entry.
pub fn notes_from_cents(peaks: &Vec<i32>) -> (notes: Vec<NoteEvent>)
    ensures
        notes@.len() == peaks@.len(),
        forall|i: int| 0 <= i < peaks@.len() ==> (#[trigger] notes@[i])@ == spec_note(peaks@[i] as int),
{
    let mut notes: Vec<NoteEvent> = Vec::new();
    let mut i: usize = 0;
    while i < peaks.len()
        invariant
            i <= peaks@.len(),
            notes@.len() == i,
            forall|j: int| 0 <= j < i ==> (#[trigger] notes@[j])@ == spec_note(peaks@[j] as int),
        decreases peaks@.len() - i,
    {
        notes.push(NoteEvent::from_cents(peaks[i]));
        i = i + 1;
    }
    notes
}

/// A pitch that lies `d` cents from semitone `n`, with `d` more than -50 and
/// at most 50, is named as semitone `n` with offset `d`; a pitch exactly on
/// a semitone has offset 0.
pub proof fn lemma_pitch_round_trip(n: int, d: int)
    requires
        -50 < d <= 50,
    ensures
        spec_nearest_semitone(100 * n + d) == n,
        spec_cents_offset(100 * n + d) == d,
        spec_note(100 * n + d) == (NoteModel {
            pitch_class: PitchClass::spec_from_index(spec_pitch_index(n)),
            octave: spec_octave(n),
            cents_offset: d,
        }),
        spec_note(100 * n) == (NoteModel {
            pitch_class: PitchClass::spec_from_index(spec_pitch_index(n)),
            octave: spec_octave(n),
            cents_offset: 0,
        }),
{
}

/// The offset of every pitch is more than -50 and at most 50, and the
/// nearest semitone and the offset together give the pitch back.
pub proof fn lemma_offset_bounds(cents: int)
    ensures
        -50 < spec_cents_offset(cents) <= 50,
        100 * spec_nearest_semitone(cents) + spec_cents_offset(cents) == cents,
{
}

/// Twelve semitones up is the same pitch class one octave higher.
pub proof fn lemma_octave_cycle(n: int)
    ensures
        spec_pitch_index(n + 12) == spec_pitch_index(n),
        spec_octave(n + 12) == spec_octave(n) + 1,
{
}

/// Pitch class and octave name the nearest semitone, and only that one.
pub proof fn lemma_note_names_semitone(cents: int)
    ensures
        spec_note(cents).semitone() == spec_nearest_semitone(cents),
        100 * spec_note(cents).semitone() + spec_note(cents).cents_offset == cents,
{
}

} // verus!
