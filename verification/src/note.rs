//! Notes of the twelve-tone equal-tempered scale, addressed by octave and
//! pitch class, and counted in half steps.

use vstd::prelude::*;

verus! {

/// The twelve pitch classes of the chromatic scale.
#[derive(Debug, Clone, Copy, PartialEq, Eq, Structural)]
pub enum PitchClass {
    Ab,
    A,
    Bb,
    B,
    C,
    Db,
    D,
    Eb,
    E,
    F,
    Gb,
    G,
}

/// A note: a pitch class in an octave. Octave 4 holds middle C and A440.
#[derive(Debug, Clone, Copy, PartialEq, Eq, Structural)]
pub struct Note {
    pub octave: i8,
    pub pitch_class: PitchClass,
}

/// Half steps from C up to `pitch_class`, within one octave.
pub open spec fn pitch_index(pitch_class: PitchClass) -> int {
    match pitch_class {
        PitchClass::C => 0,
        PitchClass::Db => 1,
        PitchClass::D => 2,
        PitchClass::Eb => 3,
        PitchClass::E => 4,
        PitchClass::F => 5,
        PitchClass::Gb => 6,
        PitchClass::G => 7,
        PitchClass::Ab => 8,
        PitchClass::A => 9,
        PitchClass::Bb => 10,
        PitchClass::B => 11,
    }
}

/// The pitch class `index` half steps above C, for `0 <= index < 12`.
pub open spec fn pitch_at(index: int) -> PitchClass {
    if index == 0 {
        PitchClass::C
    } else if index == 1 {
        PitchClass::Db
    } else if index == 2 {
        PitchClass::D
    } else if index == 3 {
        PitchClass::Eb
    } else if index == 4 {
        PitchClass::E
    } else if index == 5 {
        PitchClass::F
    } else if index == 6 {
        PitchClass::Gb
    } else if index == 7 {
        PitchClass::G
    } else if index == 8 {
        PitchClass::Ab
    } else if index == 9 {
        PitchClass::A
    } else if index == 10 {
        PitchClass::Bb
    } else {
        PitchClass::B
    }
}

/// The lowest half-step count a `Note` can hold: C in octave -128.
pub open spec fn min_half_steps() -> int {
    -1536
}

/// The highest half-step count a `Note` can hold: B in octave 127.
pub open spec fn max_half_steps() -> int {
    1535
}

/// Whether a half-step count names a note whose octave fits an `i8`.
pub open spec fn representable(count: int) -> bool {
    min_half_steps() <= count <= max_half_steps()
}

impl Note {
    /// The note's position in half steps, with C in octave 0 at zero.
    pub open spec fn half_steps(self) -> int {
        self.octave as int * 12 + pitch_index(self.pitch_class)
    }

    /// The note `count` half steps above C in octave 0.
    pub open spec fn at_half_steps(count: int) -> Note {
        Note { octave: (count / 12) as i8, pitch_class: pitch_at(count % 12) }
    }

    /// The highest note there is, B in octave 127.
    pub open spec fn is_top(self) -> bool {
        self.octave == 127 && self.pitch_class == PitchClass::B
    }

    /// The note a half step above this one.
    pub fn next(&self) -> (note: Self)
        requires
            !self.is_top(),
        ensures
            note.half_steps() == self.half_steps() + 1,
            note == Note::at_half_steps(self.half_steps() + 1),
    {
        let octave = self.octave;
        let note = match self.pitch_class {
            PitchClass::C => Note { octave, pitch_class: PitchClass::Db },
            PitchClass::Db => Note { octave, pitch_class: PitchClass::D },
            PitchClass::D => Note { octave, pitch_class: PitchClass::Eb },
            PitchClass::Eb => Note { octave, pitch_class: PitchClass::E },
            PitchClass::E => Note { octave, pitch_class: PitchClass::F },
            PitchClass::F => Note { octave, pitch_class: PitchClass::Gb },
            PitchClass::Gb => Note { octave, pitch_class: PitchClass::G },
            PitchClass::G => Note { octave, pitch_class: PitchClass::Ab },
            PitchClass::Ab => Note { octave, pitch_class: PitchClass::A },
            PitchClass::A => Note { octave, pitch_class: PitchClass::Bb },
            PitchClass::Bb => Note { octave, pitch_class: PitchClass::B },
            PitchClass::B => Note { octave: octave + 1, pitch_class: PitchClass::C },
        };
        proof {
            lemma_half_steps_round_trip(note);
        }
        note
    }

    /// The note's position in half steps, with C in octave 0 at zero.
    pub fn to_half_step_count(&self) -> (count: isize)
        ensures
            count == self.half_steps(),
            representable(count as int),
    {
        let pitch_class_half_steps: isize = match self.pitch_class {
            PitchClass::C => 0,
            PitchClass::Db => 1,
            PitchClass::D => 2,
            PitchClass::Eb => 3,
            PitchClass::E => 4,
            PitchClass::F => 5,
            PitchClass::Gb => 6,
            PitchClass::G => 7,
            PitchClass::Ab => 8,
            PitchClass::A => 9,
            PitchClass::Bb => 10,
            PitchClass::B => 11,
        };
        self.octave as isize * 12 + pitch_class_half_steps
    }

    /// The note `count` half steps above C in octave 0.
    pub fn from_half_step_count(count: isize) -> (note: Self)
        requires
            representable(count as int),
        ensures
            note == Note::at_half_steps(count as int),
            note.half_steps() == count,
    {
        // Shifted to start at octave -128, where the count is never negative and
        // unsigned division is the Euclidean one.
        let shifted = (count + 1536) as usize;
        let octave_index = shifted / 12;
        let pitch = shifted % 12;
        let octave = (octave_index as isize - 128) as i8;
        let pitch_class = if pitch == 0 {
            PitchClass::C
        } else if pitch == 1 {
            PitchClass::Db
        } else if pitch == 2 {
            PitchClass::D
        } else if pitch == 3 {
            PitchClass::Eb
        } else if pitch == 4 {
            PitchClass::E
        } else if pitch == 5 {
            PitchClass::F
        } else if pitch == 6 {
            PitchClass::Gb
        } else if pitch == 7 {
            PitchClass::G
        } else if pitch == 8 {
            PitchClass::Ab
        } else if pitch == 9 {
            PitchClass::A
        } else if pitch == 10 {
            PitchClass::Bb
        } else {
            PitchClass::B
        };
        proof {
            assert(count as int / 12 == octave_index - 128 && count as int % 12 == pitch) by {
                vstd::arithmetic::div_mod::lemma_fundamental_div_mod(shifted as int, 12);
                vstd::arithmetic::div_mod::lemma_fundamental_div_mod_converse(
                    count as int,
                    12,
                    octave_index - 128,
                    pitch as int,
                );
            };
            let note = Note { octave, pitch_class };
            lemma_half_steps_round_trip(note);
        }
        Note { octave, pitch_class }
    }
}

impl core::cmp::PartialOrd for Note {
    /// Notes are ordered by pitch: by half steps, whatever their spelling.
    fn partial_cmp(&self, other: &Self) -> (order: Option<core::cmp::Ordering>) {
        let a = self.to_half_step_count();
        let b = other.to_half_step_count();
        if a < b {
            Some(core::cmp::Ordering::Less)
        } else if a == b {
            Some(core::cmp::Ordering::Equal)
        } else {
            Some(core::cmp::Ordering::Greater)
        }
    }
}

impl vstd::std_specs::cmp::PartialOrdSpecImpl for Note {
    open spec fn obeys_partial_cmp_spec() -> bool {
        true
    }

    open spec fn partial_cmp_spec(&self, other: &Self) -> Option<core::cmp::Ordering> {
        if self.half_steps() < other.half_steps() {
            Some(core::cmp::Ordering::Less)
        } else if self.half_steps() == other.half_steps() {
            Some(core::cmp::Ordering::Equal)
        } else {
            Some(core::cmp::Ordering::Greater)
        }
    }
}

impl core::ops::Add<isize> for Note {
    type Output = Note;

    /// The note `rhs` half steps above this one (below it, for a negative `rhs`).
    fn add(self, rhs: isize) -> (note: Note) {
        Note::from_half_step_count(self.to_half_step_count() + rhs)
    }
}

impl vstd::std_specs::ops::AddSpecImpl<isize> for Note {
    open spec fn obeys_add_spec() -> bool {
        true
    }

    open spec fn add_req(self, rhs: isize) -> bool {
        representable(self.half_steps() + rhs)
    }

    open spec fn add_spec(self, rhs: isize) -> Note {
        Note::at_half_steps(self.half_steps() + rhs)
    }
}

impl core::ops::Sub for Note {
    type Output = isize;

    /// The interval from `rhs` up to this note, in half steps.
    fn sub(self, rhs: Note) -> (interval: isize) {
        self.to_half_step_count() - rhs.to_half_step_count()
    }
}

impl vstd::std_specs::ops::SubSpecImpl for Note {
    open spec fn obeys_sub_spec() -> bool {
        true
    }

    open spec fn sub_req(self, rhs: Note) -> bool {
        true
    }

    open spec fn sub_spec(self, rhs: Note) -> isize {
        (self.half_steps() - rhs.half_steps()) as isize
    }
}

/// The notes from `low` up to `high` half steps, a half step apart, both ends
/// included; empty when `high` is below `low`.
pub open spec fn notes_between(low: int, high: int) -> Seq<Note> {
    Seq::new(
        if low <= high {
            (high - low + 1) as nat
        } else {
            0
        },
        |i: int| Note::at_half_steps(low + i),
    )
}

/// One end of a range of notes, as `std::ops::Bound` has it.
#[derive(Debug, Clone, Copy, PartialEq, Eq, Structural)]
pub enum NoteBound {
    Included(Note),
    Excluded(Note),
    Unbounded,
}

/// Walks the notes of a range upward, a half step at a time.
pub struct NoteIterator {
    next: Option<Note>,
    end: Note,
}

impl View for NoteIterator {
    type V = Seq<Note>;

    /// The notes still to come, in order.
    closed spec fn view(&self) -> Seq<Note> {
        match self.next {
            Some(next) => notes_between(next.half_steps(), self.end.half_steps()),
            None => Seq::empty(),
        }
    }
}

impl NoteIterator {
    /// The next note of the range, or `None` once it is exhausted.
    ///
    /// The walk steps past the note it returns, so it cannot return the
    /// highest note there is: a range ending there has no note to step to.
    pub fn next(&mut self) -> (note: Option<Note>)
        requires
            !(old(self)@.len() > 0 && old(self)@[0].is_top()),
        ensures
            note == (if old(self)@.len() > 0 {
                Some(old(self)@[0])
            } else {
                None::<Note>
            }),
            final(self)@ == (if old(self)@.len() > 0 {
                old(self)@.drop_first()
            } else {
                old(self)@
            }),
    {
        let next = match self.next {
            Some(next) => next,
            None => return None,
        };
        let end = self.end;
        if next > end {
            self.next = None;
            return None;
        }
        proof {
            lemma_half_steps_round_trip(next);
            assert(old(self)@[0] == next);
        }
        self.next = Some(next.next());
        proof {
            assert(self@ =~= old(self)@.drop_first());
        }
        Some(next)
    }

    /// A lower bound on the notes still to come: none is promised.
    pub fn size_hint(&self) -> (hint: (usize, Option<usize>))
        ensures
            hint == (0usize, None::<usize>),
    {
        (0, None)
    }
}

/// An iterator over the notes between `start` and `end`, in ascending order.
///
/// A range with no lower bound yields nothing: there is no first note to
/// start it from.
pub fn iter(start: NoteBound, end: NoteBound) -> (notes: NoteIterator)
    requires
        start matches NoteBound::Excluded(note) ==> !note.is_top(),
        end matches NoteBound::Excluded(note) ==> note.half_steps() > min_half_steps(),
    ensures
        notes@ == match start {
            NoteBound::Unbounded => Seq::<Note>::empty(),
            _ => notes_between(
                match start {
                    NoteBound::Excluded(note) => note.half_steps() + 1,
                    NoteBound::Included(note) => note.half_steps(),
                    NoteBound::Unbounded => 0,
                },
                match end {
                    NoteBound::Included(note) => note.half_steps(),
                    NoteBound::Excluded(note) => note.half_steps() - 1,
                    NoteBound::Unbounded => max_half_steps(),
                },
            ),
        },
{
    let next = match start {
        NoteBound::Included(note) => Some(note),
        NoteBound::Excluded(note) => Some(note.next()),
        NoteBound::Unbounded => None,
    };
    let end = match end {
        NoteBound::Included(note) => note,
        NoteBound::Excluded(note) => {
            proof {
                lemma_half_steps_round_trip(note);
            }
            note + -1
        },
        NoteBound::Unbounded => Note { octave: 127, pitch_class: PitchClass::B },
    };
    NoteIterator { next, end }
}

/// The name of a pitch class, as it is printed.
pub open spec fn pitch_name(pitch_class: PitchClass) -> Seq<char> {
    match pitch_class {
        PitchClass::Ab => "Ab"@,
        PitchClass::A => "A"@,
        PitchClass::Bb => "Bb"@,
        PitchClass::B => "B"@,
        PitchClass::C => "C"@,
        PitchClass::Db => "Db"@,
        PitchClass::D => "D"@,
        PitchClass::Eb => "Eb"@,
        PitchClass::E => "E"@,
        PitchClass::F => "F"@,
        PitchClass::Gb => "Gb"@,
        PitchClass::G => "G"@,
    }
}

/// The decimal digit for `digit`, `0 <= digit < 10`.
pub open spec fn digit_char(digit: int) -> char {
    if digit == 0 {
        '0'
    } else if digit == 1 {
        '1'
    } else if digit == 2 {
        '2'
    } else if digit == 3 {
        '3'
    } else if digit == 4 {
        '4'
    } else if digit == 5 {
        '5'
    } else if digit == 6 {
        '6'
    } else if digit == 7 {
        '7'
    } else if digit == 8 {
        '8'
    } else {
        '9'
    }
}

/// The decimal digits of `n >= 0`, most significant first, without leading zeros.
pub open spec fn decimal_digits(n: nat) -> Seq<char>
    decreases n,
{
    if n < 10 {
        seq![digit_char(n as int)]
    } else {
        decimal_digits(n / 10).push(digit_char((n % 10) as int))
    }
}

/// `n` written in decimal, with a leading minus sign when it is negative.
pub open spec fn decimal(n: int) -> Seq<char> {
    if n < 0 {
        seq!['-'] + decimal_digits((-n) as nat)
    } else {
        decimal_digits(n as nat)
    }
}

/// The decimal digit `digit` as text.
fn digit_text(digit: u64) -> (text: &'static str)
    requires
        digit < 10,
    ensures
        text@ == seq![digit_char(digit as int)],
{
    if digit == 0 {
        proof {
            reveal_strlit("0");
        }
        "0"
    } else if digit == 1 {
        proof {
            reveal_strlit("1");
        }
        "1"
    } else if digit == 2 {
        proof {
            reveal_strlit("2");
        }
        "2"
    } else if digit == 3 {
        proof {
            reveal_strlit("3");
        }
        "3"
    } else if digit == 4 {
        proof {
            reveal_strlit("4");
        }
        "4"
    } else if digit == 5 {
        proof {
            reveal_strlit("5");
        }
        "5"
    } else if digit == 6 {
        proof {
            reveal_strlit("6");
        }
        "6"
    } else if digit == 7 {
        proof {
            reveal_strlit("7");
        }
        "7"
    } else if digit == 8 {
        proof {
            reveal_strlit("8");
        }
        "8"
    } else {
        proof {
            reveal_strlit("9");
        }
        "9"
    }
}

/// `n` written in decimal.
pub fn decimal_text(n: u64) -> (text: String)
    ensures
        text@ == decimal(n as int),
    decreases n,
{
    if n < 10 {
        digit_text(n).to_owned()
    } else {
        let mut text = decimal_text(n / 10);
        text.append(digit_text(n % 10));
        text
    }
}

/// An octave number in decimal, with a minus sign below octave zero.
fn octave_text(octave: i8) -> (text: String)
    ensures
        text@ == decimal(octave as int),
{
    if octave < 0 {
        let magnitude: u64 = (0i16 - octave as i16) as u64;
        let mut text = "-".to_owned();
        let digits = decimal_text(magnitude);
        text.append(digits.as_str());
        proof {
            reveal_strlit("-");
        }
        text
    } else {
        decimal_text(octave as u64)
    }
}

impl PitchClass {
    /// The pitch class's name: its letter, and a `b` for a flat.
    pub fn name(&self) -> (name: &'static str)
        ensures
            name@ == pitch_name(*self),
    {
        match self {
            PitchClass::Ab => "Ab",
            PitchClass::A => "A",
            PitchClass::Bb => "Bb",
            PitchClass::B => "B",
            PitchClass::C => "C",
            PitchClass::Db => "Db",
            PitchClass::D => "D",
            PitchClass::Eb => "Eb",
            PitchClass::E => "E",
            PitchClass::F => "F",
            PitchClass::Gb => "Gb",
            PitchClass::G => "G",
        }
    }

    /// The pitch class's name, as an owned string.
    pub fn to_string(&self) -> (text: String)
        ensures
            text@ == pitch_name(*self),
    {
        self.name().to_owned()
    }
}

impl Note {
    /// The note as it is printed: its pitch class's name, then its octave.
    pub fn to_string(&self) -> (text: String)
        ensures
            text@ == pitch_name(self.pitch_class) + decimal(self.octave as int),
    {
        let mut text = self.pitch_class.name().to_owned();
        let octave = octave_text(self.octave);
        text.append(octave.as_str());
        text
    }
}

/// Naming a half-step count as a note and counting the note again gives the
/// count back.
pub proof fn law_count_round_trip(count: int)
    requires
        representable(count),
    ensures
        Note::at_half_steps(count).half_steps() == count,
{
    let q = count / 12;
    let r = count % 12;
    vstd::arithmetic::div_mod::lemma_fundamental_div_mod(count, 12);
    assert(-128 <= q <= 127);
    assert(pitch_index(pitch_at(r)) == r);
}

/// Two notes at the same pitch are the same note, so the order by pitch is
/// total on notes.
pub proof fn law_pitch_identifies_note(a: Note, b: Note)
    ensures
        a.half_steps() == b.half_steps() <==> a == b,
{
    lemma_half_steps_round_trip(a);
    lemma_half_steps_round_trip(b);
}

/// Moving a note by `interval` half steps and measuring the distance moved
/// gives `interval` back.
pub proof fn law_add_then_sub(note: Note, interval: int)
    requires
        representable(note.half_steps() + interval),
    ensures
        Note::at_half_steps(note.half_steps() + interval).half_steps() - note.half_steps()
            == interval,
{
    law_count_round_trip(note.half_steps() + interval);
}

/// The notes of a range rise a half step at a time.
pub proof fn law_notes_rise_by_half_steps(low: int, high: int, i: int)
    requires
        representable(low),
        representable(high),
        0 <= i,
        i + 1 < notes_between(low, high).len(),
    ensures
        notes_between(low, high)[i + 1].half_steps() == notes_between(low, high)[i].half_steps()
            + 1,
{
    law_count_round_trip(low + i);
    law_count_round_trip(low + i + 1);
}

/// The pitch classes lie on the chromatic scale from C: the naturals C, D,
/// E, F, G, A and B rise from C by a whole, whole, half, whole, whole and
/// whole step, and each flat lies a half step below the natural of its
/// letter. So each pitch class sits a fixed number of half steps above C:
/// C 0, Db 1, D 2, Eb 3, E 4, F 5, Gb 6, G 7, Ab 8, A 9, Bb 10, B 11, and
/// every position of the octave names exactly one of them.
pub proof fn law_pitch_classes_on_the_chromatic_scale(pitch_class: PitchClass, index: int)
    requires
        0 <= index < 12,
    ensures
        pitch_index(PitchClass::C) == 0,
        pitch_index(PitchClass::D) == pitch_index(PitchClass::C) + 2,
        pitch_index(PitchClass::E) == pitch_index(PitchClass::D) + 2,
        pitch_index(PitchClass::F) == pitch_index(PitchClass::E) + 1,
        pitch_index(PitchClass::G) == pitch_index(PitchClass::F) + 2,
        pitch_index(PitchClass::A) == pitch_index(PitchClass::G) + 2,
        pitch_index(PitchClass::B) == pitch_index(PitchClass::A) + 2,
        pitch_index(PitchClass::Db) + 1 == pitch_index(PitchClass::D),
        pitch_index(PitchClass::Eb) + 1 == pitch_index(PitchClass::E),
        pitch_index(PitchClass::Gb) + 1 == pitch_index(PitchClass::G),
        pitch_index(PitchClass::Ab) + 1 == pitch_index(PitchClass::A),
        pitch_index(PitchClass::Bb) + 1 == pitch_index(PitchClass::B),
        0 <= pitch_index(pitch_class) < 12,
        pitch_index(pitch_at(index)) == index,
        pitch_at(pitch_index(pitch_class)) == pitch_class,
{
}

/// Each pitch class prints as its own name: a natural as its letter, and a
/// flat as the letter of the natural a half step above it, then `b`. So no
/// two pitch classes print the same name.
pub proof fn law_pitch_names(pitch_class: PitchClass, other: PitchClass)
    ensures
        pitch_name(PitchClass::C) == seq!['C'],
        pitch_name(PitchClass::D) == seq!['D'],
        pitch_name(PitchClass::E) == seq!['E'],
        pitch_name(PitchClass::F) == seq!['F'],
        pitch_name(PitchClass::G) == seq!['G'],
        pitch_name(PitchClass::A) == seq!['A'],
        pitch_name(PitchClass::B) == seq!['B'],
        pitch_name(PitchClass::Db) == pitch_name(PitchClass::D).push('b'),
        pitch_name(PitchClass::Eb) == pitch_name(PitchClass::E).push('b'),
        pitch_name(PitchClass::Gb) == pitch_name(PitchClass::G).push('b'),
        pitch_name(PitchClass::Ab) == pitch_name(PitchClass::A).push('b'),
        pitch_name(PitchClass::Bb) == pitch_name(PitchClass::B).push('b'),
        pitch_name(pitch_class) == pitch_name(other) ==> pitch_class == other,
{
    reveal_strlit("C");
    reveal_strlit("D");
    reveal_strlit("E");
    reveal_strlit("F");
    reveal_strlit("G");
    reveal_strlit("A");
    reveal_strlit("B");
    reveal_strlit("Db");
    reveal_strlit("Eb");
    reveal_strlit("Gb");
    reveal_strlit("Ab");
    reveal_strlit("Bb");
    assert(pitch_name(PitchClass::Db) =~= pitch_name(PitchClass::D).push('b'));
    assert(pitch_name(PitchClass::Eb) =~= pitch_name(PitchClass::E).push('b'));
    assert(pitch_name(PitchClass::Gb) =~= pitch_name(PitchClass::G).push('b'));
    assert(pitch_name(PitchClass::Ab) =~= pitch_name(PitchClass::A).push('b'));
    assert(pitch_name(PitchClass::Bb) =~= pitch_name(PitchClass::B).push('b'));
    assert(pitch_name(PitchClass::C) =~= seq!['C']);
    assert(pitch_name(PitchClass::D) =~= seq!['D']);
    assert(pitch_name(PitchClass::E) =~= seq!['E']);
    assert(pitch_name(PitchClass::F) =~= seq!['F']);
    assert(pitch_name(PitchClass::G) =~= seq!['G']);
    assert(pitch_name(PitchClass::A) =~= seq!['A']);
    assert(pitch_name(PitchClass::B) =~= seq!['B']);
    if pitch_name(pitch_class) == pitch_name(other) {
        let name = pitch_name(pitch_class);
        assert(name.len() == pitch_name(other).len());
        assert(name[0] == pitch_name(other)[0]);
        if name.len() == 2 {
            assert(name[1] == pitch_name(other)[1]);
        }
    }
}

/// Counting a note in half steps and naming the count again gives the note back.
pub proof fn lemma_half_steps_round_trip(note: Note)
    ensures
        Note::at_half_steps(note.half_steps()) == note,
        representable(note.half_steps()),
        note.half_steps() % 12 == pitch_index(note.pitch_class),
        note.half_steps() / 12 == note.octave,
{
    let c = note.half_steps();
    let p = pitch_index(note.pitch_class);
    assert(0 <= p < 12);
    vstd::arithmetic::div_mod::lemma_fundamental_div_mod_converse(c, 12, note.octave as int, p);
}

} // verus!
