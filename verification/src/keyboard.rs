//! The key row: twelve keys, one per pitch class, in keyboard order from C,
//! the black keys among them.

use vstd::prelude::*;

use crate::note::{PitchClass, pitch_at, pitch_index, pitch_name};

verus! {

/// The name a key prints for `pitch_class`, spelled the way the key row
/// spells it.
pub open spec fn key_label(pitch_class: PitchClass) -> Seq<char> {
    match pitch_class {
        PitchClass::C => "C"@,
        PitchClass::Db => "C♯"@,
        PitchClass::D => "D"@,
        PitchClass::Eb => "E♭"@,
        PitchClass::E => "E"@,
        PitchClass::F => "F"@,
        PitchClass::Gb => "F♯"@,
        PitchClass::G => "G"@,
        PitchClass::Ab => "A♭"@,
        PitchClass::A => "A"@,
        PitchClass::Bb => "B♭"@,
        PitchClass::B => "B"@,
    }
}

/// Whether `pitch_class` is a black key.
pub open spec fn black_key(pitch_class: PitchClass) -> bool {
    match pitch_class {
        PitchClass::Db | PitchClass::Eb | PitchClass::Gb | PitchClass::Ab | PitchClass::Bb => true,
        _ => false,
    }
}

/// The black keys are exactly the five flats, Db, Eb, Gb, Ab and Bb: the
/// pitch classes whose name carries a flat. Counting from C they sit one,
/// three, six, eight and ten half steps up, and each has a white key on
/// either side.
pub proof fn law_black_keys_are_the_flats(pitch_class: PitchClass)
    ensures
        black_key(pitch_class) <==> (pitch_class == PitchClass::Db || pitch_class == PitchClass::Eb
            || pitch_class == PitchClass::Gb || pitch_class == PitchClass::Ab || pitch_class
            == PitchClass::Bb),
        black_key(pitch_class) <==> pitch_name(pitch_class).last() == 'b',
        black_key(pitch_class) <==> ({
            let index = pitch_index(pitch_class);
            index == 1 || index == 3 || index == 6 || index == 8 || index == 10
        }),
        black_key(pitch_class) ==> !black_key(pitch_at((pitch_index(pitch_class) + 1) % 12))
            && !black_key(pitch_at((pitch_index(pitch_class) + 11) % 12)),
{
    reveal_strlit("C");
    reveal_strlit("D");
    reveal_strlit("E");
    reveal_strlit("F");
    reveal_strlit("G");
    reveal_strlit("A");
    reveal_strlit("B");
    reveal_strlit("Db");
    reveal_strlit("Eb");
    reveal_strlit("Gb");
    reveal_strlit("Ab");
    reveal_strlit("Bb");
}

/// A white key is labelled with its pitch class's name. A black key is
/// labelled from a white neighbour: C♯ and F♯ a half step above C and F,
/// E♭, A♭ and B♭ a half step below E, A and B. No two keys share a label.
pub proof fn law_key_labels(pitch_class: PitchClass, other: PitchClass)
    ensures
        !black_key(pitch_class) ==> key_label(pitch_class) == pitch_name(pitch_class),
        key_label(PitchClass::Db) == pitch_name(PitchClass::C).push('♯'),
        key_label(PitchClass::Gb) == pitch_name(PitchClass::F).push('♯'),
        key_label(PitchClass::Eb) == pitch_name(PitchClass::E).push('♭'),
        key_label(PitchClass::Ab) == pitch_name(PitchClass::A).push('♭'),
        key_label(PitchClass::Bb) == pitch_name(PitchClass::B).push('♭'),
        key_label(pitch_class) == key_label(other) ==> pitch_class == other,
{
    reveal_strlit("C");
    reveal_strlit("D");
    reveal_strlit("E");
    reveal_strlit("F");
    reveal_strlit("G");
    reveal_strlit("A");
    reveal_strlit("B");
    reveal_strlit("C♯");
    reveal_strlit("E♭");
    reveal_strlit("F♯");
    reveal_strlit("A♭");
    reveal_strlit("B♭");
    assert(key_label(PitchClass::Db) =~= pitch_name(PitchClass::C).push('♯'));
    assert(key_label(PitchClass::Gb) =~= pitch_name(PitchClass::F).push('♯'));
    assert(key_label(PitchClass::Eb) =~= pitch_name(PitchClass::E).push('♭'));
    assert(key_label(PitchClass::Ab) =~= pitch_name(PitchClass::A).push('♭'));
    assert(key_label(PitchClass::Bb) =~= pitch_name(PitchClass::B).push('♭'));
    if key_label(pitch_class) == key_label(other) {
        let label = key_label(pitch_class);
        assert(label.len() == key_label(other).len());
        assert(label[0] == key_label(other)[0]);
        if label.len() == 2 {
            assert(label[1] == key_label(other)[1]);
        }
    }
}

/// The name of a pitch class as the key row prints it, so a stage row that
/// names the key agrees with the button that is down.
pub fn key_name(pitch_class: PitchClass) -> (name: &'static str)
    ensures
        name@ == key_label(pitch_class),
{
    match pitch_class {
        PitchClass::C => "C",
        PitchClass::Db => "C♯",
        PitchClass::D => "D",
        PitchClass::Eb => "E♭",
        PitchClass::E => "E",
        PitchClass::F => "F",
        PitchClass::Gb => "F♯",
        PitchClass::G => "G",
        PitchClass::Ab => "A♭",
        PitchClass::A => "A",
        PitchClass::Bb => "B♭",
        PitchClass::B => "B",
    }
}

/// Whether the key of `pitch_class` is drawn darker, as on a keyboard.
pub fn is_black_key(pitch_class: PitchClass) -> (black: bool)
    ensures
        black == black_key(pitch_class),
{
    match pitch_class {
        PitchClass::Db | PitchClass::Eb | PitchClass::Gb | PitchClass::Ab | PitchClass::Bb => true,
        _ => false,
    }
}

/// The number of keys on the row.
pub const KEY_COUNT: usize = 12;

/// The key at `position` on the row, counting from C on the left: its pitch
/// class, its name, and whether it is black.
pub fn key_at(position: usize) -> (key: (PitchClass, &'static str, bool))
    requires
        position < KEY_COUNT,
    ensures
        key.0 == pitch_at(position as int),
        pitch_index(key.0) == position,
        key.1@ == key_label(key.0),
        key.2 == black_key(key.0),
{
    let pitch_class = if position == 0 {
        PitchClass::C
    } else if position == 1 {
        PitchClass::Db
    } else if position == 2 {
        PitchClass::D
    } else if position == 3 {
        PitchClass::Eb
    } else if position == 4 {
        PitchClass::E
    } else if position == 5 {
        PitchClass::F
    } else if position == 6 {
        PitchClass::Gb
    } else if position == 7 {
        PitchClass::G
    } else if position == 8 {
        PitchClass::Ab
    } else if position == 9 {
        PitchClass::A
    } else if position == 10 {
        PitchClass::Bb
    } else {
        PitchClass::B
    };
    (pitch_class, key_name(pitch_class), is_black_key(pitch_class))
}

} // verus!
