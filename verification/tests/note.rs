use melody_visualizer::note::{decimal_text, iter, Note, NoteBound, PitchClass};

fn note(pitch_class: PitchClass, octave: i8) -> Note {
    Note { octave, pitch_class }
}

#[test]
fn note_iterator() {
    let mut notes = iter(
        NoteBound::Included(note(PitchClass::A, 2)),
        NoteBound::Excluded(note(PitchClass::B, 3)),
    );
    while let Some(note) = notes.next() {
        println!("{}", note.to_string());
    }
}

#[test]
fn an_excluded_end_stops_a_half_step_short() {
    let mut notes = iter(
        NoteBound::Included(note(PitchClass::A, 2)),
        NoteBound::Excluded(note(PitchClass::D, 3)),
    );
    let mut names = Vec::new();
    while let Some(note) = notes.next() {
        names.push(note.to_string());
    }
    assert_eq!(names, ["A2", "Bb2", "B2", "C3", "Db3"]);
}

#[test]
fn an_included_end_is_reached_and_an_excluded_start_skipped() {
    let mut notes = iter(
        NoteBound::Excluded(note(PitchClass::B, 3)),
        NoteBound::Included(note(PitchClass::D, 4)),
    );
    let mut got = Vec::new();
    while let Some(note) = notes.next() {
        got.push(note);
    }
    assert_eq!(
        got,
        [note(PitchClass::C, 4), note(PitchClass::Db, 4), note(PitchClass::D, 4)]
    );
    assert_eq!(notes.next(), None, "an exhausted iterator stays exhausted");
}

#[test]
fn an_unbounded_start_yields_nothing() {
    let mut notes = iter(NoteBound::Unbounded, NoteBound::Included(note(PitchClass::C, 4)));
    assert_eq!(notes.next(), None);
}

#[test]
fn an_empty_range_yields_nothing() {
    let mut notes = iter(
        NoteBound::Included(note(PitchClass::C, 4)),
        NoteBound::Excluded(note(PitchClass::C, 4)),
    );
    assert_eq!(notes.next(), None);
    assert_eq!(notes.size_hint(), (0, None));
}

#[test]
fn next_steps_a_half_step_and_wraps_the_octave() {
    assert_eq!(note(PitchClass::C, 4).next(), note(PitchClass::Db, 4));
    assert_eq!(note(PitchClass::B, 4).next(), note(PitchClass::C, 5));
    assert_eq!(note(PitchClass::G, -1).next(), note(PitchClass::Ab, -1));
}

#[test]
fn half_step_counts_start_at_c_in_octave_zero() {
    assert_eq!(note(PitchClass::C, 0).to_half_step_count(), 0);
    assert_eq!(note(PitchClass::A, 4).to_half_step_count(), 57);
    assert_eq!(note(PitchClass::B, -1).to_half_step_count(), -1);
    assert_eq!(Note::from_half_step_count(-1), note(PitchClass::B, -1));
    assert_eq!(Note::from_half_step_count(57), note(PitchClass::A, 4));
    assert_eq!(Note::from_half_step_count(-1536), note(PitchClass::C, -128));
    assert_eq!(Note::from_half_step_count(1535), note(PitchClass::B, 127));
}

#[test]
fn notes_add_and_subtract_in_half_steps() {
    let a4 = note(PitchClass::A, 4);
    assert_eq!(a4 + 3, note(PitchClass::C, 5));
    assert_eq!(a4 + -10, note(PitchClass::B, 3));
    assert_eq!(note(PitchClass::C, 5) - a4, 3);
    assert_eq!(a4 - note(PitchClass::C, 5), -3);
    assert_eq!((a4 + 25) - a4, 25);
}

#[test]
fn notes_are_ordered_by_pitch_not_by_spelling() {
    // Ab sorts first among the pitch classes, but sits above G in its octave.
    assert!(note(PitchClass::G, 4) < note(PitchClass::Ab, 4));
    assert!(note(PitchClass::B, 3) < note(PitchClass::C, 4));
    assert!(note(PitchClass::C, 4) <= note(PitchClass::C, 4));
    assert!(note(PitchClass::C, 5) > note(PitchClass::B, 4));
}

#[test]
fn a_note_prints_as_its_name_and_octave() {
    assert_eq!(note(PitchClass::Db, 3).to_string(), "Db3");
    assert_eq!(note(PitchClass::A, -1).to_string(), "A-1");
    assert_eq!(note(PitchClass::C, 127).to_string(), "C127");
    assert_eq!(note(PitchClass::C, -128).to_string(), "C-128");
    assert_eq!(PitchClass::Bb.to_string(), "Bb");
    assert_eq!(PitchClass::Gb.name(), "Gb");
}

#[test]
fn numbers_are_written_in_decimal_without_leading_zeros() {
    assert_eq!(decimal_text(0), "0");
    assert_eq!(decimal_text(7), "7");
    assert_eq!(decimal_text(10), "10");
    assert_eq!(decimal_text(2048), "2048");
    assert_eq!(decimal_text(u64::MAX), u64::MAX.to_string());
}
