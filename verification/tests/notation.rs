use alphatab_rs::accidentals::{accidental_marks, PitchEvent};
use alphatab_rs::display::{clef, display_pitch, ledger_lines, piano_finger, staff_position, stem_points_down};
use alphatab_rs::glyphs::{accidental_glyph, dynamic_glyph, flag_glyph, key_signature_marks, rest_glyph};
use alphatab_rs::notation::{key_accidental, validate_chord};
use alphatab_rs::numbered::{numbered_beat, numbered_key_label, numbered_note, sort_by_height, NumberedLength, NumberedNote};
use alphatab_rs::percussion::resolve;
use alphatab_rs::{Barre, ChordDiagram, Clef, DisplayMode, Duration, ErrorKind, MusicGlyph, NoteHead, Ornament, Ottava, Pitch, StemDirection};

fn event(voice: usize, midi: u8) -> PitchEvent {
    PitchEvent { voice, beat: 0, note: 0, pitch: Pitch::from_midi(midi, false), tied: false, quarter_tone: 0 }
}

#[test]
fn key_spelling_handles_remote_keys() {
    const B_SHARP: Pitch = Pitch { step: 6, octave: 3, accidental: 1 };
    const C_FLAT: Pitch = Pitch { step: 0, octave: 4, accidental: -1 };
    assert_eq!(Pitch::spell_in_key(60, 7), B_SHARP);
    assert_eq!(Pitch::spell_in_key(59, -7), C_FLAT);
}

#[test]
fn spelling_in_common_keys() {
    assert_eq!(Pitch::spell_in_key(66, 1), Pitch { step: 3, octave: 4, accidental: 1 });
    assert_eq!(Pitch::spell_in_key(70, -1), Pitch { step: 6, octave: 4, accidental: -1 });
    assert_eq!(Pitch::spell_in_key(60, 0), Pitch { step: 0, octave: 4, accidental: 0 });
}

#[test]
fn from_midi_uses_the_requested_bias_and_round_trips() {
    assert_eq!(Pitch::from_midi(61, false), Pitch { step: 0, octave: 4, accidental: 1 });
    assert_eq!(Pitch::from_midi(61, true), Pitch { step: 1, octave: 4, accidental: -1 });
    assert_eq!(Pitch::from_midi(0, true), Pitch { step: 0, octave: -1, accidental: 0 });
    for midi in 0..=127u8 {
        assert_eq!(Pitch::from_midi(midi, false).to_midi().unwrap(), midi);
        assert_eq!(Pitch::from_midi(midi, true).to_midi().unwrap(), midi);
    }
}

#[test]
fn to_midi_rejects_invalid_spellings() {
    let e = Pitch { step: 7, octave: 4, accidental: 0 }.to_midi().unwrap_err();
    assert_eq!(e.kind, ErrorKind::InvalidInput);
    assert_eq!(e.message, "invalid pitch step");
    let e = Pitch { step: 6, octave: 9, accidental: 0 }.to_midi().unwrap_err();
    assert_eq!(e.message, "pitch outside MIDI range");
    assert_eq!(Pitch { step: 6, octave: 9, accidental: -4 }.to_midi().unwrap(), 127);
}

#[test]
fn key_signatures_alter_steps_in_order() {
    assert_eq!(key_accidental(1, 3), 1);
    assert_eq!(key_accidental(1, 0), 0);
    assert_eq!(key_accidental(-1, 6), -1);
    assert_eq!(key_accidental(-2, 2), -1);
    assert_eq!(key_accidental(7, 6), 1);
    assert_eq!(key_accidental(i8::MIN, 3), -1);
    assert_eq!(key_accidental(0, 3), 0);
}

#[test]
fn simultaneous_conflicting_accidentals_are_both_explicit() {
    let a = event(0, 66);
    let b = event(1, 65);
    let marks = accidental_marks(0, &vec![vec![a, b]]);
    assert_eq!(marks, vec![(0, 0, 0), (1, 0, 0)]);
}

#[test]
fn quarter_tone_accidentals_cancel_and_empty_diagrams_are_errors() {
    let mut first = event(0, 64);
    first.quarter_tone = 1;
    let mut second = event(0, 64);
    second.beat = 1;
    let marks = accidental_marks(0, &vec![vec![first], vec![second]]);
    assert_eq!(marks, vec![(0, 1, 0)]);
    let chord = ChordDiagram { first_fret: 1, ..Default::default() };
    assert!(validate_chord(0, &chord).is_err());
}

#[test]
fn accidentals_persist_through_the_measure_and_ties_are_silent() {
    let sharp = event(0, 66);
    let mut again = event(0, 66);
    again.beat = 1;
    let mut natural = PitchEvent { pitch: Pitch { step: 3, octave: 4, accidental: 0 }, ..event(0, 65) };
    natural.beat = 2;
    let mut tied = event(0, 66);
    tied.beat = 3;
    tied.tied = true;
    let marks = accidental_marks(0, &vec![vec![sharp], vec![again], vec![natural], vec![tied]]);
    assert_eq!(marks, vec![(0, 0, 0), (0, 2, 0)]);
    let in_key = event(0, 66);
    assert!(accidental_marks(1, &vec![vec![in_key]]).is_empty());
}

#[test]
fn wide_chord_diagrams_keep_fingerings_and_frets() {
    const HIGH_FRET: u16 = 9;
    let mut chord = ChordDiagram {
        name: "wide voicing".into(),
        first_fret: 1,
        frets: vec![Some(1), Some(HIGH_FRET), None, Some(0)],
        fingers: vec!["1".into(), "4".into(), String::new(), String::new()],
        ..Default::default()
    };
    assert!(validate_chord(4, &chord).is_ok());
    assert_eq!(chord.compute_rows(), HIGH_FRET);
    chord.fingers.pop();
    assert!(validate_chord(4, &chord).unwrap_err().message.contains("fingerings"));
}

#[test]
fn chord_diagram_rules() {
    let mut chord = ChordDiagram {
        first_fret: 3,
        frets: vec![Some(3), Some(5), Some(0), None],
        barres: vec![Barre { fret: 3, first_string: 1, last_string: 4 }],
        ..Default::default()
    };
    assert!(validate_chord(0, &chord).is_ok());
    assert_eq!(chord.compute_rows(), 5);
    assert_eq!(
        validate_chord(6, &chord).unwrap_err().message,
        "chord frets must be open or at/above the first fret"
    );
    chord.barres[0].last_string = 5;
    assert_eq!(validate_chord(4, &chord).unwrap_err().message, "invalid chord barre");
    chord.barres.clear();
    chord.frets[1] = Some(2);
    assert!(validate_chord(4, &chord).is_err());
    chord.fret_count = 7;
    assert_eq!(chord.compute_rows(), 7);
}

#[test]
fn percussion_chords_use_unpitched_clef_and_distinct_heads() {
    const SNARE: u16 = 38;
    const HIHAT: u16 = 42;
    let (snare_pitch, snare) = resolve(SNARE).unwrap();
    let (_, hihat) = resolve(HIHAT).unwrap();
    assert_eq!(snare[0], MusicGlyph::NoteheadBlack);
    assert_eq!(hihat[0], MusicGlyph::NoteheadXBlack);
    assert!(snare_pitch.to_midi().is_ok());
    let e = resolve(u16::MAX).unwrap_err();
    assert_eq!(e.message, "unsupported percussion articulation 65535");
}

#[test]
fn long_and_256th_durations_and_triple_dots_are_supported() {
    const BREVE_QUARTERS: f64 = 8.0;
    const LONGA_QUARTERS: f64 = 16.0;
    let ratio = |value: i16| {
        let q = Duration { value, dots: 0, tuplet: None }.compute_quarter_beats().unwrap();
        f64::from(q.numerator) / f64::from(q.denominator)
    };
    assert_eq!(ratio(-2), BREVE_QUARTERS);
    assert_eq!(ratio(-4), LONGA_QUARTERS);
    for value in [-4, -2, 1, 256] {
        assert!(Duration { value, dots: 3, tuplet: None }.compute_quarter_beats().is_ok());
    }
}

#[test]
fn duration_rejects_invalid_tuplets() {
    let duration = Duration { value: 4, dots: 0, tuplet: Some((3, 0)) };
    assert!(duration.compute_quarter_beats().is_err());
}

#[test]
fn durations_are_exact_fractions_of_quarters() {
    let dotted_eighth_triplet = Duration { value: 8, dots: 1, tuplet: Some((3, 2)) };
    let q = dotted_eighth_triplet.compute_quarter_beats().unwrap();
    assert_eq!(f64::from(q.numerator) / f64::from(q.denominator), 0.5);
    for value in [0, 3, 512, -1, -3] {
        let e = Duration { value, dots: 0, tuplet: None }.compute_quarter_beats().unwrap_err();
        assert_eq!(e.message, "invalid duration");
    }
    assert!(Duration { value: 4, dots: 4, tuplet: None }.compute_quarter_beats().is_err());
}

#[test]
fn numbered_and_slash_notation_render_without_guitar_strings() {
    let pitches = vec![Pitch::from_midi(64, false)];
    assert_eq!(numbered_key_label(0), "1 = C");
    assert_eq!(numbered_key_label(6), "1 = F#");
    assert_eq!(numbered_key_label(-7), "1 = Cb");
    let beat = numbered_beat(&pitches, Duration { value: 1, dots: 0, tuplet: None }, 0);
    assert_eq!(beat.notes, vec![NumberedNote { degree: 3, octave: 0, accidental: 0 }]);
    assert_eq!(beat.length, NumberedLength::Quarters(4));
}

#[test]
fn numbered_digits_follow_the_key() {
    assert_eq!(numbered_note(Pitch::from_midi(67, false), 1), NumberedNote { degree: 1, octave: 0, accidental: 0 });
    assert_eq!(numbered_note(Pitch::from_midi(59, false), 0), NumberedNote { degree: 7, octave: -1, accidental: 0 });
    assert_eq!(numbered_note(Pitch::from_midi(73, false), 0), NumberedNote { degree: 1, octave: 1, accidental: 1 });
    assert_eq!(numbered_note(Pitch { step: 6, octave: 4, accidental: -1 }, -1), NumberedNote { degree: 4, octave: 0, accidental: 0 });
    let dotted_half = numbered_beat(&vec![], Duration { value: 2, dots: 1, tuplet: None }, 0);
    assert!(dotted_half.notes.is_empty());
    assert_eq!(dotted_half.length, NumberedLength::Quarters(3));
    let dotted_quarter = numbered_beat(&vec![], Duration { value: 4, dots: 1, tuplet: None }, 0);
    assert_eq!(dotted_quarter.length, NumberedLength::Dots(1));
}

#[test]
fn pitches_sort_by_height_keeping_ties_in_order() {
    let c_sharp = Pitch { step: 0, octave: 4, accidental: 1 };
    let c = Pitch { step: 0, octave: 4, accidental: 0 };
    let g = Pitch { step: 4, octave: 3, accidental: 0 };
    assert_eq!(sort_by_height(&vec![c_sharp, g, c]), vec![g, c_sharp, c]);
}

#[test]
fn glyph_rules() {
    assert_eq!(rest_glyph(4), MusicGlyph::RestQuarter);
    assert_eq!(rest_glyph(256), MusicGlyph::Rest128th);
    assert_eq!(rest_glyph(-4), MusicGlyph::RestLonga);
    assert_eq!(flag_glyph(1, true), MusicGlyph::Flag8thDown);
    assert_eq!(dynamic_glyph("mf"), Some(MusicGlyph::DynamicMf));
    assert_eq!(dynamic_glyph("loud"), None);
    assert_eq!(NoteHead::Normal.resolve_glyph(4), MusicGlyph::NoteheadBlack);
    assert_eq!(NoteHead::Normal.resolve_glyph(1), MusicGlyph::NoteheadWhole);
    assert_eq!(Ottava::Below15.format_label(), "15mb");
    let _ = Ornament::Turn.resolve_glyph();
}

#[test]
fn display_choices() {
    assert!(stem_points_down(StemDirection::Auto, 1));
    assert!(!stem_points_down(StemDirection::Auto, 2));
    assert!(stem_points_down(StemDirection::Down, 0));
    let changes = vec![None, Some(Clef::Bass), None];
    assert_eq!(clef(Clef::Treble, &changes, 0), Clef::Treble);
    assert_eq!(clef(Clef::Treble, &changes, 2), Clef::Bass);
    assert_eq!(piano_finger("p"), "1");
    assert_eq!(piano_finger("3"), "4");
    assert_eq!(piano_finger("x"), "x");
    let shown = display_pitch(Pitch::from_midi(64, false), 12).unwrap();
    assert_eq!(shown, Pitch::from_midi(76, false));
    let flat = display_pitch(Pitch { step: 6, octave: 4, accidental: -1 }, 2).unwrap();
    assert_eq!(flat, Pitch { step: 0, octave: 5, accidental: 0 });
    assert!(display_pitch(Pitch { step: 8, octave: 4, accidental: 0 }, 0).is_err());
    assert!(DisplayMode::Both.renders_staff() && DisplayMode::Both.renders_tab());
    assert!(!DisplayMode::Numbered.renders_tab());
}

#[test]
fn staff_positions_and_ledger_lines() {
    assert_eq!(staff_position(Pitch::from_midi(64, false), Clef::Treble), 0);
    assert_eq!(staff_position(Pitch::from_midi(77, false), Clef::Treble), 8);
    assert_eq!(staff_position(Pitch::from_midi(60, false), Clef::Treble), -2);
    assert_eq!(staff_position(Pitch::from_midi(43, false), Clef::Bass), 0);
    assert_eq!(staff_position(Pitch::from_midi(60, false), Clef::Alto), 4);
    assert_eq!(staff_position(Pitch::from_midi(50, false), Clef::Tenor), 0);
    assert_eq!(ledger_lines(-2), (0, 1));
    assert_eq!(ledger_lines(-1), (0, 0));
    assert_eq!(ledger_lines(8), (0, 0));
    assert_eq!(ledger_lines(10), (1, 0));
    assert_eq!(ledger_lines(13), (2, 0));
    assert_eq!(ledger_lines(-7), (0, 3));
}

#[test]
fn accidental_glyphs_cover_quarter_tones_and_reject_wider_alterations() {
    assert_eq!(accidental_glyph(-2, 0).unwrap(), MusicGlyph::AccidentalDoubleFlat);
    assert_eq!(accidental_glyph(-1, 0).unwrap(), MusicGlyph::AccidentalFlat);
    assert_eq!(accidental_glyph(0, 0).unwrap(), MusicGlyph::AccidentalNatural);
    assert_eq!(accidental_glyph(1, 0).unwrap(), MusicGlyph::AccidentalSharp);
    assert_eq!(accidental_glyph(2, 0).unwrap(), MusicGlyph::AccidentalDoubleSharp);
    assert_eq!(accidental_glyph(3, 0).unwrap(), MusicGlyph::AccidentalDoubleSharp);
    assert_eq!(accidental_glyph(-1, -1).unwrap(), MusicGlyph::AccidentalThreeQuarterTonesFlatZimmermann);
    assert_eq!(accidental_glyph(0, -1).unwrap(), MusicGlyph::AccidentalQuarterToneFlatStein);
    assert_eq!(accidental_glyph(0, 1).unwrap(), MusicGlyph::AccidentalQuarterToneSharpStein);
    assert_eq!(accidental_glyph(1, 1).unwrap(), MusicGlyph::AccidentalThreeQuarterTonesSharpStein);
    assert_eq!(accidental_glyph(-1, 1).unwrap(), MusicGlyph::AccidentalQuarterToneFlatStein);
    let err = accidental_glyph(2, 1).unwrap_err();
    assert_eq!(err.kind, ErrorKind::InvalidInput);
    assert_eq!(err.message, "quarter-tone spelling exceeds supported accidental range");
    assert!(accidental_glyph(-2, -1).is_err());
}

#[test]
fn cancels_previous_key_and_rejects_overlapping_onsets() {
    // A measure in C after one in G cancels the F sharp with a natural.
    assert_eq!(key_signature_marks(Clef::Treble, 1, 0), vec![(3, MusicGlyph::AccidentalNatural)]);
    assert_eq!(
        key_signature_marks(Clef::Treble, 0, 2),
        vec![(3, MusicGlyph::AccidentalSharp), (0, MusicGlyph::AccidentalSharp)]
    );
    assert_eq!(
        key_signature_marks(Clef::Bass, -2, 1),
        vec![
            (6, MusicGlyph::AccidentalNatural),
            (2, MusicGlyph::AccidentalNatural),
            (3, MusicGlyph::AccidentalSharp),
        ]
    );
    assert_eq!(key_signature_marks(Clef::Treble, 0, -7).len(), 7);
    assert!(key_signature_marks(Clef::Percussion, 3, 2).is_empty());
    assert!(key_signature_marks(Clef::Treble, 0, 0).is_empty());
}
