use alphatab_rs::display::{display_notes, display_pitch, DisplayNote, DisplayRequest};
use alphatab_rs::spans::RenderState;
use alphatab_rs::{
    DisplayMode, ElementVisibility, ErrorKind, FingeringMode, NoteHead, Pitch,
};

fn note(pitch: Pitch) -> DisplayNote {
    DisplayNote {
        pitch: Some(pitch),
        grace_pitch: Some(Pitch::from_midi(62, false)),
        harmonic_pitch: None,
        fingering: Some("i".to_string()),
        right_fingering: Some("p".to_string()),
        head: NoteHead::Diamond,
        hammer_on: true,
        slide_legato: true,
        palm_mute: true,
        let_ring: true,
    }
}

fn request(
    transposition: i8,
    fingering: FingeringMode,
    display: DisplayMode,
    elements: ElementVisibility,
) -> DisplayRequest {
    DisplayRequest::new(transposition, fingering, display, true, true, true, true, elements)
}

fn plain_request() -> DisplayRequest {
    request(0, FingeringMode::Guitar, DisplayMode::Standard, ElementVisibility::default())
}

#[test]
fn request_without_changes_shows_notes_as_written() {
    let r = plain_request();
    assert!(!r.changes_beats());
    let notes = vec![note(Pitch::from_midi(64, false))];
    let shown = display_notes(&notes, r).unwrap();
    assert_eq!(shown.len(), 1);
    assert_eq!(shown[0].pitch, notes[0].pitch);
    assert!(shown[0].hammer_on && shown[0].let_ring);
    assert_eq!(shown[0].fingering.as_deref(), Some("i"));

    // A malformed pitch is no error while nothing is transformed.
    let bad = vec![note(Pitch { step: 9, octave: 4, accidental: 0 })];
    assert!(display_notes(&bad, r).is_ok());
}

#[test]
fn display_transposition_moves_every_pitch_and_drops_range_marks() {
    let r = request(12, FingeringMode::Guitar, DisplayMode::Standard, ElementVisibility::default());
    assert!(r.changes_beats());
    let flat = Pitch { step: 6, octave: 3, accidental: -1 };
    let shown = display_notes(&vec![note(Pitch::from_midi(64, false)), note(flat)], r).unwrap();
    assert_eq!(shown[0].pitch, Some(Pitch::from_midi(76, false)));
    assert_eq!(shown[0].grace_pitch, Some(Pitch::from_midi(74, false)));
    assert_eq!(shown[1].pitch, Some(Pitch { step: 6, octave: 4, accidental: -1 }));
    for n in &shown {
        assert!(!n.hammer_on && !n.slide_legato && !n.palm_mute && !n.let_ring);
        assert_eq!(n.head, NoteHead::Diamond);
        assert_eq!(n.fingering.as_deref(), Some("i"));
    }
}

#[test]
fn piano_fingering_renumbers_both_hands() {
    let r = request(0, FingeringMode::Piano, DisplayMode::Standard, ElementVisibility::default());
    let shown = display_notes(&vec![note(Pitch::from_midi(60, false))], r).unwrap();
    assert_eq!(shown[0].fingering.as_deref(), Some("2"));
    assert_eq!(shown[0].right_fingering.as_deref(), Some("1"));
    assert_eq!(shown[0].pitch, Some(Pitch::from_midi(60, false)));
}

#[test]
fn slash_display_keeps_one_slash_on_the_middle_line() {
    let r = request(0, FingeringMode::Guitar, DisplayMode::Slash, ElementVisibility::default());
    let chord = vec![note(Pitch::from_midi(40, false)), note(Pitch::from_midi(47, false))];
    let shown = display_notes(&chord, r).unwrap();
    assert_eq!(shown.len(), 1);
    assert_eq!(shown[0].pitch, Some(Pitch { step: 6, octave: 4, accidental: 0 }));
    assert_eq!(shown[0].head, NoteHead::Slash);
    assert!(display_notes(&vec![], r).unwrap().is_empty());
}

#[test]
fn hidden_effects_leave_only_pitch_and_notehead() {
    let mut elements = ElementVisibility::default();
    elements.effects = false;
    let r = request(0, FingeringMode::Guitar, DisplayMode::Standard, elements);
    assert!(!r.effects);
    let shown = display_notes(&vec![note(Pitch::from_midi(64, false))], r).unwrap();
    assert_eq!(shown[0].pitch, Some(Pitch::from_midi(64, false)));
    assert_eq!(shown[0].head, NoteHead::Diamond);
    assert_eq!(shown[0].grace_pitch, None);
    assert_eq!(shown[0].fingering, None);
    assert_eq!(shown[0].right_fingering, None);
}

#[test]
fn other_hidden_marks_also_copy_beats() {
    let mut elements = ElementVisibility::default();
    elements.lyrics = false;
    let r = request(0, FingeringMode::Guitar, DisplayMode::Standard, elements);
    assert!(!r.lyrics && r.changes_beats());
    let shown = display_notes(&vec![note(Pitch::from_midi(64, false))], r).unwrap();
    assert!(!shown[0].hammer_on);
    let r = DisplayRequest::new(0, FingeringMode::Guitar, DisplayMode::Standard, false, true, true, true, ElementVisibility::default());
    assert!(!r.chords && r.changes_beats());
}

#[test]
fn first_malformed_pitch_fails_a_transformed_beat() {
    let r = request(2, FingeringMode::Guitar, DisplayMode::Standard, ElementVisibility::default());
    let mut second = note(Pitch::from_midi(60, false));
    second.harmonic_pitch = Some(Pitch { step: 0, octave: 11, accidental: 0 });
    let notes = vec![
        note(Pitch::from_midi(64, false)),
        second,
        note(Pitch { step: 7, octave: 4, accidental: 0 }),
    ];
    let err = display_notes(&notes, r).unwrap_err();
    assert_eq!(err.kind, ErrorKind::InvalidInput);
    assert_eq!(err.message, "pitch outside MIDI range");
    let err = display_notes(&notes[2..].to_vec(), r).unwrap_err();
    assert_eq!(err.message, "invalid pitch step");
}

#[test]
fn render_state_beat_applies_the_request() {
    let state = RenderState { generated_spans: vec![] };
    let r = request(-2, FingeringMode::Guitar, DisplayMode::Standard, ElementVisibility::default());
    let shown = state.beat(&vec![note(Pitch::from_midi(64, false))], r).unwrap();
    assert_eq!(shown[0].pitch, Some(Pitch::from_midi(62, false)));
}

#[test]
fn engraving_settings_apply_transposition_fingering_and_system_gap() {
    let mut source = note(Pitch::from_midi(64, false));
    source.fingering = Some("p".to_string());
    let r = request(12, FingeringMode::Piano, DisplayMode::Standard, ElementVisibility::default());
    let shown = display_notes(&vec![source], r).unwrap();
    assert_eq!(shown[0].fingering.as_deref(), Some("1"));
    assert_eq!(shown[0].pitch, Some(Pitch::from_midi(76, false)));
}

#[test]
fn hidden_lyrics_are_part_of_the_request() {
    let r = DisplayRequest::new(0, FingeringMode::Guitar, DisplayMode::Tablature, true, true, false, true, ElementVisibility::default());
    assert!(!r.lyrics);
    assert!(r.chords && r.dynamics && r.effects);
}

#[test]
fn transposition_moves_every_pitch_by_its_interval() {
    for midi in 0u8..=127 {
        for flats in [false, true] {
            let written = Pitch::from_midi(midi, flats);
            for t in -24i8..=24 {
                let target = i16::from(midi) + i16::from(t);
                if !(0..=127).contains(&target) {
                    continue;
                }
                let shown = display_pitch(written, t).unwrap();
                assert_eq!(i16::from(shown.to_midi().unwrap()), target);
                if written.accidental < 0 {
                    assert!(shown.accidental <= 0);
                } else {
                    assert!(shown.accidental >= 0);
                }
            }
        }
    }
}
