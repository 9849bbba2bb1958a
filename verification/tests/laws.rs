use alphatab_rs::accidentals::{accidental_marks, PitchEvent};
use alphatab_rs::display::display_pitch;
use alphatab_rs::numbered::numbered_note;
use alphatab_rs::spans::checks::validate_spans;
use alphatab_rs::spans::{prepare, SpanBeat, SpanNote, SpanTrack};
use alphatab_rs::text::escape_xml;
use alphatab_rs::{Duration, Fret, Ottava, Pitch, StemDirection};

fn note(string: usize, midi: u8) -> SpanNote {
    SpanNote {
        string,
        fret: Fret::Number(u16::from(midi % 24)),
        pitch: Some(Pitch::from_midi(midi, midi % 2 == 0)),
        grace_pitch: None,
        harmonic_pitch: Some(Pitch::from_midi(midi.saturating_add(12), false)),
        hammer_on: midi % 3 == 0,
        slide_legato: midi % 5 == 0,
        palm_mute: midi % 4 == 0,
        let_ring: midi % 7 == 0,
    }
}

fn busy_track() -> SpanTrack {
    let mut bars = vec![];
    for bar in 0..4u8 {
        let mut voices = vec![];
        for voice in 0..(1 + bar % 3) {
            let mut beats = vec![];
            for beat in 0..4u8 {
                let midi = 40 + bar * 7 + voice * 3 + beat * 5;
                beats.push(SpanBeat {
                    notes: vec![note(1, midi), note(2, midi + 4)],
                    duration: Duration { value: 8, dots: 0, tuplet: None },
                    stem: StemDirection::Auto,
                    rasgueado: beat % 2 == 0,
                    ottava: if beat == 3 { None } else { Some(Ottava::Above8) },
                    crescendo: if midi % 2 == 0 { Some(true) } else { None },
                    barre: if bar == 1 { Some("CII".into()) } else { None },
                });
            }
            voices.push(beats);
        }
        bars.push(voices);
    }
    SpanTrack { bars, spans: vec![] }
}

#[test]
fn derived_spans_pass_explicit_span_validation() {
    let mut t = busy_track();
    let state = prepare(&t, 0).unwrap();
    assert!(state.generated_spans.len() > 10);
    t.spans = state.generated_spans.clone();
    assert!(validate_spans(&t).is_ok());
}

#[test]
fn prepared_transposition_can_always_be_shown() {
    let t = busy_track();
    assert!(prepare(&t, 24).is_ok());
    for bar in &t.bars {
        for voice in bar {
            for beat in voice {
                for n in &beat.notes {
                    for p in [n.pitch, n.grace_pitch, n.harmonic_pitch].into_iter().flatten() {
                        let shown = display_pitch(p, 24).unwrap();
                        assert_eq!(shown.to_midi().unwrap(), p.to_midi().unwrap() + 24);
                    }
                }
            }
        }
    }
    assert!(prepare(&t, 100).is_err());
}

#[test]
fn numbered_notes_keep_their_height() {
    for key in -7..=7i8 {
        for midi in 0..=127u8 {
            for flats in [false, true] {
                let p = Pitch::from_midi(midi, flats);
                let n = numbered_note(p, key);
                let tonic = (i32::from(key) * 4).rem_euclid(7);
                assert!((1..=7).contains(&n.degree));
                assert_eq!(
                    28 + tonic + 7 * i32::from(n.octave) + i32::from(n.degree) - 1,
                    i32::from(p.octave) * 7 + i32::from(p.step)
                );
            }
        }
    }
}

#[test]
fn escaped_text_holds_no_markup() {
    let samples = ["a<b>c", "\u{0}\u{1}\u{1F}&&", "\"'\u{FFFF}\u{D7FF}", "\u{10FFFF}\r\n\t"];
    for s in samples {
        let e = escape_xml(s);
        assert!(!e.contains(['<', '>', '"', '\'']));
        assert!(e.chars().all(|c| c == '\t' || c == '\n' || c == '\r' || c >= ' '));
        assert!(!e.contains('\u{FFFF}'));
    }
    assert_eq!(escape_xml("plain words"), "plain words");
}

#[test]
fn a_note_after_a_conflict_shows_its_accidental() {
    let at = |voice: usize, beat: usize, midi: u8| PitchEvent {
        voice,
        beat,
        note: 0,
        pitch: Pitch::from_midi(midi, false),
        tied: false,
        quarter_tone: 0,
    };
    let marks = accidental_marks(0, &vec![vec![at(0, 0, 66), at(1, 0, 65)], vec![at(0, 1, 65)]]);
    assert_eq!(marks, vec![(0, 0, 0), (1, 0, 0), (0, 1, 0)]);
}
