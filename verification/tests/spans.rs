use alphatab_rs::spans::{prepare, AutoRange, RenderState, SpanBeat, SpanNote, SpanTrack};
use alphatab_rs::{BeatAddress, Duration, ErrorKind, Fret, Ottava, Pitch, Placement, Span, SpanKind, StemDirection};

fn note(midi: u8) -> SpanNote {
    SpanNote {
        string: 1,
        fret: Fret::Number(u16::from(midi.saturating_sub(60))),
        pitch: Some(Pitch::from_midi(midi, false)),
        grace_pitch: None,
        harmonic_pitch: None,
        hammer_on: false,
        slide_legato: false,
        palm_mute: false,
        let_ring: false,
    }
}

fn eighth(midi: u8) -> SpanBeat {
    SpanBeat {
        notes: vec![note(midi)],
        duration: Duration { value: 8, dots: 0, tuplet: None },
        stem: StemDirection::Auto,
        rasgueado: false,
        ottava: None,
        crescendo: None,
        barre: None,
    }
}

fn track(measures: usize) -> SpanTrack {
    SpanTrack {
        bars: (0..measures)
            .map(|_| vec![vec![eighth(64), eighth(65), eighth(67), eighth(69)]])
            .collect(),
        spans: vec![],
    }
}

fn address(bar: usize, beat: usize) -> BeatAddress {
    BeatAddress { bar, voice: 0, beat }
}

fn span(start: BeatAddress, end: BeatAddress, kind: SpanKind) -> Span {
    Span { start, end, kind, placement: Placement::Above }
}

fn kinds(spans: &[Span]) -> Vec<String> {
    spans.iter().map(|s| format!("{:?}", s.kind)).collect()
}

#[test]
fn validates_explicit_connections() {
    let mut t = track(1);
    t.spans.push(span(address(0, 0), address(9, 0), SpanKind::LetRing));
    assert!(prepare(&t, 0).unwrap_err().message.contains("endpoint"));
    t.spans[0].end = address(0, 3);
    t.spans[0].kind = SpanKind::Slur { start_note: Some(5), end_note: None };
    assert!(prepare(&t, 0).unwrap_err().message.contains("notes"));
    t.spans[0].kind = SpanKind::Beam;
    t.bars[0][0][1].notes.clear();
    assert!(prepare(&t, 0).unwrap_err().message.contains("beam"));
}

#[test]
fn spans_continue_across_systems_and_group_effects() {
    const SYSTEMS: usize = 3;
    let mut t = track(SYSTEMS);
    for bar in &mut t.bars {
        for b in &mut bar[0] {
            b.notes[0].palm_mute = true;
        }
    }
    t.spans.push(span(address(0, 0), address(2, 3), SpanKind::Crescendo));
    t.spans.push(span(
        address(0, 0),
        address(2, 3),
        SpanKind::Slur { start_note: Some(0), end_note: Some(0) },
    ));
    let state = prepare(&t, 0).unwrap();
    let palm: Vec<&Span> = state
        .generated_spans
        .iter()
        .filter(|s| matches!(s.kind, SpanKind::PalmMute))
        .collect();
    assert_eq!(palm.len(), 1);
    assert_eq!(palm[0].start, address(0, 0));
    assert_eq!(palm[0].end, address(2, 3));
    let shown = state.spans(&t.spans, false, true);
    assert_eq!(shown.len(), 3);
}

#[test]
fn hammer_pull_and_legato_slides_engrave_on_both_staves() {
    let mut t = track(1);
    t.bars[0][0][0].notes[0].hammer_on = true;
    t.bars[0][0][1].notes[0].slide_legato = true;
    let state = prepare(&t, 0).unwrap();
    let texts: Vec<String> = state
        .generated_spans
        .iter()
        .filter_map(|s| match &s.kind {
            SpanKind::Legato { text, .. } => Some(text.clone()),
            _ => None,
        })
        .collect();
    assert_eq!(texts, vec!["H".to_string(), "sl.".to_string()]);
    assert_eq!(state.generated_spans[0].start, address(0, 0));
    assert_eq!(state.generated_spans[0].end, address(0, 1));
    assert_eq!(state.generated_spans[1].start, address(0, 1));
    assert_eq!(state.generated_spans[1].end, address(0, 2));
}

#[test]
fn pull_off_is_labelled_p() {
    let mut t = track(1);
    t.bars[0][0][2].notes[0].hammer_on = true;
    t.bars[0][0][3].notes[0].fret = Fret::Number(2);
    let state = prepare(&t, 0).unwrap();
    match &state.generated_spans[0].kind {
        SpanKind::Legato { start_note, end_note, text } => {
            assert_eq!(text, "P");
            assert_eq!(*start_note, Some(0));
            assert_eq!(*end_note, Some(0));
        }
        other => panic!("unexpected {other:?}"),
    }
}

#[test]
fn legato_joins_notes_on_the_same_string() {
    let mut t = track(1);
    t.bars[0][0][0].notes[0].hammer_on = true;
    t.bars[0][0][1].notes[0].string = 2;
    let state = prepare(&t, 0).unwrap();
    assert_eq!(state.generated_spans.len(), 1);
    assert_eq!(state.generated_spans[0].start, address(0, 0));
    assert_eq!(state.generated_spans[0].end, address(0, 2));
}

#[test]
fn explicit_span_errors_have_exact_messages() {
    let mut t = track(2);
    t.spans.push(span(address(1, 0), address(0, 0), SpanKind::Trill));
    let e = prepare(&t, 0).unwrap_err();
    assert_eq!(e.kind, ErrorKind::InvalidInput);
    assert_eq!(e.message, "span endpoints must be ordered in the same voice");
    t.spans[0] = span(address(0, 0), BeatAddress { bar: 0, voice: 3, beat: 0 }, SpanKind::Trill);
    assert_eq!(
        prepare(&t, 0).unwrap_err().message,
        "invalid span endpoint BeatAddress { measure: 0, voice: 3, beat: 0 }"
    );
    t.spans[0] = span(address(0, 1), address(0, 1), SpanKind::Beam);
    assert_eq!(prepare(&t, 0).unwrap_err().message, "a beam group needs at least two beats");
    t.spans[0] = span(address(0, 0), address(0, 2), SpanKind::Beam);
    t.bars[0][0][1].stem = StemDirection::Down;
    assert_eq!(
        prepare(&t, 0).unwrap_err().message,
        "explicit beams require short notes with a consistent stem direction"
    );
}

#[test]
fn overlapping_beams_are_rejected() {
    let mut t = track(2);
    t.spans.push(span(address(0, 0), address(0, 2), SpanKind::Beam));
    t.spans.push(span(address(0, 2), address(1, 1), SpanKind::Beam));
    assert_eq!(prepare(&t, 0).unwrap_err().message, "explicit beam groups cannot overlap");
    t.spans[1].start = address(0, 3);
    assert!(prepare(&t, 0).is_ok());
}

#[test]
fn beams_can_cross_barlines() {
    let mut t = track(2);
    t.spans.push(span(address(0, 2), address(1, 1), SpanKind::Beam));
    assert!(prepare(&t, 0).is_ok());
}

#[test]
fn transposition_rejects_pitches_leaving_midi_range() {
    let mut t = track(1);
    assert!(prepare(&t, 12).is_ok());
    let e = prepare(&t, 70).unwrap_err();
    assert_eq!(e.message, "display transposition moves a pitch outside MIDI range");
    t.bars[0][0][0].notes[0].grace_pitch = Some(Pitch { step: 9, octave: 4, accidental: 0 });
    assert_eq!(prepare(&t, 1).unwrap_err().message, "invalid pitch step");
    assert!(prepare(&t, 0).is_ok());
}

#[test]
fn effect_ranges_split_on_a_different_mark() {
    let mut t = track(1);
    t.bars[0][0][0].ottava = Some(Ottava::Above8);
    t.bars[0][0][1].ottava = Some(Ottava::Above8);
    t.bars[0][0][2].ottava = Some(Ottava::Below8);
    t.bars[0][0][0].crescendo = Some(false);
    let state = prepare(&t, 0).unwrap();
    assert_eq!(kinds(&state.generated_spans), vec!["Ottava(Above8)", "Ottava(Below8)", "Diminuendo"]);
    assert_eq!(state.generated_spans[0].end, address(0, 1));
    assert_eq!(state.generated_spans[1].start, address(0, 2));
    assert_eq!(state.generated_spans[2].placement, Placement::Below);
}

#[test]
fn effect_ranges_stop_at_a_bar_without_the_voice() {
    let mut t = track(3);
    for bar in &mut t.bars {
        bar[0][0].barre = Some("CV".into());
        bar[0][1].barre = Some("CV".into());
        bar[0][2].barre = Some("CV".into());
        bar[0][3].barre = Some("CV".into());
    }
    t.bars[1].clear();
    let state = prepare(&t, 0).unwrap();
    assert_eq!(state.generated_spans.len(), 2);
    assert_eq!(state.generated_spans[0].end, address(0, 3));
    assert_eq!(state.generated_spans[1].start, address(2, 0));
}

#[test]
fn hidden_effects_keep_connections_and_slash_drops_note_anchors() {
    let mut t = track(1);
    t.bars[0][0][0].notes[0].hammer_on = true;
    t.bars[0][0][1].rasgueado = true;
    t.spans.push(span(
        address(0, 0),
        address(0, 3),
        SpanKind::Slur { start_note: Some(0), end_note: Some(0) },
    ));
    let state = prepare(&t, 0).unwrap();
    assert_eq!(state.spans(&t.spans, false, true).len(), 3);
    let shown = state.spans(&t.spans, true, false);
    assert_eq!(shown.len(), 2);
    assert!(matches!(shown[0].kind, SpanKind::Slur { start_note: None, end_note: None }));
    assert!(matches!(&shown[1].kind, SpanKind::Legato { start_note: None, end_note: None, text } if text == "H"));
}

#[test]
fn auto_range_reads_local_marks() {
    let mut beat = eighth(64);
    assert!(AutoRange::PalmMute.kind(&beat).is_none());
    beat.notes.push(SpanNote { let_ring: true, ..note(60) });
    assert!(matches!(AutoRange::LetRing.kind(&beat), Some(SpanKind::LetRing)));
    beat.crescendo = Some(true);
    assert!(matches!(AutoRange::Crescendo.kind(&beat), Some(SpanKind::Crescendo)));
    assert_eq!(AutoRange::all().len(), 6);
    let empty = RenderState { generated_spans: vec![] };
    assert!(empty.spans(&vec![], false, false).is_empty());
}

#[test]
fn effect_ranges_are_maximal_runs_broken_by_unmarked_beats_and_missing_voices() {
    let mut t = track(3);
    t.bars[0][0][2].notes[0].let_ring = true;
    t.bars[0][0][3].notes[0].let_ring = true;
    t.bars[1][0][0].notes[0].let_ring = true;
    t.bars[1][0][2].notes[0].let_ring = true;
    // Bar 2 lacks voice 1 entirely, which breaks a run along that voice.
    t.bars[0].push(vec![eighth(60), eighth(60)]);
    t.bars[1].push(vec![eighth(60)]);
    for bar in 0..2 {
        for b in &mut t.bars[bar][1] {
            b.ottava = Some(Ottava::Above8);
        }
    }
    let state = prepare(&t, 0).unwrap();
    let ring: Vec<(BeatAddress, BeatAddress)> = state
        .generated_spans
        .iter()
        .filter(|s| matches!(s.kind, SpanKind::LetRing))
        .map(|s| (s.start, s.end))
        .collect();
    assert_eq!(ring, vec![(address(0, 2), address(1, 0)), (address(1, 2), address(1, 2))]);
    let ottava: Vec<(BeatAddress, BeatAddress)> = state
        .generated_spans
        .iter()
        .filter(|s| matches!(s.kind, SpanKind::Ottava(_)))
        .map(|s| (s.start, s.end))
        .collect();
    let v1 = |bar, beat| BeatAddress { bar, voice: 1, beat };
    assert_eq!(ottava, vec![(v1(0, 0), v1(1, 0))]);
}
