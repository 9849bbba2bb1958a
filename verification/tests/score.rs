use alphatab_rs::document::{layout_document, DocumentInstrument, DocumentStaff};
use alphatab_rs::interaction::{
    handle_pointer, handle_score_pointer, BeatTime, PointerInput, ScoreBeatTime,
};
use alphatab_rs::rests::{
    measure_is_silent, BeatContent, CompactBar, MeasureProjection, RestMeasure, RestTrack,
};
use alphatab_rs::score::{
    align_to_master_bars, check_cross_staff_endpoints, check_score_meters, check_score_tracks,
    shared_breaks,
    validate_instrument_groups,
    ScoreTrackFacts,
};
use alphatab_rs::{
    BeatAddress, CrossStaffSpan, CrossStaffSpanKind, ErrorKind, InstrumentBracket, InstrumentGroup, Placement, ScoreBeatAddress, ScoreSelection,
    Selection, Span, SpanKind,
};

fn staff(measure_count: usize, map: Vec<usize>) -> DocumentStaff {
    DocumentStaff { measure_count, spans: vec![], master_bar_map: map }
}

fn instrument(name: &str, staves: Vec<DocumentStaff>) -> DocumentInstrument {
    DocumentInstrument { name: name.into(), staves, bracket: InstrumentBracket::Bracket }
}

fn silent() -> RestMeasure {
    RestMeasure {
        silent: true,
        break_before: false,
        has_clef: false,
        has_tempo: false,
        has_marker: false,
        repeat_start: false,
        repeat_end: false,
        double_bar: false,
        has_alternate_endings: false,
        has_navigation: false,
        has_fermatas: false,
        free_time: false,
        has_triplet_feel: false,
        meter_numerator: 4,
        meter_denominator: 4,
        key_signature: 0,
    }
}

fn rest_track(count: usize) -> RestTrack {
    RestTrack { measures: vec![silent(); count], span_bars: vec![] }
}

fn address(bar: usize, beat: usize) -> BeatAddress {
    BeatAddress { bar, voice: 0, beat }
}

#[test]
fn staff_measure_maps_align_differently_partitioned_parts() {
    let plan = layout_document(
        2,
        &vec![instrument("Mapped", vec![staff(2, vec![]), staff(1, vec![1])])],
    )
    .unwrap();
    assert_eq!(plan.rows.len(), 2);
    assert_eq!(plan.rows[0].measures, vec![Some(0), Some(1)]);
    assert_eq!(plan.rows[1].measures, vec![None, Some(0)]);
    assert_eq!(plan.groups.len(), 1);
    assert_eq!(plan.groups[0].tracks, 0..2);
    assert_eq!(plan.groups[0].name, "Mapped");
}

#[test]
fn document_structure_errors_come_in_order() {
    assert_eq!(
        layout_document(0, &vec![]).unwrap_err().message,
        "a score document needs at least one instrument"
    );
    assert_eq!(
        layout_document(0, &vec![instrument("Empty", vec![])]).unwrap_err().message,
        "an instrument needs at least one staff"
    );
    assert_eq!(
        layout_document(2, &vec![instrument("Bad", vec![staff(2, vec![1, 1])])]).unwrap_err().message,
        "staff master-bar map must be ordered and match its measures"
    );
    let mut spanned = staff(1, vec![0]);
    spanned.spans.push(Span {
        start: address(0, 0),
        end: address(1, 0),
        kind: SpanKind::Trill,
        placement: Placement::Above,
    });
    assert_eq!(
        layout_document(2, &vec![instrument("Spans", vec![spanned])]).unwrap_err().message,
        "span end is outside the staff master-bar map"
    );
    assert_eq!(
        layout_document(3, &vec![instrument("Count", vec![staff(2, vec![])])]).unwrap_err().message,
        "master-bar count must match each staff's measure count"
    );
}

#[test]
fn document_rows_move_spans_to_master_bars_and_group_instruments() {
    let mut lower = staff(2, vec![1, 3]);
    lower.spans.push(Span {
        start: address(0, 1),
        end: address(1, 2),
        kind: SpanKind::Beam,
        placement: Placement::Below,
    });
    let plan = layout_document(
        4,
        &vec![
            instrument("Piano", vec![staff(4, vec![]), lower]),
            instrument("Bass", vec![staff(4, vec![0, 1, 2, 3])]),
        ],
    )
    .unwrap();
    assert_eq!(plan.rows.len(), 3);
    assert_eq!(plan.rows[1].measures, vec![None, Some(0), None, Some(1)]);
    assert_eq!(plan.rows[1].spans[0].start, address(1, 1));
    assert_eq!(plan.rows[1].spans[0].end, address(3, 2));
    assert_eq!(plan.rows[1].spans[0].placement, Placement::Below);
    assert_eq!(plan.groups[0].tracks, 0..2);
    assert_eq!(plan.groups[1].tracks, 2..3);
    assert_eq!(plan.groups[1].name, "Bass");
}

#[test]
fn master_bar_alignment_and_instrument_groups() {
    assert_eq!(align_to_master_bars(3, &vec![0, 2], 2).unwrap(), vec![Some(0), None, Some(1)]);
    assert!(align_to_master_bars(3, &vec![2, 0], 2).is_err());
    assert!(align_to_master_bars(3, &vec![0, 3], 2).is_err());
    assert!(align_to_master_bars(3, &vec![0], 2).is_err());
    let groups = vec![InstrumentGroup { name: "Piano".into(), tracks: 0..2, bracket: InstrumentBracket::Brace }];
    assert!(validate_instrument_groups(2, &groups).is_ok());
    assert_eq!(
        validate_instrument_groups(1, &groups).unwrap_err().message,
        "instrument group has an invalid track range"
    );
}

#[test]
fn multi_measure_rests_condense_without_losing_addresses() {
    const COUNT: usize = 5;
    let mut t = rest_track(COUNT);
    let projection = MeasureProjection::build(&vec![t.clone()]);
    assert_eq!(projection.groups, vec![0..COUNT]);
    assert_eq!(
        projection.compact_bars(),
        vec![CompactBar { source: 0, display_number: 1, rest_count: Some(COUNT) }]
    );
    for m in 0..COUNT {
        assert_eq!(projection.group_of(m), 0);
    }
    // Each measure holds one whole rest; the condensed bar's rest expands back
    // to one beat per measure, in measure order.
    let counts = vec![vec![1]; COUNT];
    let expanded = projection.expand(BeatAddress { bar: 0, voice: 0, beat: 0 }, &counts);
    assert_eq!(expanded.len(), COUNT);
    for (i, b) in expanded.iter().enumerate() {
        assert_eq!(b.bar, i);
    }
    t.measures[2].has_marker = true;
    let split = MeasureProjection::build(&vec![t]);
    assert_eq!(split.groups, vec![0..2, 2..COUNT]);
    assert!(split.group_of(2) > split.group_of(1));
}

#[test]
fn score_condenses_only_shared_rests_and_preserves_track_identity() {
    const COUNT: usize = 3;
    let t = rest_track(COUNT);
    let both = MeasureProjection::build(&vec![t.clone(), t.clone()]);
    assert_eq!(both.groups, vec![0..COUNT]);
    let mut played = t.clone();
    played.measures[1].silent = false;
    let uncondensed = MeasureProjection::build(&vec![t, played]);
    assert_eq!(uncondensed.groups, vec![0..1, 1..2, 2..3]);
    assert_eq!(
        uncondensed.compact_bars()[2],
        CompactBar { source: 2, display_number: 3, rest_count: None }
    );
}

#[test]
fn rests_respect_spans_meters_and_closing_bars() {
    let mut t = rest_track(4);
    t.span_bars.push((1, 1));
    assert_eq!(MeasureProjection::build(&vec![t.clone()]).groups, vec![0..1, 1..2, 2..4]);
    let mut meter = rest_track(4);
    meter.measures[2].meter_numerator = 3;
    assert_eq!(MeasureProjection::build(&vec![meter.clone()]).groups, vec![0..2, 2..3, 3..4]);
    meter.measures[3].meter_numerator = 3;
    assert_eq!(MeasureProjection::build(&vec![meter]).groups, vec![0..2, 2..4]);
    let mut closing = rest_track(3);
    closing.measures[0].repeat_end = true;
    assert_eq!(MeasureProjection::build(&vec![closing]).groups, vec![0..1, 1..3]);
    let projection = MeasureProjection::build(&vec![rest_track(4)]);
    let span = Span { start: address(1, 0), end: address(3, 0), kind: SpanKind::Pedal, placement: Placement::Below };
    let moved = projection.compact_span(&span);
    assert_eq!(moved.start.bar, 0);
    assert_eq!(moved.end.bar, 0);
    assert!(MeasureProjection::build(&vec![rest_track(0)]).groups.is_empty());
}

#[test]
fn click_and_shift_click_select_beats() {
    let click = PointerInput { clicked: true, ..Default::default() };
    let shift = PointerInput { clicked: true, shift: true, ..Default::default() };
    let mut selection: Option<Selection> = None;
    let result = handle_pointer(&mut selection, Some(address(0, 1)), click);
    assert_eq!(result.clicked, Some(address(0, 1)));
    assert_eq!(selection, Some(Selection { anchor: address(0, 1), end: address(0, 1) }));
    handle_pointer(&mut selection, Some(address(2, 0)), shift);
    assert_eq!(selection, Some(Selection { anchor: address(0, 1), end: address(2, 0) }));
    let hover = handle_pointer(&mut selection, None, click);
    assert_eq!(hover.clicked, None);
    assert_eq!(selection, Some(Selection { anchor: address(0, 1), end: address(2, 0) }));
    let drag = PointerInput { drag_started: true, dragged: true, ..Default::default() };
    handle_pointer(&mut selection, Some(address(1, 1)), drag);
    assert_eq!(selection, Some(Selection { anchor: address(1, 1), end: address(1, 1) }));
}

#[test]
fn score_selection_extends_on_shifted_drag_start() {
    let a = ScoreBeatAddress { track: 0, beat: address(0, 0) };
    let b = ScoreBeatAddress { track: 1, beat: address(1, 2) };
    let mut selection = Some(ScoreSelection { anchor: a, end: a });
    let shifted = PointerInput { drag_started: true, shift: true, ..Default::default() };
    let result = handle_score_pointer(&mut selection, Some(b), shifted);
    assert_eq!(result.hovered, Some(b));
    assert_eq!(result.clicked, None);
    assert_eq!(selection, Some(ScoreSelection { anchor: a, end: b }));
}

fn facts(measure_count: usize, multi_measure_rests: bool) -> ScoreTrackFacts {
    ScoreTrackFacts { measure_count, multi_measure_rests }
}

#[test]
fn per_track_scores_check_tracks_in_order() {
    let err = check_score_tracks(false, &vec![]).unwrap_err();
    assert_eq!(err.kind, ErrorKind::InvalidInput);
    assert_eq!(err.message, "a score needs at least one track");
    let err = check_score_tracks(false, &vec![facts(2, true)]).unwrap_err();
    assert_eq!(err.message, "score tracks need matching geometry options");
    let err = check_score_tracks(true, &vec![facts(2, false), facts(3, true)]).unwrap_err();
    assert_eq!(
        err.message,
        "per-track score layout does not combine multi-measure rests; disable them or use layout_score"
    );
    let err = check_score_tracks(true, &vec![facts(2, false), facts(3, false)]).unwrap_err();
    assert_eq!(err.message, "score tracks need matching measure counts");
    assert!(check_score_tracks(true, &vec![facts(4, false), facts(4, false)]).is_ok());
}

#[test]
fn any_track_break_breaks_the_shared_grid() {
    let breaks = vec![vec![false, true, false], vec![false, false, true]];
    assert_eq!(shared_breaks(&breaks, 3), vec![false, true, true]);
    assert_eq!(shared_breaks(&vec![], 2), vec![false, false]);
}

#[test]
fn shared_setting_scores_need_matching_bars_and_meters() {
    let err = check_score_meters(&vec![]).unwrap_err();
    assert_eq!(err.message, "a score needs at least one track");
    let err = check_score_meters(&vec![vec![(4, 4)], vec![(4, 4), (3, 4)]]).unwrap_err();
    assert_eq!(err.message, "score tracks need matching measure counts");
    let err = check_score_meters(&vec![vec![(4, 4), (3, 4)], vec![(4, 4), (6, 8)]]).unwrap_err();
    assert_eq!(err.kind, ErrorKind::InvalidInput);
    assert_eq!(err.message, "score tracks need matching time signatures");
    assert!(check_score_meters(&vec![vec![(4, 4), (3, 4)], vec![(4, 4), (3, 4)]]).is_ok());
    assert!(check_score_meters(&vec![vec![]]).is_ok());
}

#[test]
fn condensed_bars_expand_to_every_source_beat() {
    let mut t = rest_track(4);
    t.measures[0].silent = false;
    let projection = MeasureProjection::build(&vec![t]);
    assert_eq!(projection.groups, vec![0..1, 1..4]);
    // Measure 0 has two voices of two and one beats; the rests have one voice each,
    // and measure 2 has an empty second voice.
    let counts = vec![vec![2, 1], vec![1], vec![1, 0], vec![2]];
    let played = BeatAddress { bar: 0, voice: 1, beat: 0 };
    assert_eq!(projection.expand(played, &counts), vec![played]);
    let rest = BeatAddress { bar: 1, voice: 0, beat: 0 };
    assert_eq!(
        projection.expand(rest, &counts),
        vec![
            BeatAddress { bar: 1, voice: 0, beat: 0 },
            BeatAddress { bar: 2, voice: 0, beat: 0 },
            BeatAddress { bar: 3, voice: 0, beat: 0 },
            BeatAddress { bar: 3, voice: 0, beat: 1 },
        ]
    );
}

#[test]
fn score_tracks_support_independent_modes_meters_and_instrument_groups() {
    // Two one-measure tracks with different meters and display modes share a grid.
    let meters = vec![vec![(4u8, 4u16)], vec![(3, 4)]];
    assert!(check_score_meters(&meters).is_err());
    let tracks = vec![facts(1, false), facts(1, false)];
    assert!(check_score_tracks(true, &tracks).is_ok());
    let groups = vec![InstrumentGroup {
        name: "Piano".into(),
        tracks: 0..2,
        bracket: InstrumentBracket::Brace,
    }];
    assert!(validate_instrument_groups(tracks.len(), &groups).is_ok());
}

fn timed(bar: usize, voice: usize, beat: usize, onset: u64) -> BeatTime {
    BeatTime { address: BeatAddress { bar, voice, beat }, onset }
}

#[test]
fn selection_uses_onsets_across_unequal_voices() {
    // Four quarter notes in voice 0 and two half notes in voice 1, onsets in sixteenths.
    let beats = vec![
        timed(0, 0, 0, 0),
        timed(0, 0, 1, 4),
        timed(0, 0, 2, 8),
        timed(0, 0, 3, 12),
        timed(0, 1, 0, 0),
        timed(0, 1, 1, 8),
    ];
    let third = BeatAddress { bar: 0, voice: 0, beat: 2 };
    let selection = Selection { anchor: third, end: third };
    assert!(selection.contains(&beats, BeatAddress { bar: 0, voice: 1, beat: 1 }));
    assert!(!selection.contains(&beats, BeatAddress { bar: 0, voice: 1, beat: 0 }));
}

#[test]
fn selection_ranges_run_either_way_and_across_bars() {
    let beats = vec![timed(0, 0, 0, 0), timed(0, 0, 1, 8), timed(1, 0, 0, 0), timed(1, 0, 1, 8)];
    let later = BeatAddress { bar: 1, voice: 0, beat: 0 };
    let earlier = BeatAddress { bar: 0, voice: 0, beat: 1 };
    let forward = Selection { anchor: earlier, end: later };
    let backward = Selection { anchor: later, end: earlier };
    for b in &beats {
        assert_eq!(forward.contains(&beats, b.address), backward.contains(&beats, b.address));
    }
    assert!(forward.contains(&beats, earlier) && forward.contains(&beats, later));
    assert!(!forward.contains(&beats, BeatAddress { bar: 1, voice: 0, beat: 1 }));
    assert!(!forward.contains(&beats, BeatAddress { bar: 0, voice: 0, beat: 0 }));
    // An address that is not laid out lies in no range.
    assert!(!forward.contains(&beats, BeatAddress { bar: 5, voice: 0, beat: 0 }));
}

#[test]
fn score_selection_spans_tracks_by_musical_time() {
    let at = |track: usize, bar: usize, beat: usize, onset: u64| ScoreBeatTime {
        address: ScoreBeatAddress { track, beat: BeatAddress { bar, voice: 0, beat } },
        onset,
    };
    let beats = vec![at(0, 0, 0, 0), at(0, 0, 1, 8), at(1, 0, 0, 0), at(1, 0, 1, 4), at(1, 0, 2, 12)];
    let selection = ScoreSelection {
        anchor: beats[0].address,
        end: beats[1].address,
    };
    assert!(selection.contains(&beats, beats[3].address));
    assert!(selection.contains(&beats, beats[2].address));
    assert!(!selection.contains(&beats, beats[4].address));
}

#[test]
fn silence_needs_blank_beats_fitting_voices_and_no_simile() {
    let blank = BeatContent::default();
    let voices = vec![vec![blank, blank], vec![]];
    assert!(measure_is_silent(false, &voices, &vec![true, true]));
    assert!(!measure_is_silent(true, &voices, &vec![true, true]));
    assert!(!measure_is_silent(false, &voices, &vec![true, false]));
    let mut noted = blank;
    noted.notes = 1;
    assert!(!measure_is_silent(false, &vec![vec![blank, noted]], &vec![true]));
    let mut marked = blank;
    marked.barre = true;
    assert!(!measure_is_silent(false, &vec![vec![marked]], &vec![true]));
    assert!(measure_is_silent(false, &vec![], &vec![]));
}

#[test]
fn cross_staff_spans_need_both_endpoints_laid_out() {
    // Two staves of one bar: four beats upper, two beats lower.
    let counts = vec![vec![vec![4]], vec![vec![2]]];
    let at = |track: usize, beat: usize| ScoreBeatAddress { track, beat: BeatAddress { bar: 0, voice: 0, beat } };
    let span = |start, end| CrossStaffSpan { start, end, kind: CrossStaffSpanKind::Beam };
    assert!(check_cross_staff_endpoints(&span(at(0, 3), at(1, 1)), &counts).is_ok());
    let err = check_cross_staff_endpoints(&span(at(0, 4), at(1, 9)), &counts).unwrap_err();
    assert_eq!(err.kind, ErrorKind::InvalidInput);
    assert_eq!(err.message, "cross-staff span start does not exist");
    let err = check_cross_staff_endpoints(&span(at(0, 0), at(2, 0)), &counts).unwrap_err();
    assert_eq!(err.message, "cross-staff span end does not exist");
}
