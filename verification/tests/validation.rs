use alphatab_rs::validation::{
    validate_measure, validate_note, validate_string_count, validate_track, BeatSize, MeasureHeader,
    MeasureSize, NoteFacts, MAX_CURVE_POINTS, MAX_NOTES_PER_BEAT,
};
use alphatab_rs::{Clef, DisplayMode, Duration, ErrorKind, Pitch};

fn header() -> MeasureHeader {
    MeasureHeader {
        time_signature: (4, 4),
        key_signature: 0,
        repeat_end: false,
        repeat_count: None,
        beam_unit: None,
        beam_groups: vec![],
        fermatas_valid: true,
    }
}

fn beat() -> BeatSize {
    BeatSize {
        duration: Duration { value: 4, dots: 0, tuplet: None },
        notes: 1,
        whammy_points: 0,
        bend_points: vec![0],
    }
}

fn measure(beats: Vec<BeatSize>) -> MeasureSize {
    MeasureSize { time_signature: (4, 4), voices: vec![beats] }
}

fn note(string: usize, pitch: Option<Pitch>) -> NoteFacts {
    NoteFacts {
        string,
        percussion: None,
        pitch,
        grace_pitch: None,
        harmonic_pitch: None,
        bend_valid: true,
        quarter_tone: 0,
        grace_duration: 0,
        tremolo_slashes: 0,
    }
}

#[test]
fn custom_meter_groups_and_explicit_beam_breaks_change_geometry() {
    let mut m = header();
    m.time_signature = (4, 8);
    m.beam_groups = vec![3, 1];
    assert!(validate_measure(&m, 0).is_ok());
    m.beam_groups = vec![2];
    assert!(validate_measure(&m, 0).unwrap_err().message.contains("beam groups"));
}

#[test]
fn measure_header_rules_have_exact_messages() {
    let mut m = header();
    m.key_signature = i8::MIN;
    assert_eq!(validate_measure(&m, 4).unwrap_err().message, "invalid meter or key in measure 5");
    m.key_signature = 0;
    m.repeat_count = Some(2);
    assert_eq!(
        validate_measure(&m, 0).unwrap_err().message,
        "repeat count requires an end-repeat and at least one pass"
    );
    m.repeat_end = true;
    assert!(validate_measure(&m, 0).is_ok());
    m.fermatas_valid = false;
    assert_eq!(validate_measure(&m, 0).unwrap_err().message, "invalid fermata onset");
    m.fermatas_valid = true;
    m.beam_unit = Some(3);
    assert_eq!(validate_measure(&m, 0).unwrap_err().message, "invalid beam unit");
    m.beam_unit = Some(16);
    m.beam_groups = vec![8, 0, 8];
    assert_eq!(
        validate_measure(&m, 0).unwrap_err().message,
        "beam groups must sum to the meter numerator"
    );
    m.beam_groups = vec![8, 8];
    assert!(validate_measure(&m, 0).is_ok());
}

#[test]
fn validation_enforces_curve_resource_limits() {
    let mut b = beat();
    b.whammy_points = MAX_CURVE_POINTS + 1;
    let error = validate_track(&vec![measure(vec![b])]).unwrap_err();
    assert_eq!(error.kind, ErrorKind::ResourceLimit);
    assert_eq!(error.message, "a whammy curve exceeds the 4096-point resource limit");
}

#[test]
fn full_validation_rejects_layout_specific_input() {
    assert!(validate_track(&vec![]).is_ok());
    assert!(validate_string_count(Clef::Treble, DisplayMode::Tablature, 0).is_err());
    assert!(validate_string_count(Clef::Percussion, DisplayMode::Tablature, 0).is_ok());
    assert!(validate_string_count(Clef::Treble, DisplayMode::Standard, 0).is_ok());
    assert_eq!(
        validate_string_count(Clef::Treble, DisplayMode::Both, 17).unwrap_err().message,
        "expected 1–16 strings"
    );
}

#[test]
fn resource_limits_name_the_measure() {
    let mut b = beat();
    b.notes = MAX_NOTES_PER_BEAT + 1;
    let e = validate_track(&vec![measure(vec![beat()]), measure(vec![b])]).unwrap_err();
    assert_eq!(e.kind, ErrorKind::ResourceLimit);
    assert_eq!(e.message, "a beat exceeds the 64-note resource limit");
    let mut bend = beat();
    bend.bend_points = vec![1, MAX_CURVE_POINTS + 1];
    assert_eq!(
        validate_track(&vec![measure(vec![bend])]).unwrap_err().message,
        "a bend curve exceeds the 4096-point resource limit"
    );
    let odd = MeasureSize { time_signature: (3, 6), voices: vec![] };
    let e = validate_track(&vec![measure(vec![]), odd]).unwrap_err();
    assert_eq!(e.kind, ErrorKind::ResourceLimit);
    assert_eq!(e.message, "invalid meter in measure 2");
    let crowded = MeasureSize { time_signature: (4, 4), voices: (0..33).map(|_| vec![]).collect() };
    let e = validate_track(&vec![crowded]).unwrap_err();
    assert_eq!(e.kind, ErrorKind::InvalidInput);
    assert_eq!(e.message, "measure 1 exceeds the 32-voice resource limit");
    let mut bad = beat();
    bad.duration.value = 3;
    let e = validate_track(&vec![measure(vec![bad])]).unwrap_err();
    assert_eq!(e.kind, ErrorKind::InvalidInput);
    assert_eq!(e.message, "invalid duration");
}

#[test]
fn rejects_malformed_models_and_options() {
    let mut used = vec![];
    let e = validate_note(Clef::Treble, DisplayMode::Tablature, 1, &note(0, None), 0, &mut used)
        .unwrap_err();
    assert_eq!(e.message, "invalid or duplicate string in measure 1");
    assert!(validate_note(Clef::Treble, DisplayMode::Tablature, 1, &note(6, None), 0, &mut used).is_err());
    assert!(validate_note(Clef::Treble, DisplayMode::Tablature, 1, &note(1, None), 0, &mut used).is_ok());
    assert_eq!(used, vec![1]);
    assert!(validate_string_count(Clef::Treble, DisplayMode::Tablature, 0).is_err());
}

#[test]
fn validates_staff_pitch_and_handles_minimum_key_value_without_panicking() {
    let mut used = vec![];
    let e = validate_note(Clef::Treble, DisplayMode::Standard, 1, &note(1, None), 0, &mut used)
        .unwrap_err();
    assert_eq!(e.message, "standard notation needs a written pitch in measure 1");
    let mut m = header();
    m.key_signature = i8::MIN;
    assert!(validate_measure(&m, 0).is_err());
    let mut bent = note(1, Some(Pitch::from_midi(64, false)));
    bent.bend_valid = false;
    let mut used = vec![];
    assert_eq!(
        validate_note(Clef::Treble, DisplayMode::Both, 1, &bent, 0, &mut used).unwrap_err().message,
        "invalid bend curve"
    );
}

#[test]
fn note_rules_run_in_order() {
    let pitch = Some(Pitch::from_midi(64, false));
    let mut used = vec![];
    let mut n = note(1, pitch);
    assert!(validate_note(Clef::Treble, DisplayMode::Both, 2, &n, 3, &mut used).is_ok());
    assert_eq!(
        validate_note(Clef::Treble, DisplayMode::Both, 2, &n, 3, &mut used).unwrap_err().message,
        "invalid or duplicate string in measure 4"
    );
    let mut used = vec![];
    n.percussion = Some(7);
    assert_eq!(
        validate_note(Clef::Percussion, DisplayMode::Standard, 0, &n, 0, &mut used).unwrap_err().message,
        "unsupported percussion articulation 7"
    );
    assert!(used.is_empty());
    n.percussion = None;
    n.grace_pitch = Some(Pitch { step: 0, octave: 10, accidental: 0 });
    assert_eq!(
        validate_note(Clef::Treble, DisplayMode::Standard, 1, &n, 0, &mut used).unwrap_err().message,
        "invalid written pitch"
    );
    n.grace_pitch = None;
    n.quarter_tone = 2;
    assert_eq!(
        validate_note(Clef::Treble, DisplayMode::Standard, 1, &n, 0, &mut used).unwrap_err().message,
        "invalid quarter-tone offset"
    );
    n.quarter_tone = -1;
    n.grace_duration = 12;
    assert_eq!(
        validate_note(Clef::Treble, DisplayMode::Standard, 1, &n, 0, &mut used).unwrap_err().message,
        "invalid grace duration"
    );
    n.grace_duration = 16;
    n.tremolo_slashes = 6;
    assert_eq!(
        validate_note(Clef::Treble, DisplayMode::Standard, 1, &n, 0, &mut used).unwrap_err().message,
        "too many tremolo slashes"
    );
    n.tremolo_slashes = 5;
    assert!(validate_note(Clef::Treble, DisplayMode::Standard, 1, &n, 0, &mut used).is_ok());
}

#[test]
fn a_valid_measure_passes_at_any_index() {
    let m = header();
    assert!(validate_measure(&m, usize::MAX).is_ok());
    let mut repeat = header();
    repeat.repeat_count = Some(0);
    assert_eq!(
        validate_measure(&repeat, usize::MAX).unwrap_err().message,
        "repeat count requires an end-repeat and at least one pass"
    );
}

#[test]
fn note_checks_need_a_measure_number_only_in_their_messages() {
    let mut used = vec![];
    assert!(validate_note(Clef::Treble, DisplayMode::Tablature, 2, &note(1, None), usize::MAX, &mut used).is_ok());
    let mut bad = note(2, Some(Pitch { step: 0, octave: 4, accidental: 0 }));
    bad.quarter_tone = 3;
    assert_eq!(
        validate_note(Clef::Treble, DisplayMode::Both, 2, &bad, usize::MAX, &mut used).unwrap_err().message,
        "invalid quarter-tone offset"
    );
}
