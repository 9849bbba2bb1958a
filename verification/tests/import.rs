use alphatab_rs::guitar_pro::{
    beam_groups, convert_duration, convert_fret, convert_meter, convert_notes, convert_tuning,
    fingering, natural_harmonic, repeat_count, report_once, Fingering, SourceDuration, SourceInstrument,
    SourceNote, SourceNoteKind,
};
use alphatab_rs::Fret;

fn instrument(strings: Vec<u8>) -> SourceInstrument {
    SourceInstrument { strings, percussion: false, offset: 0, transpose_chromatic: 0, transpose_octave: 0 }
}

#[test]
fn converts_guitar_pro_duration_flags_and_tuplets() {
    let source = SourceDuration { value: 8, dotted: false, double_dotted: true, tuplet_enters: 3, tuplet_times: 2 };
    let duration = convert_duration(source).unwrap();
    assert_eq!(duration.value, 8);
    assert_eq!(duration.dots, 2);
    assert_eq!(duration.tuplet, Some((3, 2)));
}

#[test]
fn omits_guitar_pro_identity_tuplet() {
    let source = SourceDuration { value: 4, dotted: false, double_dotted: false, tuplet_enters: 1, tuplet_times: 1 };
    let duration = convert_duration(source).unwrap();
    assert_eq!(duration.tuplet, None);
}

#[test]
fn converts_normal_dead_and_tied_notes_and_omits_rests() {
    let notes = vec![
        SourceNote { string: 1, value: 3, kind: SourceNoteKind::Normal },
        SourceNote { string: 2, value: 0, kind: SourceNoteKind::Dead },
        SourceNote { string: 3, value: 5, kind: SourceNoteKind::Tie },
        SourceNote { string: 0, value: 0, kind: SourceNoteKind::Rest },
    ];
    let mut warnings = vec![];
    let converted = convert_notes(&instrument(vec![64, 59, 55]), &notes, &mut warnings).unwrap();
    assert_eq!(converted.len(), 3);
    assert_eq!(converted[0].fret, Fret::Number(3));
    assert_eq!(converted[0].midi, Some(67));
    assert_eq!(converted[1].fret, Fret::Dead);
    assert_eq!(converted[2].fret, Fret::Tied(5));
    assert!(warnings.is_empty());
}

#[test]
fn note_conversion_errors_and_warnings() {
    let mut warnings = vec![];
    let unknown = vec![SourceNote { string: 1, value: 2, kind: SourceNoteKind::Unknown(9) }];
    assert!(convert_notes(&instrument(vec![64]), &unknown, &mut warnings).unwrap().is_empty());
    assert_eq!(warnings, vec!["Unknown note kind omitted".to_string()]);
    let far = vec![SourceNote { string: 4, value: 2, kind: SourceNoteKind::Normal }];
    assert_eq!(
        convert_notes(&instrument(vec![64]), &far, &mut warnings).unwrap_err().message,
        "string index out of range"
    );
    let zero = vec![SourceNote { string: 0, value: 2, kind: SourceNoteKind::Normal }];
    assert_eq!(
        convert_notes(&instrument(vec![64]), &zero, &mut warnings).unwrap_err().message,
        "zero string index"
    );
    let negative = vec![SourceNote { string: 1, value: -2, kind: SourceNoteKind::Unknown(1) }];
    assert_eq!(
        convert_notes(&instrument(vec![64]), &negative, &mut warnings).unwrap_err().message,
        "negative fret"
    );
    let high = vec![SourceNote { string: 1, value: 200, kind: SourceNoteKind::Normal }];
    assert_eq!(
        convert_notes(&instrument(vec![64]), &high, &mut warnings).unwrap_err().message,
        "written pitch outside MIDI range"
    );
    let mut drums = instrument(vec![]);
    drums.percussion = true;
    let hit = vec![SourceNote { string: 5, value: 38, kind: SourceNoteKind::Normal }];
    assert_eq!(convert_notes(&drums, &hit, &mut warnings).unwrap()[0].midi, None);
    let mut capo = instrument(vec![64]);
    capo.offset = 2;
    capo.transpose_octave = 1;
    let fretted = vec![SourceNote { string: 1, value: 3, kind: SourceNoteKind::Normal }];
    assert_eq!(convert_notes(&capo, &fretted, &mut warnings).unwrap()[0].midi, Some(57));
}

#[test]
fn small_guitar_pro_conversions() {
    assert_eq!(repeat_count(-1, 5), None);
    assert_eq!(repeat_count(1, 5), Some(2));
    assert_eq!(repeat_count(2, 7), Some(2));
    assert_eq!(beam_groups(4, 4, &vec![2, 2, 2, 2], 5).unwrap(), vec![2, 2, 2, 2]);
    assert_eq!(beam_groups(4, 4, &vec![3, 3, 0, 2], 5).unwrap(), vec![3, 3, 2]);
    assert!(beam_groups(4, 4, &vec![2, 2, 2, 2], 7).unwrap().is_empty());
    assert!(beam_groups(4, 4, &vec![2, 2], 5).unwrap().is_empty());
    assert_eq!(beam_groups(-1, 4, &vec![], 5).unwrap_err().message, "negative meter");
    assert_eq!(convert_fret(5).unwrap(), 5);
    assert_eq!(convert_fret(-3).unwrap_err().message, "negative fret -3");
    assert_eq!(natural_harmonic(12), 12);
    assert_eq!(natural_harmonic(7), 19);
    assert_eq!(natural_harmonic(11), 0);
    assert_eq!(convert_tuning(&vec![(1, 64), (2, 59), (3, 55)]).unwrap(), vec![64, 59, 55]);
    assert_eq!(convert_tuning(&vec![(1, -1)]).unwrap_err().message, "invalid string tuning");
    assert_eq!(convert_meter(3, 8).unwrap(), (3, 8));
    assert_eq!(convert_meter(-3, 8).unwrap_err().message, "invalid meter");
    assert!(convert_duration(SourceDuration { value: 40000, dotted: false, double_dotted: false, tuplet_enters: 1, tuplet_times: 1 }).is_err());
}

#[test]
fn fingering_labels_and_unknown_values() {
    let mut warnings = vec![];
    assert_eq!(fingering(Fingering::Thumb, true, &mut warnings), Some("p".to_string()));
    assert_eq!(fingering(Fingering::Thumb, false, &mut warnings), Some("T".to_string()));
    assert_eq!(fingering(Fingering::Little, true, &mut warnings), Some("c".to_string()));
    assert_eq!(fingering(Fingering::Open, true, &mut warnings), None);
    assert!(warnings.is_empty());
    assert_eq!(fingering(Fingering::Unknown(-7), false, &mut warnings), None);
    assert_eq!(warnings, vec!["Unknown fingering value: -7".to_string()]);
}

#[test]
fn warnings_are_reported_once_in_order() {
    let warnings: Vec<String> = ["Unknown note kind omitted", "Unknown fingering value: 9", "Unknown note kind omitted", "Z", "É", "A", ""]
        .iter()
        .map(|w| w.to_string())
        .collect();
    let mut expected = warnings.clone();
    expected.sort();
    expected.dedup();
    assert_eq!(report_once(warnings), expected);
    assert!(report_once(vec![]).is_empty());
}

#[test]
fn keeps_empty_voice_identity_and_reports_unknown_effect_values() {
    let mut warnings = vec![];
    assert_eq!(fingering(Fingering::Unknown(12), true, &mut warnings), None);
    assert!(warnings.iter().any(|w| w.contains("12")));
    assert_eq!(warnings, vec!["Unknown fingering value: 12".to_string()]);
}
