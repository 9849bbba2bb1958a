use alphatab_rs::metadata::{
    capo_line, credits, metadata_lines, text_lines, tuning_line, HeaderLine, HeaderRole,
};
use alphatab_rs::{ElementVisibility, ScoreMetadata};

fn pairs(lines: &[HeaderLine]) -> Vec<(String, HeaderRole)> {
    lines.iter().map(|l| (l.text.clone(), l.role)).collect()
}

fn strings(names: &[&str]) -> Vec<String> {
    names.iter().map(|s| s.to_string()).collect()
}

#[test]
fn shared_credit_names_both_roles_once() {
    let same = "Ann Lee".to_string();
    assert_eq!(credits(&same, &same), "Words and music: Ann Lee");
}

#[test]
fn distinct_credits_are_joined_by_a_middle_dot() {
    let words = "Ann".to_string();
    let music = "Bo".to_string();
    assert_eq!(credits(&words, &music), "Words: Ann · Music: Bo");
    assert_eq!(credits(&words, &String::new()), "Words: Ann");
    assert_eq!(credits(&String::new(), &music), "Music: Bo");
    assert_eq!(credits(&String::new(), &String::new()), "");
}

#[test]
fn text_lines_follow_str_lines_and_drop_empty_lines() {
    for text in ["a\r\n\nb\r", "", "\n\n", "one", "x\ny\n", "\r\n\r", "a\r\r\nb"] {
        let expected: Vec<String> = text
            .lines()
            .filter(|l| !l.is_empty())
            .map(|l| l.to_string())
            .collect();
        assert_eq!(text_lines(text), expected, "{text:?}");
    }
    assert_eq!(text_lines("a\r\n\nb\r"), vec!["a".to_string(), "b\r".to_string()]);
}

#[test]
fn tuning_lists_strings_from_the_lowest_up() {
    let six = strings(&["E4", "B3", "G3", "D3", "A2", "E2"]);
    assert_eq!(tuning_line(&six), "Tuning: E2 – A2 – D3 – G3 – B3 – E4");
    assert_eq!(tuning_line(&strings(&["D3"])), "Tuning: D3");
}

#[test]
fn capo_line_names_the_fret() {
    assert_eq!(capo_line(3), "Capo: 3");
    assert_eq!(capo_line(12), "Capo: 12");
}

#[test]
fn header_orders_lines_and_honours_switches() {
    let metadata = ScoreMetadata {
        title: "Song".into(),
        subtitle: "".into(),
        artist: "Band".into(),
        album: "First\n\nSecond".into(),
        words: "Ann".into(),
        music: "Ann".into(),
        copyright: "(c)".into(),
        instructions: "Slowly".into(),
    };
    let mut elements = ElementVisibility::default();
    let tuning = strings(&["E4", "B3"]);
    let lines = metadata_lines(&metadata, elements, true, true, &tuning, 2);
    assert_eq!(
        pairs(&lines),
        vec![
            ("Song".to_string(), HeaderRole::Title),
            ("Band".to_string(), HeaderRole::Artist),
            ("First".to_string(), HeaderRole::Album),
            ("Second".to_string(), HeaderRole::Album),
            ("Words and music: Ann".to_string(), HeaderRole::Credits),
            ("(c)".to_string(), HeaderRole::Copyright),
            ("Slowly".to_string(), HeaderRole::Instructions),
            ("Tuning: B3 – E4".to_string(), HeaderRole::Tuning),
            ("Capo: 2".to_string(), HeaderRole::Capo),
        ]
    );

    // The master switch hides the description but not tuning and capo.
    let lines = metadata_lines(&metadata, elements, false, true, &tuning, 2);
    assert_eq!(
        pairs(&lines),
        vec![
            ("Tuning: B3 – E4".to_string(), HeaderRole::Tuning),
            ("Capo: 2".to_string(), HeaderRole::Capo),
        ]
    );

    // Credits stay while either credit switch is on; no capo at the nut.
    elements.words = false;
    elements.title = false;
    elements.tuning = false;
    let lines = metadata_lines(&metadata, elements, true, true, &tuning, 0);
    assert_eq!(lines.len(), 6);
    assert_eq!(lines[0].role, HeaderRole::Artist);
    assert_eq!(lines[3].role, HeaderRole::Credits);
    assert!(lines.iter().all(|l| l.role != HeaderRole::Tuning && l.role != HeaderRole::Capo));

    elements.music = false;
    let lines = metadata_lines(&metadata, elements, true, false, &Vec::new(), 0);
    assert!(lines.iter().all(|l| l.role != HeaderRole::Credits));
}

#[test]
fn header_lines_are_single_nonempty_lines() {
    let metadata = ScoreMetadata {
        title: "A\r\nB\n\n".into(),
        instructions: "\n x \r\n".into(),
        ..Default::default()
    };
    let lines = metadata_lines(&metadata, ElementVisibility::default(), true, true, &Vec::new(), 0);
    assert_eq!(lines.len(), 3);
    for line in &lines {
        assert!(!line.text.is_empty());
        assert!(!line.text.contains('\n'));
    }
}

#[test]
fn element_visibility_can_hide_individual_metadata_and_score_labels() {
    let metadata = ScoreMetadata {
        title: "Visible title".into(),
        artist: "Hidden artist".into(),
        ..Default::default()
    };
    let elements = ElementVisibility { artist: false, track_names: false, repeat_counts: false, ..Default::default() };
    let lines = metadata_lines(&metadata, elements, true, true, &Vec::new(), 0);
    let count = |text: &str| lines.iter().filter(|l| l.text == text).count();
    assert_eq!(count("Visible title"), 1);
    assert_eq!(count("Hidden artist"), 0);
}

#[test]
fn metadata_is_measured_and_visibility_controls_apply() {
    let metadata = ScoreMetadata {
        title: "Title & author".into(),
        music: "Composer".into(),
        ..Default::default()
    };
    let tuning = strings(&["E4", "B3", "G3", "D3", "A2", "E2"]);
    let shown = metadata_lines(&metadata, ElementVisibility::default(), true, true, &tuning, 0);
    let hidden = metadata_lines(&metadata, ElementVisibility::default(), false, true, &tuning, 0);
    assert_eq!(shown.iter().filter(|l| l.text == "Title & author").count(), 1);
    assert_eq!(hidden.iter().filter(|l| l.text == "Title & author").count(), 0);
    assert!(shown.iter().any(|l| l.text == "Music: Composer" && l.role == HeaderRole::Credits));
    assert!(shown.len() > hidden.len());
}
