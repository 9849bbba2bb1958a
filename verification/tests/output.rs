use alphatab_rs::export::PdfExporter;
use alphatab_rs::text::escape_xml;
use alphatab_rs::track::label;
use alphatab_rs::{Color, ElementVisibility, ErrorKind, Fret, RenderError, RenderStyle};

#[test]
fn svg_replaces_xml_forbidden_control_characters() {
    let escaped = escape_xml("Title\u{5}<&");
    assert!(escaped.contains("Title\u{FFFD}&lt;&amp;"));
    assert!(!escaped.contains('\u{5}'));
}

#[test]
fn escaping_covers_every_markup_character() {
    assert_eq!(escape_xml("Tabs <&>"), "Tabs &lt;&amp;&gt;");
    assert_eq!(escape_xml("\"a\" 'b'"), "&quot;a&quot; &apos;b&apos;");
    assert_eq!(escape_xml("tab\there\u{FFFE}"), "tab\there\u{FFFD}");
    assert_eq!(escape_xml("plain é ♪"), "plain é ♪");
}

#[test]
fn fret_labels() {
    assert_eq!(label(Fret::Number(12), false, false).into_iter().collect::<String>(), "12");
    assert_eq!(label(Fret::Dead, false, false).into_iter().collect::<String>(), "x");
    assert_eq!(label(Fret::Tied(3), true, false).into_iter().collect::<String>(), "(3)");
    assert_eq!(label(Fret::Number(7), false, true).into_iter().collect::<String>(), "<7>");
}

#[test]
fn svg_colors_match_css_notation() {
    assert_eq!(Color::opaque(10, 20, 30).svg(), "rgb(10 20 30)");
    assert_eq!(Color::opaque(240, 241, 242).svg(), "rgb(240 241 242)");
    for a in 0..255u8 {
        let c = Color { r: 200, g: 10, b: 20, a };
        assert_eq!(c.svg(), format!("rgba(200 10 20 / {:.3})", f32::from(a) / 255.0));
    }
}

#[test]
fn style_overrides_fall_back_to_the_foreground() {
    let mut style = RenderStyle::default();
    style.foreground = Color::opaque(10, 20, 30);
    style.text = Some(Color::opaque(50, 60, 70));
    assert_eq!(style.text_color(), Color::opaque(50, 60, 70));
    assert_eq!(style.glyph_color(), Color::opaque(10, 20, 30));
    assert_eq!(style.line_color(), Color::opaque(10, 20, 30));
    assert_eq!(RenderStyle::default().selection.svg(), "rgba(90 170 255 / 0.188)");
    assert!(ElementVisibility::default().bar_numbers);
}

#[test]
fn errors_have_stable_categories() {
    let e = RenderError::invalid_input("bad".into());
    assert_eq!(e.kind(), ErrorKind::InvalidInput);
    assert_eq!(RenderError::export("x".into()).kind(), ErrorKind::Export);
    assert_eq!(RenderError::resource_limit("y".into()).kind(), ErrorKind::ResourceLimit);
    assert_eq!(RenderError::new(ErrorKind::Worker, "z".into()).kind(), ErrorKind::Worker);
}

#[test]
fn exports_vector_pdf_from_svg_text() {
    let options = svg2pdf::usvg::Options::default();
    let svg = r#"<svg xmlns="http://www.w3.org/2000/svg" width="40" height="20"><path d="M0 0 L40 20" stroke="black"/></svg>"#;
    let bytes = PdfExporter::export(svg, &options).unwrap();
    assert!(bytes.starts_with(b"%PDF-1.7\n"));
    assert!(bytes.ends_with(b"\n%%EOF"));
    let error = PdfExporter::export("<svg", &options).unwrap_err();
    assert_eq!(error.kind, ErrorKind::Export);
    assert!(error.message.starts_with("could not parse generated SVG for PDF: "));
}

fn unescape(t: &str) -> String {
    t.replace("&lt;", "<")
        .replace("&gt;", ">")
        .replace("&quot;", "\"")
        .replace("&apos;", "'")
        .replace("&amp;", "&")
}

#[test]
fn escaping_round_trips_and_every_ampersand_starts_an_entity() {
    assert_eq!(escape_xml("Tabs <&>"), "Tabs &lt;&amp;&gt;");
    for text in ["Tabs <&>", "&amp; stays text", "\"quoted\" 'x'", "bell\u{7}\u{FFFE}", "&lt;"] {
        let escaped = escape_xml(text);
        let cleaned: String = text
            .chars()
            .map(|c| {
                let ok = matches!(c, '\t' | '\n' | '\r')
                    || ('\u{20}'..='\u{D7FF}').contains(&c)
                    || ('\u{E000}'..='\u{FFFD}').contains(&c)
                    || ('\u{10000}'..='\u{10FFFF}').contains(&c);
                if ok { c } else { '\u{FFFD}' }
            })
            .collect();
        assert_eq!(unescape(&escaped), cleaned, "{text:?}");
        for (i, _) in escaped.match_indices('&') {
            let rest = &escaped[i..];
            assert!(["&amp;", "&lt;", "&gt;", "&quot;", "&apos;"].iter().any(|e| rest.starts_with(e)));
        }
    }
    assert_eq!(escape_xml("&amp;"), "&amp;amp;");
}

#[test]
fn black_and_white_are_opaque() {
    assert_eq!(Color::black(), Color { r: 0, g: 0, b: 0, a: 255 });
    assert_eq!(Color::white(), Color { r: 255, g: 255, b: 255, a: 255 });
    assert_eq!(Color::black().svg(), "rgb(0 0 0)");
    assert_eq!(RenderStyle::default().foreground, Color::black());
    assert_eq!(RenderStyle::default().background, Color::white());
}
