//! Colours, visual style and visibility switches shared by every backend.
use crate::text::{decimal, push_all, spec_decimal, string_from_chars};
use vstd::prelude::*;

verus! {

/// RGBA colour used by the renderer and SVG export.
#[derive(Clone, Copy, Debug, PartialEq, Eq, Structural)]
pub struct Color {
    /// Red channel.
    pub r: u8,
    /// Green channel.
    pub g: u8,
    /// Blue channel.
    pub b: u8,
    /// Alpha channel, where zero is transparent.
    pub a: u8,
}

/// Alpha `a / 255` rounded to thousandths (half up), as an integer 0..=1000.
pub open spec fn alpha_thousandths(a: int) -> int {
    (2000 * a + 255) / 510
}

/// The three-digit, zero-padded decimal of `n < 1000`.
pub open spec fn three_digits(n: int) -> Seq<char> {
    let hundreds = n / 100;
    let tens = (n / 10) % 10;
    let ones = n % 10;
    seq![
        crate::text::digit_char(hundreds as nat),
        crate::text::digit_char(tens as nat),
        crate::text::digit_char(ones as nat),
    ]
}

/// The SVG/CSS colour text of a colour: `rgb(r g b)` when opaque, otherwise
/// `rgba(r g b / alpha)` with the alpha fraction printed to three decimals.
pub open spec fn spec_svg_color(c: Color) -> Seq<char> {
    let channels = spec_decimal(c.r as nat) + seq![' '] + spec_decimal(c.g as nat) + seq![' ']
        + spec_decimal(c.b as nat);
    if c.a == 255 {
        "rgb("@ + channels + seq![')']
    } else {
        "rgba("@ + channels + seq![' ', '/', ' ', '0', '.'] + three_digits(
            alpha_thousandths(c.a as int),
        ) + seq![')']
    }
}

impl Color {
    /// Opaque black.
    pub fn black() -> (c: Self)
        ensures
            c == (Color { r: 0, g: 0, b: 0, a: 255 }),
    {
        Color { r: 0, g: 0, b: 0, a: 255 }
    }

    /// Opaque white.
    pub fn white() -> (c: Self)
        ensures
            c == (Color { r: 255, g: 255, b: 255, a: 255 }),
    {
        Color { r: 255, g: 255, b: 255, a: 255 }
    }

    /// Constructs an opaque RGB colour.
    pub fn opaque(r: u8, g: u8, b: u8) -> (c: Self)
        ensures
            c == (Color { r, g, b, a: 255 }),
    {
        Color { r, g, b, a: 255 }
    }

    /// Formats this colour as an SVG paint value.
    pub fn svg(self) -> (s: String)
        ensures
            s@ == spec_svg_color(self),
    {
        let mut out: Vec<char> = Vec::new();
        out.push('r');
        out.push('g');
        out.push('b');
        if self.a != 255 {
            out.push('a');
        }
        out.push('(');
        push_all(&mut out, &decimal(self.r as u64));
        out.push(' ');
        push_all(&mut out, &decimal(self.g as u64));
        out.push(' ');
        push_all(&mut out, &decimal(self.b as u64));
        if self.a != 255 {
            out.push(' ');
            out.push('/');
            out.push(' ');
            out.push('0');
            out.push('.');
            let t: u32 = (2000 * self.a as u32 + 255) / 510;
            assert(t < 1000);
            out.push(crate::text::digit((t / 100) as u64));
            out.push(crate::text::digit(((t / 10) % 10) as u64));
            out.push(crate::text::digit((t % 10) as u64));
        }
        out.push(')');
        proof {
            reveal_strlit("rgb(");
            reveal_strlit("rgba(");
            let channels = spec_decimal(self.r as nat) + seq![' '] + spec_decimal(self.g as nat)
                + seq![' '] + spec_decimal(self.b as nat);
            if self.a == 255 {
                assert(out@ == "rgb("@ + channels + seq![')']);
            } else {
                assert(out@ == "rgba("@ + channels + seq![' ', '/', ' ', '0', '.'] + three_digits(
                    alpha_thousandths(self.a as int),
                ) + seq![')']);
            }
        }
        string_from_chars(&out)
    }
}

/// Global visual treatment for a completed layout.
#[derive(Clone, Copy, Debug, PartialEq, Eq, Structural)]
pub struct RenderStyle {
    /// Default color for notation that has no class-specific override.
    pub foreground: Color,
    /// Page background color.
    pub background: Color,
    /// Color used to highlight selected beats.
    pub selection: Color,
    /// Color used for playback cursors.
    pub cursor: Color,
    /// Optional override for music glyphs.
    pub music_glyphs: Option<Color>,
    /// Optional override for staff and effect lines.
    pub staff_and_effect_lines: Option<Color>,
    /// Optional override for text.
    pub text: Option<Color>,
}

impl Default for RenderStyle {
    /// Black notation on white with a translucent blue selection.
    fn default() -> (s: Self)
        ensures
            s == (RenderStyle {
                foreground: Color { r: 0, g: 0, b: 0, a: 255 },
                background: Color { r: 255, g: 255, b: 255, a: 255 },
                selection: Color { r: 90, g: 170, b: 255, a: 48 },
                cursor: Color { r: 30, g: 105, b: 190, a: 255 },
                music_glyphs: None,
                staff_and_effect_lines: None,
                text: None,
            }),
    {
        RenderStyle {
            foreground: Color::black(),
            background: Color::white(),
            selection: Color { r: 90, g: 170, b: 255, a: 48 },
            cursor: Color::opaque(30, 105, 190),
            music_glyphs: None,
            staff_and_effect_lines: None,
            text: None,
        }
    }
}

/// The colour of an optional override, falling back to `foreground`.
pub open spec fn override_or(value: Option<Color>, foreground: Color) -> Color {
    match value {
        Some(c) => c,
        None => foreground,
    }
}

impl RenderStyle {
    /// Colour used for music glyphs.
    pub fn glyph_color(self) -> (c: Color)
        ensures
            c == override_or(self.music_glyphs, self.foreground),
    {
        match self.music_glyphs {
            Some(c) => c,
            None => self.foreground,
        }
    }

    /// Colour used for staff and effect lines.
    pub fn line_color(self) -> (c: Color)
        ensures
            c == override_or(self.staff_and_effect_lines, self.foreground),
    {
        match self.staff_and_effect_lines {
            Some(c) => c,
            None => self.foreground,
        }
    }

    /// Colour used for text.
    pub fn text_color(self) -> (c: Color)
        ensures
            c == override_or(self.text, self.foreground),
    {
        match self.text {
            Some(c) => c,
            None => self.foreground,
        }
    }
}

/// Fine-grained visibility settings for rendered notation elements.
///
/// These supplement the category switches of the layout options: a category
/// switch still hides every element in that category.
#[derive(Clone, Copy, Debug, PartialEq, Eq, Structural)]
pub struct ElementVisibility {
    /// Shows the score title.
    pub title: bool,
    /// Shows the score subtitle.
    pub subtitle: bool,
    /// Shows the artist credit.
    pub artist: bool,
    /// Shows the album credit.
    pub album: bool,
    /// Shows the lyricist credit.
    pub words: bool,
    /// Shows the composer credit.
    pub music: bool,
    /// Shows the copyright notice.
    pub copyright: bool,
    /// Shows score instructions.
    pub instructions: bool,
    /// Shows tuning labels.
    pub tuning: bool,
    /// Shows the capo indication.
    pub capo: bool,
    /// Shows track names.
    pub track_names: bool,
    /// Shows chord diagrams.
    pub chord_diagrams: bool,
    /// Shows dynamic markings.
    pub dynamics: bool,
    /// Shows lyric text.
    pub lyrics: bool,
    /// Shows performance effects.
    pub effects: bool,
    /// Shows displayed measure numbers.
    pub bar_numbers: bool,
    /// Shows repeat pass counts.
    pub repeat_counts: bool,
}

impl Default for ElementVisibility {
    /// Every element is visible.
    fn default() -> (v: Self)
        ensures
            v.title && v.subtitle && v.artist && v.album && v.words && v.music && v.copyright
                && v.instructions && v.tuning && v.capo && v.track_names && v.chord_diagrams
                && v.dynamics && v.lyrics && v.effects && v.bar_numbers && v.repeat_counts,
    {
        ElementVisibility {
            title: true,
            subtitle: true,
            artist: true,
            album: true,
            words: true,
            music: true,
            copyright: true,
            instructions: true,
            tuning: true,
            capo: true,
            track_names: true,
            chord_diagrams: true,
            dynamics: true,
            lyrics: true,
            effects: true,
            bar_numbers: true,
            repeat_counts: true,
        }
    }
}

/// Selects the convention used for fingering labels.
#[derive(Clone, Copy, Debug, Default, PartialEq, Eq, Structural)]
pub enum FingeringMode {
    /// Guitar left- and right-hand notation.
    #[default]
    Guitar,
    /// Piano finger numbers.
    Piano,
}

/// Controls whether and how rhythm stems are shown below tablature.
#[derive(Clone, Copy, Debug, Default, PartialEq, Eq, Structural)]
pub enum TabRhythm {
    /// No rhythm stems.
    Hidden,
    /// Unconnected stems and flags.
    Individual,
    /// Connect eligible tablature stems with beams.
    #[default]
    Connected,
    /// Choose automatically.
    Automatic,
}

} // verus!
