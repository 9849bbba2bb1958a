//! Names of the SMuFL music glyphs chosen by the engraving rules.
//!
//! The library decides which symbol a notation element needs; the outline of
//! each named symbol is looked up by the drawing layer.
use crate::error::{ErrorKind, RenderError};
use crate::notation::{
    key_alteration_count, key_alters, key_order_position, spec_key_accidental, Clef, NoteHead,
    Ornament,
};
use vstd::prelude::*;

verus! {

/// A SMuFL glyph selected by the notation rules.
#[derive(Clone, Copy, Debug, PartialEq, Eq, Hash, Structural)]
pub enum MusicGlyph {
    /// Black (quarter and shorter) notehead.
    NoteheadBlack,
    /// Half notehead.
    NoteheadHalf,
    /// Whole notehead.
    NoteheadWhole,
    /// Breve notehead.
    NoteheadDoubleWhole,
    /// Square breve notehead, used for the longa.
    NoteheadDoubleWholeSquare,
    /// Black cross notehead.
    NoteheadXBlack,
    /// Half cross notehead.
    NoteheadXHalf,
    /// Whole cross notehead.
    NoteheadXWhole,
    /// Breve cross notehead.
    NoteheadXDoubleWhole,
    /// Black triangle notehead.
    NoteheadTriangleUpBlack,
    /// Half triangle notehead.
    NoteheadTriangleUpHalf,
    /// Whole triangle notehead.
    NoteheadTriangleUpWhole,
    /// Breve triangle notehead.
    NoteheadTriangleUpDoubleWhole,
    /// Black diamond notehead.
    NoteheadDiamondBlack,
    /// Half diamond notehead.
    NoteheadDiamondHalf,
    /// Whole diamond notehead.
    NoteheadDiamondWhole,
    /// Breve diamond notehead.
    NoteheadDiamondDoubleWhole,
    /// Open diamond notehead.
    NoteheadDiamondWhite,
    /// Circled slash notehead.
    NoteheadCircleSlash,
    /// Black circled cross notehead.
    NoteheadCircleX,
    /// Half circled cross notehead.
    NoteheadCircleXHalf,
    /// Whole circled cross notehead.
    NoteheadCircleXWhole,
    /// Breve circled cross notehead.
    NoteheadCircleXDoubleWhole,
    /// Heavy cross notehead.
    NoteheadHeavyX,
    /// Heavy cross notehead with hat.
    NoteheadHeavyXHat,
    /// Invisible notehead.
    NoteheadNull,
    /// Black notehead slashed from lower left.
    NoteheadSlashedBlack2,
    /// Whole slash notehead.
    NoteheadSlashWhiteWhole,
    /// Half slash notehead.
    NoteheadSlashWhiteHalf,
    /// Breve slash notehead.
    NoteheadSlashWhiteDoubleWhole,
    /// Slash notehead with vertical ends.
    NoteheadSlashVerticalEnds,
    /// Trill ornament.
    OrnamentTrill,
    /// Turn ornament.
    OrnamentTurn,
    /// Inverted turn ornament.
    OrnamentTurnInverted,
    /// Short trill (upper mordent) ornament.
    OrnamentShortTrill,
    /// Mordent (lower mordent) ornament.
    OrnamentMordent,
    /// Eighth-note flag, stem up.
    Flag8thUp,
    /// Eighth-note flag, stem down.
    Flag8thDown,
    /// Sixteenth-note flag, stem up.
    Flag16thUp,
    /// Sixteenth-note flag, stem down.
    Flag16thDown,
    /// Thirty-second-note flag, stem up.
    Flag32ndUp,
    /// Thirty-second-note flag, stem down.
    Flag32ndDown,
    /// Sixty-fourth-note flag, stem up.
    Flag64thUp,
    /// Sixty-fourth-note flag, stem down.
    Flag64thDown,
    /// 128th-note flag, stem up.
    Flag128thUp,
    /// 128th-note flag, stem down.
    Flag128thDown,
    /// Dynamic pppp.
    DynamicPppp,
    /// Dynamic ppp.
    DynamicPpp,
    /// Dynamic pp.
    DynamicPp,
    /// Dynamic p.
    DynamicPiano,
    /// Dynamic mp.
    DynamicMp,
    /// Dynamic mf.
    DynamicMf,
    /// Dynamic f.
    DynamicForte,
    /// Dynamic ff.
    DynamicFf,
    /// Dynamic fff.
    DynamicFff,
    /// Dynamic ffff.
    DynamicFfff,
    /// Dynamic sfz.
    DynamicSforzato,
    /// Dynamic fp.
    DynamicFortePiano,
    /// Longa rest.
    RestLonga,
    /// Breve rest.
    RestDoubleWhole,
    /// Whole rest.
    RestWhole,
    /// Half rest.
    RestHalf,
    /// Quarter rest.
    RestQuarter,
    /// Eighth rest.
    Rest8th,
    /// Sixteenth rest.
    Rest16th,
    /// Thirty-second rest.
    Rest32nd,
    /// Sixty-fourth rest.
    Rest64th,
    /// 128th rest.
    Rest128th,
    /// Double flat.
    AccidentalDoubleFlat,
    /// Flat.
    AccidentalFlat,
    /// Natural.
    AccidentalNatural,
    /// Sharp.
    AccidentalSharp,
    /// Double sharp.
    AccidentalDoubleSharp,
    /// Three-quarter-tones flat (Zimmermann).
    AccidentalThreeQuarterTonesFlatZimmermann,
    /// Quarter-tone flat (Stein).
    AccidentalQuarterToneFlatStein,
    /// Quarter-tone sharp (Stein).
    AccidentalQuarterToneSharpStein,
    /// Three-quarter-tones sharp (Stein).
    AccidentalThreeQuarterTonesSharpStein,
}

/// Notehead glyph of a shape for a breve (`square` selects the longa form).
pub open spec fn spec_double_whole_glyph(head: NoteHead, square: bool) -> MusicGlyph {
    match head {
        NoteHead::Normal => if square {
            MusicGlyph::NoteheadDoubleWholeSquare
        } else {
            MusicGlyph::NoteheadDoubleWhole
        },
        NoteHead::Diamond => MusicGlyph::NoteheadDiamondDoubleWhole,
        NoteHead::Cross => MusicGlyph::NoteheadXDoubleWhole,
        NoteHead::Slash => MusicGlyph::NoteheadSlashWhiteDoubleWhole,
        NoteHead::Triangle => MusicGlyph::NoteheadTriangleUpDoubleWhole,
        NoteHead::CircleCross => MusicGlyph::NoteheadCircleXDoubleWhole,
    }
}

/// Notehead glyph of a shape for a whole note (`0`), half note (`1`) or a
/// quarter and shorter (`2`).
pub open spec fn spec_class_glyph(head: NoteHead, class: int) -> MusicGlyph {
    match head {
        NoteHead::Normal => if class == 0 {
            MusicGlyph::NoteheadWhole
        } else if class == 1 {
            MusicGlyph::NoteheadHalf
        } else {
            MusicGlyph::NoteheadBlack
        },
        NoteHead::Diamond => if class == 0 {
            MusicGlyph::NoteheadDiamondWhole
        } else if class == 1 {
            MusicGlyph::NoteheadDiamondHalf
        } else {
            MusicGlyph::NoteheadDiamondBlack
        },
        NoteHead::Cross => if class == 0 {
            MusicGlyph::NoteheadXWhole
        } else if class == 1 {
            MusicGlyph::NoteheadXHalf
        } else {
            MusicGlyph::NoteheadXBlack
        },
        NoteHead::Slash => if class == 0 {
            MusicGlyph::NoteheadSlashWhiteWhole
        } else if class == 1 {
            MusicGlyph::NoteheadSlashWhiteHalf
        } else {
            MusicGlyph::NoteheadSlashVerticalEnds
        },
        NoteHead::Triangle => if class == 0 {
            MusicGlyph::NoteheadTriangleUpWhole
        } else if class == 1 {
            MusicGlyph::NoteheadTriangleUpHalf
        } else {
            MusicGlyph::NoteheadTriangleUpBlack
        },
        NoteHead::CircleCross => if class == 0 {
            MusicGlyph::NoteheadCircleXWhole
        } else if class == 1 {
            MusicGlyph::NoteheadCircleXHalf
        } else {
            MusicGlyph::NoteheadCircleX
        },
    }
}

/// The notehead glyph of a shape for a written duration value.
pub open spec fn spec_notehead_glyph(head: NoteHead, value: i16) -> MusicGlyph {
    if value == -2 || value == -4 {
        spec_double_whole_glyph(head, value == -4)
    } else if value == 1 {
        spec_class_glyph(head, 0)
    } else if value == 2 {
        spec_class_glyph(head, 1)
    } else {
        spec_class_glyph(head, 2)
    }
}

impl NoteHead {
    /// Selects the glyph of this notehead shape for a written duration value.
    pub fn resolve_glyph(self, value: i16) -> (g: MusicGlyph)
        ensures
            g == spec_notehead_glyph(self, value),
    {
        if value == -2 || value == -4 {
            return match self {
                NoteHead::Normal => {
                    if value == -4 {
                        MusicGlyph::NoteheadDoubleWholeSquare
                    } else {
                        MusicGlyph::NoteheadDoubleWhole
                    }
                },
                NoteHead::Diamond => MusicGlyph::NoteheadDiamondDoubleWhole,
                NoteHead::Cross => MusicGlyph::NoteheadXDoubleWhole,
                NoteHead::Slash => MusicGlyph::NoteheadSlashWhiteDoubleWhole,
                NoteHead::Triangle => MusicGlyph::NoteheadTriangleUpDoubleWhole,
                NoteHead::CircleCross => MusicGlyph::NoteheadCircleXDoubleWhole,
            };
        }
        let index: usize = match value {
            1 => 0,
            2 => 1,
            _ => 2,
        };
        match self {
            NoteHead::Normal => {
                if index == 0 {
                    MusicGlyph::NoteheadWhole
                } else if index == 1 {
                    MusicGlyph::NoteheadHalf
                } else {
                    MusicGlyph::NoteheadBlack
                }
            },
            NoteHead::Diamond => {
                if index == 0 {
                    MusicGlyph::NoteheadDiamondWhole
                } else if index == 1 {
                    MusicGlyph::NoteheadDiamondHalf
                } else {
                    MusicGlyph::NoteheadDiamondBlack
                }
            },
            NoteHead::Cross => {
                if index == 0 {
                    MusicGlyph::NoteheadXWhole
                } else if index == 1 {
                    MusicGlyph::NoteheadXHalf
                } else {
                    MusicGlyph::NoteheadXBlack
                }
            },
            NoteHead::Slash => {
                if index == 0 {
                    MusicGlyph::NoteheadSlashWhiteWhole
                } else if index == 1 {
                    MusicGlyph::NoteheadSlashWhiteHalf
                } else {
                    MusicGlyph::NoteheadSlashVerticalEnds
                }
            },
            NoteHead::Triangle => {
                if index == 0 {
                    MusicGlyph::NoteheadTriangleUpWhole
                } else if index == 1 {
                    MusicGlyph::NoteheadTriangleUpHalf
                } else {
                    MusicGlyph::NoteheadTriangleUpBlack
                }
            },
            NoteHead::CircleCross => {
                if index == 0 {
                    MusicGlyph::NoteheadCircleXWhole
                } else if index == 1 {
                    MusicGlyph::NoteheadCircleXHalf
                } else {
                    MusicGlyph::NoteheadCircleX
                }
            },
        }
    }
}

impl Ornament {
    /// The glyph drawn for this ornament.
    pub fn resolve_glyph(self) -> (g: MusicGlyph)
        ensures
            self is Trill ==> g == MusicGlyph::OrnamentTrill,
            self is Turn ==> g == MusicGlyph::OrnamentTurn,
            self is InvertedTurn ==> g == MusicGlyph::OrnamentTurnInverted,
            self is UpperMordent ==> g == MusicGlyph::OrnamentShortTrill,
            self is LowerMordent ==> g == MusicGlyph::OrnamentMordent,
    {
        match self {
            Ornament::Trill => MusicGlyph::OrnamentTrill,
            Ornament::Turn => MusicGlyph::OrnamentTurn,
            Ornament::InvertedTurn => MusicGlyph::OrnamentTurnInverted,
            Ornament::UpperMordent => MusicGlyph::OrnamentShortTrill,
            Ornament::LowerMordent => MusicGlyph::OrnamentMordent,
        }
    }
}

/// The flag glyph for `levels` beams (1 = eighth) and a stem direction; five
/// or more levels share the 128th flag.
pub open spec fn spec_flag_glyph(levels: u32, down: bool) -> MusicGlyph {
    if levels == 1 {
        if down { MusicGlyph::Flag8thDown } else { MusicGlyph::Flag8thUp }
    } else if levels == 2 {
        if down { MusicGlyph::Flag16thDown } else { MusicGlyph::Flag16thUp }
    } else if levels == 3 {
        if down { MusicGlyph::Flag32ndDown } else { MusicGlyph::Flag32ndUp }
    } else if levels == 4 {
        if down { MusicGlyph::Flag64thDown } else { MusicGlyph::Flag64thUp }
    } else {
        if down { MusicGlyph::Flag128thDown } else { MusicGlyph::Flag128thUp }
    }
}

/// Selects the SMuFL flag glyph for a stem direction and subdivision level.
pub fn flag_glyph(levels: u32, down: bool) -> (g: MusicGlyph)
    ensures
        g == spec_flag_glyph(levels, down),
{
    match (levels, down) {
        (1, false) => MusicGlyph::Flag8thUp,
        (1, true) => MusicGlyph::Flag8thDown,
        (2, false) => MusicGlyph::Flag16thUp,
        (2, true) => MusicGlyph::Flag16thDown,
        (3, false) => MusicGlyph::Flag32ndUp,
        (3, true) => MusicGlyph::Flag32ndDown,
        (4, false) => MusicGlyph::Flag64thUp,
        (4, true) => MusicGlyph::Flag64thDown,
        (_, false) => MusicGlyph::Flag128thUp,
        (_, true) => MusicGlyph::Flag128thDown,
    }
}

/// Whether two strings hold the same characters.
pub fn same_text(a: &str, b: &str) -> (r: bool)
    ensures
        r == (a@ == b@),
{
    let n = a.unicode_len();
    if n != b.unicode_len() {
        return false;
    }
    let mut i: usize = 0;
    while i < n
        invariant
            n == a@.len(),
            n == b@.len(),
            i <= n,
            forall|j: int| 0 <= j < i ==> a@[j] == b@[j],
        decreases n - i,
    {
        if a.get_char(i) != b.get_char(i) {
            return false;
        }
        i = i + 1;
    }
    assert(a@ == b@);
    true
}

/// The dynamic glyph for a written dynamic marking, if it has one.
pub open spec fn spec_dynamic_glyph(value: Seq<char>) -> Option<MusicGlyph> {
    if value == "pppp"@ {
        Some(MusicGlyph::DynamicPppp)
    } else if value == "ppp"@ {
        Some(MusicGlyph::DynamicPpp)
    } else if value == "pp"@ {
        Some(MusicGlyph::DynamicPp)
    } else if value == "p"@ {
        Some(MusicGlyph::DynamicPiano)
    } else if value == "mp"@ {
        Some(MusicGlyph::DynamicMp)
    } else if value == "mf"@ {
        Some(MusicGlyph::DynamicMf)
    } else if value == "f"@ {
        Some(MusicGlyph::DynamicForte)
    } else if value == "ff"@ {
        Some(MusicGlyph::DynamicFf)
    } else if value == "fff"@ {
        Some(MusicGlyph::DynamicFff)
    } else if value == "ffff"@ {
        Some(MusicGlyph::DynamicFfff)
    } else if value == "sfz"@ {
        Some(MusicGlyph::DynamicSforzato)
    } else if value == "fp"@ {
        Some(MusicGlyph::DynamicFortePiano)
    } else {
        None
    }
}

/// Maps a dynamic marking such as `mf` to its composite glyph.
pub fn dynamic_glyph(value: &str) -> (g: Option<MusicGlyph>)
    ensures
        g == spec_dynamic_glyph(value@),
{
    if same_text(value, "pppp") {
        Some(MusicGlyph::DynamicPppp)
    } else if same_text(value, "ppp") {
        Some(MusicGlyph::DynamicPpp)
    } else if same_text(value, "pp") {
        Some(MusicGlyph::DynamicPp)
    } else if same_text(value, "p") {
        Some(MusicGlyph::DynamicPiano)
    } else if same_text(value, "mp") {
        Some(MusicGlyph::DynamicMp)
    } else if same_text(value, "mf") {
        Some(MusicGlyph::DynamicMf)
    } else if same_text(value, "f") {
        Some(MusicGlyph::DynamicForte)
    } else if same_text(value, "ff") {
        Some(MusicGlyph::DynamicFf)
    } else if same_text(value, "fff") {
        Some(MusicGlyph::DynamicFff)
    } else if same_text(value, "ffff") {
        Some(MusicGlyph::DynamicFfff)
    } else if same_text(value, "sfz") {
        Some(MusicGlyph::DynamicSforzato)
    } else if same_text(value, "fp") {
        Some(MusicGlyph::DynamicFortePiano)
    } else {
        None
    }
}

/// The rest glyph of a note value; every value shorter than a 64th uses the 128th rest.
pub open spec fn spec_rest_glyph(value: i16) -> MusicGlyph {
    match value {
        -4 => MusicGlyph::RestLonga,
        -2 => MusicGlyph::RestDoubleWhole,
        1 => MusicGlyph::RestWhole,
        2 => MusicGlyph::RestHalf,
        4 => MusicGlyph::RestQuarter,
        8 => MusicGlyph::Rest8th,
        16 => MusicGlyph::Rest16th,
        32 => MusicGlyph::Rest32nd,
        64 => MusicGlyph::Rest64th,
        _ => MusicGlyph::Rest128th,
    }
}

/// Selects the rest glyph for a note value.
pub fn rest_glyph(value: i16) -> (g: MusicGlyph)
    ensures
        g == spec_rest_glyph(value),
{
    match value {
        -4 => MusicGlyph::RestLonga,
        -2 => MusicGlyph::RestDoubleWhole,
        1 => MusicGlyph::RestWhole,
        2 => MusicGlyph::RestHalf,
        4 => MusicGlyph::RestQuarter,
        8 => MusicGlyph::Rest8th,
        16 => MusicGlyph::Rest16th,
        32 => MusicGlyph::Rest32nd,
        64 => MusicGlyph::Rest64th,
        _ => MusicGlyph::Rest128th,
    }
}

/// The accidental glyph of a written note, in quarter tones: `accidental`
/// semitones and `quarter_tone` more quarter tones. Without a quarter tone it
/// is the double flat, flat, natural or sharp of the accidental, and the
/// double sharp for anything above; with one, the alteration `2 * accidental
/// + quarter_tone` in quarter tones picks a three-quarter-tones flat (-3), a
/// quarter-tone flat (-1), a quarter-tone sharp (1) or a three-quarter-tones
/// sharp (3), and no other alteration has a glyph.
pub open spec fn spec_accidental_glyph(accidental: int, quarter_tone: int) -> Option<MusicGlyph> {
    if quarter_tone != 0 {
        let quarters = accidental * 2 + quarter_tone;
        if quarters == -3 {
            Some(MusicGlyph::AccidentalThreeQuarterTonesFlatZimmermann)
        } else if quarters == -1 {
            Some(MusicGlyph::AccidentalQuarterToneFlatStein)
        } else if quarters == 1 {
            Some(MusicGlyph::AccidentalQuarterToneSharpStein)
        } else if quarters == 3 {
            Some(MusicGlyph::AccidentalThreeQuarterTonesSharpStein)
        } else {
            None
        }
    } else if accidental == -2 {
        Some(MusicGlyph::AccidentalDoubleFlat)
    } else if accidental == -1 {
        Some(MusicGlyph::AccidentalFlat)
    } else if accidental == 0 {
        Some(MusicGlyph::AccidentalNatural)
    } else if accidental == 1 {
        Some(MusicGlyph::AccidentalSharp)
    } else {
        Some(MusicGlyph::AccidentalDoubleSharp)
    }
}

/// Selects the accidental glyph of a written note; see
/// [`spec_accidental_glyph`]. A quarter-tone alteration without a glyph is an
/// invalid-input error.
pub fn accidental_glyph(accidental: i8, quarter_tone: i8) -> (r: Result<MusicGlyph, RenderError>)
    requires
        quarter_tone != 0 ==> i8::MIN <= accidental * 2 <= i8::MAX,
        quarter_tone != 0 ==> i8::MIN <= accidental * 2 + quarter_tone <= i8::MAX,
    ensures
        r is Ok <==> spec_accidental_glyph(accidental as int, quarter_tone as int) is Some,
        r matches Ok(g) ==> Some(g) == spec_accidental_glyph(accidental as int, quarter_tone as int),
        r matches Err(e) ==> e.kind == ErrorKind::InvalidInput && e.message@
            == "quarter-tone spelling exceeds supported accidental range"@,
{
    if quarter_tone != 0 {
        let quarters: i8 = accidental * 2 + quarter_tone;
        match quarters {
            -3 => Ok(MusicGlyph::AccidentalThreeQuarterTonesFlatZimmermann),
            -1 => Ok(MusicGlyph::AccidentalQuarterToneFlatStein),
            1 => Ok(MusicGlyph::AccidentalQuarterToneSharpStein),
            3 => Ok(MusicGlyph::AccidentalThreeQuarterTonesSharpStein),
            _ => Err(
                RenderError::invalid_input(
                    String::from_str("quarter-tone spelling exceeds supported accidental range"),
                ),
            ),
        }
    } else {
        Ok(
            match accidental {
                -2 => MusicGlyph::AccidentalDoubleFlat,
                -1 => MusicGlyph::AccidentalFlat,
                0 => MusicGlyph::AccidentalNatural,
                1 => MusicGlyph::AccidentalSharp,
                _ => MusicGlyph::AccidentalDoubleSharp,
            },
        )
    }
}

/// The steps a key signature alters, in the order it writes them: F C G D A
/// E B for sharp keys (and the key of C), B E A D G C F for flat keys.
pub open spec fn key_order(sharps: bool) -> Seq<u8> {
    if sharps {
        seq![3u8, 0u8, 4u8, 1u8, 5u8, 2u8, 6u8]
    } else {
        seq![6u8, 2u8, 5u8, 1u8, 4u8, 0u8, 3u8]
    }
}

/// How many steps a key of `fifths` alters, at most seven.
pub open spec fn key_step_count(fifths: int) -> int {
    let count = if fifths < 0 {
        -fifths
    } else {
        fifths
    };
    if count > 7 {
        7
    } else {
        count
    }
}

/// The signs of a key of `fifths`, each step drawn with `glyph`, in order.
pub open spec fn key_marks(fifths: int, glyph: MusicGlyph) -> Seq<(u8, MusicGlyph)> {
    key_order(fifths >= 0).take(key_step_count(fifths)).map_values(|step: u8| (step, glyph))
}

/// The signs at the head of a staff measure: naturals cancelling each step
/// of the key `cancelled`, then the sharps or flats of `key`; a percussion
/// staff has none.
pub open spec fn spec_key_signature_marks(clef: Clef, cancelled: int, key: int) -> Seq<
    (u8, MusicGlyph),
> {
    if clef == Clef::Percussion {
        Seq::empty()
    } else {
        key_marks(cancelled, MusicGlyph::AccidentalNatural) + key_marks(
            key,
            if key > 0 {
                MusicGlyph::AccidentalSharp
            } else {
                MusicGlyph::AccidentalFlat
            },
        )
    }
}

fn push_key_marks(out: &mut Vec<(u8, MusicGlyph)>, fifths: i8, glyph: MusicGlyph)
    ensures
        final(out)@ == old(out)@ + key_marks(fifths as int, glyph),
{
    let order: [u8; 7] = if fifths >= 0 {
        [3, 0, 4, 1, 5, 2, 6]
    } else {
        [6, 2, 5, 1, 4, 0, 3]
    };
    assert(order@ == key_order(fifths >= 0));
    let count: usize = if fifths < -7 || fifths > 7 {
        7
    } else if fifths < 0 {
        (-fifths) as usize
    } else {
        fifths as usize
    };
    assert(count == key_step_count(fifths as int));
    let ghost start = out@;
    let ghost want = key_marks(fifths as int, glyph);
    let mut i: usize = 0;
    while i < count
        invariant
            count <= 7,
            order@ == key_order(fifths >= 0),
            count == key_step_count(fifths as int),
            want == key_marks(fifths as int, glyph),
            i <= count,
            out@ == start + want.take(i as int),
        decreases count - i,
    {
        out.push((order[i], glyph));
        i = i + 1;
        assert(want.take(i as int) =~= want.take(i - 1).push(want[i - 1]));
        assert(out@ =~= start + want.take(i as int));
    }
    assert(want.take(count as int) =~= want);
}

/// The signs at the head of a staff measure; see [`spec_key_signature_marks`].
/// `cancelled` is the previous measure's key where the key changes at this
/// measure, and 0 elsewhere.
pub fn key_signature_marks(clef: Clef, cancelled: i8, key: i8) -> (marks: Vec<(u8, MusicGlyph)>)
    ensures
        marks@ == spec_key_signature_marks(clef, cancelled as int, key as int),
{
    let mut marks: Vec<(u8, MusicGlyph)> = Vec::new();
    if clef == Clef::Percussion {
        return marks;
    }
    push_key_marks(&mut marks, cancelled, MusicGlyph::AccidentalNatural);
    let glyph = if key > 0 {
        MusicGlyph::AccidentalSharp
    } else {
        MusicGlyph::AccidentalFlat
    };
    push_key_marks(&mut marks, key, glyph);
    assert(marks@ =~= spec_key_signature_marks(clef, cancelled as int, key as int));
    marks
}

/// A key signature writes exactly the steps its key alters, each once, in the
/// key's own order: the `i`-th sign stands on the step at position `i` of the
/// order of sharps (for keys of no flats) or flats, every one of those steps
/// is altered by the key, and there are as many signs as the key alters
/// steps. The signs of the key itself are sharps exactly where the key's
/// accidental for the step is a sharp, and flats where it is a flat.
pub proof fn key_signatures_write_the_altered_steps(fifths: i8, glyph: MusicGlyph)
    ensures
        key_marks(fifths as int, glyph).len() == key_alteration_count(fifths as int),
        forall|i: int|
            0 <= i < key_marks(fifths as int, glyph).len() ==> {
                let step = (#[trigger] key_marks(fifths as int, glyph)[i]).0;
                &&& step < 7
                &&& key_order_position(fifths >= 0, step as int) == i
                &&& key_alters(fifths as int, step as int)
                &&& key_marks(fifths as int, glyph)[i].1 == glyph
            },
        forall|i: int, j: int|
            0 <= i < j < key_marks(fifths as int, glyph).len() ==> key_marks(fifths as int, glyph)[i].0
                != key_marks(fifths as int, glyph)[j].0,
        forall|step: int|
            #![trigger key_alters(fifths as int, step)]
            key_alters(fifths as int, step) ==> exists|i: int|
                0 <= i < key_marks(fifths as int, glyph).len() && key_marks(fifths as int, glyph)[i].0
                    == step,
        forall|i: int|
            0 <= i < key_marks(fifths as int, glyph).len() ==> spec_key_accidental(
                fifths as int,
                (#[trigger] key_marks(fifths as int, glyph)[i]).0 as int,
            ) == (if fifths > 0 {
                1int
            } else {
                -1int
            }),
{
    let marks = key_marks(fifths as int, glyph);
    let order = key_order(fifths >= 0);
    assert(key_step_count(fifths as int) == key_alteration_count(fifths as int));
    assert forall|i: int| 0 <= i < 7 implies key_order_position(fifths >= 0, (#[trigger] order[i]) as int)
        == i && order[i] < 7 by {
        if fifths >= 0 {
            assert(order == seq![3u8, 0u8, 4u8, 1u8, 5u8, 2u8, 6u8]);
        } else {
            assert(order == seq![6u8, 2u8, 5u8, 1u8, 4u8, 0u8, 3u8]);
        }
    }
    assert forall|i: int| 0 <= i < marks.len() implies marks[i].0 == order[i] by {}
    assert forall|step: int| #![trigger key_alters(fifths as int, step)]
        key_alters(fifths as int, step) implies exists|i: int|
            0 <= i < marks.len() && marks[i].0 == step by {
        let i = key_order_position(fifths >= 0, step);
        assert(0 <= i < 7);
        assert(key_order_position(fifths >= 0, order[i] as int) == i);
        if fifths >= 0 {
            assert(order == seq![3u8, 0u8, 4u8, 1u8, 5u8, 2u8, 6u8]);
        } else {
            assert(order == seq![6u8, 2u8, 5u8, 1u8, 4u8, 0u8, 3u8]);
        }
        assert(order[i] == step);
        assert(marks[i].0 == step);
    }
}

} // verus!
