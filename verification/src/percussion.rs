//! Percussion staff positions and SMuFL noteheads of General MIDI percussion
//! articulations.
use crate::error::{ErrorKind, RenderError};
use crate::glyphs::MusicGlyph;
use crate::notation::Pitch;
use crate::text::{decimal, spec_decimal, string_from_chars};
use vstd::prelude::*;

verus! {

/// The written staff line and the quarter, half and whole noteheads of a
/// General MIDI percussion articulation, if it is supported.
pub open spec fn spec_articulation(id: int) -> Option<(int, MusicGlyph, MusicGlyph, MusicGlyph)> {
    if (38 <= id && id <= 40) {
        Some((3, MusicGlyph::NoteheadBlack, MusicGlyph::NoteheadHalf, MusicGlyph::NoteheadWhole))
    } else if id == 37 {
        Some((3, MusicGlyph::NoteheadXBlack, MusicGlyph::NoteheadXBlack, MusicGlyph::NoteheadXBlack))
    } else if id == 91 {
        Some((3, MusicGlyph::NoteheadDiamondWhite, MusicGlyph::NoteheadDiamondWhite, MusicGlyph::NoteheadDiamondWhite))
    } else if id == 42 {
        Some((-1, MusicGlyph::NoteheadXBlack, MusicGlyph::NoteheadXBlack, MusicGlyph::NoteheadXBlack))
    } else if id == 92 {
        Some((-1, MusicGlyph::NoteheadCircleSlash, MusicGlyph::NoteheadCircleSlash, MusicGlyph::NoteheadCircleSlash))
    } else if id == 46 {
        Some((-1, MusicGlyph::NoteheadCircleX, MusicGlyph::NoteheadCircleX, MusicGlyph::NoteheadCircleX))
    } else if id == 44 {
        Some((9, MusicGlyph::NoteheadXBlack, MusicGlyph::NoteheadXBlack, MusicGlyph::NoteheadXBlack))
    } else if id == 35 {
        Some((8, MusicGlyph::NoteheadBlack, MusicGlyph::NoteheadHalf, MusicGlyph::NoteheadWhole))
    } else if id == 36 {
        Some((7, MusicGlyph::NoteheadBlack, MusicGlyph::NoteheadHalf, MusicGlyph::NoteheadWhole))
    } else if id == 50 {
        Some((1, MusicGlyph::NoteheadBlack, MusicGlyph::NoteheadHalf, MusicGlyph::NoteheadWhole))
    } else if id == 48 {
        Some((2, MusicGlyph::NoteheadBlack, MusicGlyph::NoteheadHalf, MusicGlyph::NoteheadWhole))
    } else if id == 47 {
        Some((4, MusicGlyph::NoteheadBlack, MusicGlyph::NoteheadHalf, MusicGlyph::NoteheadWhole))
    } else if id == 45 || id == 41 {
        Some((5, MusicGlyph::NoteheadBlack, MusicGlyph::NoteheadHalf, MusicGlyph::NoteheadWhole))
    } else if id == 43 {
        Some((6, MusicGlyph::NoteheadBlack, MusicGlyph::NoteheadHalf, MusicGlyph::NoteheadWhole))
    } else if id == 93 || id == 51 || id == 94 {
        Some((0, MusicGlyph::NoteheadXBlack, MusicGlyph::NoteheadXBlack, MusicGlyph::NoteheadXBlack))
    } else if id == 53 {
        Some((0, MusicGlyph::NoteheadDiamondWhite, MusicGlyph::NoteheadDiamondWhite, MusicGlyph::NoteheadDiamondWhite))
    } else if id == 55 || id == 95 {
        Some((-2, MusicGlyph::NoteheadXBlack, MusicGlyph::NoteheadXBlack, MusicGlyph::NoteheadXBlack))
    } else if id == 52 || id == 96 {
        Some((-3, MusicGlyph::NoteheadHeavyXHat, MusicGlyph::NoteheadHeavyXHat, MusicGlyph::NoteheadHeavyXHat))
    } else if id == 49 || id == 97 {
        Some((-2, MusicGlyph::NoteheadHeavyX, MusicGlyph::NoteheadHeavyX, MusicGlyph::NoteheadHeavyX))
    } else if id == 57 || id == 98 {
        Some((-1, MusicGlyph::NoteheadHeavyX, MusicGlyph::NoteheadHeavyX, MusicGlyph::NoteheadHeavyX))
    } else if id == 99 {
        Some((1, MusicGlyph::NoteheadTriangleUpBlack, MusicGlyph::NoteheadTriangleUpHalf, MusicGlyph::NoteheadTriangleUpWhole))
    } else if id == 100 {
        Some((1, MusicGlyph::NoteheadXBlack, MusicGlyph::NoteheadXHalf, MusicGlyph::NoteheadXWhole))
    } else if id == 56 {
        Some((0, MusicGlyph::NoteheadTriangleUpBlack, MusicGlyph::NoteheadTriangleUpHalf, MusicGlyph::NoteheadTriangleUpWhole))
    } else if id == 101 {
        Some((0, MusicGlyph::NoteheadXBlack, MusicGlyph::NoteheadXHalf, MusicGlyph::NoteheadXWhole))
    } else if id == 102 {
        Some((-1, MusicGlyph::NoteheadTriangleUpBlack, MusicGlyph::NoteheadTriangleUpHalf, MusicGlyph::NoteheadTriangleUpWhole))
    } else if id == 103 {
        Some((-1, MusicGlyph::NoteheadXBlack, MusicGlyph::NoteheadXHalf, MusicGlyph::NoteheadXWhole))
    } else if id == 77 {
        Some((-9, MusicGlyph::NoteheadTriangleUpBlack, MusicGlyph::NoteheadTriangleUpBlack, MusicGlyph::NoteheadTriangleUpBlack))
    } else if id == 76 {
        Some((-10, MusicGlyph::NoteheadTriangleUpBlack, MusicGlyph::NoteheadTriangleUpBlack, MusicGlyph::NoteheadTriangleUpBlack))
    } else if id == 60 {
        Some((-4, MusicGlyph::NoteheadBlack, MusicGlyph::NoteheadHalf, MusicGlyph::NoteheadWhole))
    } else if id == 104 {
        Some((-5, MusicGlyph::NoteheadBlack, MusicGlyph::NoteheadHalf, MusicGlyph::NoteheadWhole))
    } else if id == 105 {
        Some((-6, MusicGlyph::NoteheadXBlack, MusicGlyph::NoteheadXBlack, MusicGlyph::NoteheadXBlack))
    } else if id == 61 {
        Some((-7, MusicGlyph::NoteheadBlack, MusicGlyph::NoteheadHalf, MusicGlyph::NoteheadWhole))
    } else if id == 106 {
        Some((-8, MusicGlyph::NoteheadBlack, MusicGlyph::NoteheadHalf, MusicGlyph::NoteheadWhole))
    } else if id == 107 {
        Some((-16, MusicGlyph::NoteheadXBlack, MusicGlyph::NoteheadXBlack, MusicGlyph::NoteheadXBlack))
    } else if id == 66 {
        Some((10, MusicGlyph::NoteheadBlack, MusicGlyph::NoteheadHalf, MusicGlyph::NoteheadWhole))
    } else if id == 65 {
        Some((9, MusicGlyph::NoteheadBlack, MusicGlyph::NoteheadHalf, MusicGlyph::NoteheadWhole))
    } else if id == 68 {
        Some((12, MusicGlyph::NoteheadBlack, MusicGlyph::NoteheadHalf, MusicGlyph::NoteheadWhole))
    } else if id == 67 {
        Some((11, MusicGlyph::NoteheadBlack, MusicGlyph::NoteheadHalf, MusicGlyph::NoteheadWhole))
    } else if id == 64 {
        Some((17, MusicGlyph::NoteheadBlack, MusicGlyph::NoteheadHalf, MusicGlyph::NoteheadWhole))
    } else if id == 108 {
        Some((16, MusicGlyph::NoteheadXBlack, MusicGlyph::NoteheadXBlack, MusicGlyph::NoteheadXBlack))
    } else if id == 109 {
        Some((15, MusicGlyph::NoteheadBlack, MusicGlyph::NoteheadHalf, MusicGlyph::NoteheadWhole))
    } else if id == 63 {
        Some((14, MusicGlyph::NoteheadBlack, MusicGlyph::NoteheadHalf, MusicGlyph::NoteheadWhole))
    } else if id == 110 {
        Some((13, MusicGlyph::NoteheadXBlack, MusicGlyph::NoteheadXBlack, MusicGlyph::NoteheadXBlack))
    } else if id == 62 {
        Some((19, MusicGlyph::NoteheadBlack, MusicGlyph::NoteheadHalf, MusicGlyph::NoteheadWhole))
    } else if id == 72 {
        Some((-11, MusicGlyph::NoteheadBlack, MusicGlyph::NoteheadHalf, MusicGlyph::NoteheadWhole))
    } else if id == 71 {
        Some((-17, MusicGlyph::NoteheadBlack, MusicGlyph::NoteheadHalf, MusicGlyph::NoteheadWhole))
    } else if id == 73 {
        Some((38, MusicGlyph::NoteheadBlack, MusicGlyph::NoteheadHalf, MusicGlyph::NoteheadWhole))
    } else if id == 74 {
        Some((37, MusicGlyph::NoteheadBlack, MusicGlyph::NoteheadHalf, MusicGlyph::NoteheadWhole))
    } else if id == 86 {
        Some((36, MusicGlyph::NoteheadBlack, MusicGlyph::NoteheadHalf, MusicGlyph::NoteheadWhole))
    } else if id == 87 {
        Some((35, MusicGlyph::NoteheadXBlack, MusicGlyph::NoteheadXBlack, MusicGlyph::NoteheadXBlack))
    } else if id == 54 {
        Some((3, MusicGlyph::NoteheadTriangleUpBlack, MusicGlyph::NoteheadTriangleUpBlack, MusicGlyph::NoteheadTriangleUpBlack))
    } else if id == 111 {
        Some((2, MusicGlyph::NoteheadTriangleUpBlack, MusicGlyph::NoteheadTriangleUpBlack, MusicGlyph::NoteheadTriangleUpBlack))
    } else if id == 112 {
        Some((1, MusicGlyph::NoteheadTriangleUpBlack, MusicGlyph::NoteheadTriangleUpBlack, MusicGlyph::NoteheadTriangleUpBlack))
    } else if id == 113 {
        Some((-7, MusicGlyph::NoteheadXBlack, MusicGlyph::NoteheadXBlack, MusicGlyph::NoteheadXBlack))
    } else if id == 79 {
        Some((30, MusicGlyph::NoteheadBlack, MusicGlyph::NoteheadHalf, MusicGlyph::NoteheadWhole))
    } else if id == 78 {
        Some((29, MusicGlyph::NoteheadXBlack, MusicGlyph::NoteheadXBlack, MusicGlyph::NoteheadXBlack))
    } else if id == 58 {
        Some((28, MusicGlyph::NoteheadBlack, MusicGlyph::NoteheadHalf, MusicGlyph::NoteheadWhole))
    } else if id == 81 {
        Some((27, MusicGlyph::NoteheadBlack, MusicGlyph::NoteheadHalf, MusicGlyph::NoteheadWhole))
    } else if id == 80 {
        Some((26, MusicGlyph::NoteheadXBlack, MusicGlyph::NoteheadXBlack, MusicGlyph::NoteheadXBlack))
    } else if id == 114 {
        Some((25, MusicGlyph::NoteheadBlack, MusicGlyph::NoteheadHalf, MusicGlyph::NoteheadWhole))
    } else if id == 115 {
        Some((18, MusicGlyph::NoteheadBlack, MusicGlyph::NoteheadHalf, MusicGlyph::NoteheadWhole))
    } else if id == 116 {
        Some((24, MusicGlyph::NoteheadXBlack, MusicGlyph::NoteheadXBlack, MusicGlyph::NoteheadXBlack))
    } else if id == 69 {
        Some((23, MusicGlyph::NoteheadBlack, MusicGlyph::NoteheadHalf, MusicGlyph::NoteheadWhole))
    } else if id == 117 {
        Some((22, MusicGlyph::NoteheadBlack, MusicGlyph::NoteheadHalf, MusicGlyph::NoteheadWhole))
    } else if id == 85 {
        Some((21, MusicGlyph::NoteheadBlack, MusicGlyph::NoteheadHalf, MusicGlyph::NoteheadWhole))
    } else if id == 75 {
        Some((20, MusicGlyph::NoteheadBlack, MusicGlyph::NoteheadHalf, MusicGlyph::NoteheadWhole))
    } else if id == 70 {
        Some((-12, MusicGlyph::NoteheadBlack, MusicGlyph::NoteheadHalf, MusicGlyph::NoteheadWhole))
    } else if id == 118 {
        Some((-13, MusicGlyph::NoteheadBlack, MusicGlyph::NoteheadHalf, MusicGlyph::NoteheadWhole))
    } else if id == 119 {
        Some((-14, MusicGlyph::NoteheadBlack, MusicGlyph::NoteheadHalf, MusicGlyph::NoteheadWhole))
    } else if id == 120 {
        Some((-15, MusicGlyph::NoteheadBlack, MusicGlyph::NoteheadHalf, MusicGlyph::NoteheadWhole))
    } else if id == 82 {
        Some((-23, MusicGlyph::NoteheadBlack, MusicGlyph::NoteheadHalf, MusicGlyph::NoteheadWhole))
    } else if id == 122 {
        Some((-24, MusicGlyph::NoteheadBlack, MusicGlyph::NoteheadHalf, MusicGlyph::NoteheadWhole))
    } else if id == 84 {
        Some((-18, MusicGlyph::NoteheadBlack, MusicGlyph::NoteheadHalf, MusicGlyph::NoteheadWhole))
    } else if id == 123 {
        Some((-19, MusicGlyph::NoteheadBlack, MusicGlyph::NoteheadHalf, MusicGlyph::NoteheadWhole))
    } else if id == 83 {
        Some((-20, MusicGlyph::NoteheadBlack, MusicGlyph::NoteheadHalf, MusicGlyph::NoteheadWhole))
    } else if id == 124 {
        Some((-21, MusicGlyph::NoteheadNull, MusicGlyph::NoteheadNull, MusicGlyph::NoteheadNull))
    } else if id == 125 {
        Some((-22, MusicGlyph::NoteheadNull, MusicGlyph::NoteheadNull, MusicGlyph::NoteheadNull))
    } else if id == 31 {
        Some((3, MusicGlyph::NoteheadSlashedBlack2, MusicGlyph::NoteheadSlashedBlack2, MusicGlyph::NoteheadSlashedBlack2))
    } else if id == 59 || id == 126 || id == 29 {
        Some((2, MusicGlyph::NoteheadXBlack, MusicGlyph::NoteheadXBlack, MusicGlyph::NoteheadXBlack))
    } else if id == 127 {
        Some((2, MusicGlyph::NoteheadDiamondWhite, MusicGlyph::NoteheadDiamondWhite, MusicGlyph::NoteheadDiamondWhite))
    } else if id == 30 {
        Some((-3, MusicGlyph::NoteheadXBlack, MusicGlyph::NoteheadXBlack, MusicGlyph::NoteheadXBlack))
    } else if id == 33 {
        Some((3, MusicGlyph::NoteheadXBlack, MusicGlyph::NoteheadXBlack, MusicGlyph::NoteheadXBlack))
    } else if id == 34 {
        Some((3, MusicGlyph::NoteheadBlack, MusicGlyph::NoteheadBlack, MusicGlyph::NoteheadBlack))
    } else {
        None
    }
}

/// The written pitch of a percussion staff line: line `0` is the top line of
/// the treble staff (F5) and each further line moves one diatonic step down.
pub open spec fn percussion_pitch(line: int) -> Pitch {
    let step = 38 - line;
    Pitch { step: (step % 7) as u8, octave: (step / 7) as i8, accidental: 0 }
}

/// Looks up the written line and noteheads of an articulation.
fn articulation(id: u16) -> (r: Option<(i16, [MusicGlyph; 3])>)
    ensures
        match spec_articulation(id as int) {
            Some((line, quarter, half, whole)) => r matches Some((l, heads)) && l as int == line
                && heads@ == seq![quarter, half, whole],
            None => r is None,
        },
{
    let (line, heads): (i16, [MusicGlyph; 3]) = match id {
        38..=40 => (3, [MusicGlyph::NoteheadBlack, MusicGlyph::NoteheadHalf, MusicGlyph::NoteheadWhole]),
        37 => (3, [MusicGlyph::NoteheadXBlack, MusicGlyph::NoteheadXBlack, MusicGlyph::NoteheadXBlack]),
        91 => (3, [MusicGlyph::NoteheadDiamondWhite, MusicGlyph::NoteheadDiamondWhite, MusicGlyph::NoteheadDiamondWhite]),
        42 => (-1, [MusicGlyph::NoteheadXBlack, MusicGlyph::NoteheadXBlack, MusicGlyph::NoteheadXBlack]),
        92 => (-1, [MusicGlyph::NoteheadCircleSlash, MusicGlyph::NoteheadCircleSlash, MusicGlyph::NoteheadCircleSlash]),
        46 => (-1, [MusicGlyph::NoteheadCircleX, MusicGlyph::NoteheadCircleX, MusicGlyph::NoteheadCircleX]),
        44 => (9, [MusicGlyph::NoteheadXBlack, MusicGlyph::NoteheadXBlack, MusicGlyph::NoteheadXBlack]),
        35 => (8, [MusicGlyph::NoteheadBlack, MusicGlyph::NoteheadHalf, MusicGlyph::NoteheadWhole]),
        36 => (7, [MusicGlyph::NoteheadBlack, MusicGlyph::NoteheadHalf, MusicGlyph::NoteheadWhole]),
        50 => (1, [MusicGlyph::NoteheadBlack, MusicGlyph::NoteheadHalf, MusicGlyph::NoteheadWhole]),
        48 => (2, [MusicGlyph::NoteheadBlack, MusicGlyph::NoteheadHalf, MusicGlyph::NoteheadWhole]),
        47 => (4, [MusicGlyph::NoteheadBlack, MusicGlyph::NoteheadHalf, MusicGlyph::NoteheadWhole]),
        45 | 41 => (5, [MusicGlyph::NoteheadBlack, MusicGlyph::NoteheadHalf, MusicGlyph::NoteheadWhole]),
        43 => (6, [MusicGlyph::NoteheadBlack, MusicGlyph::NoteheadHalf, MusicGlyph::NoteheadWhole]),
        93 | 51 | 94 => (0, [MusicGlyph::NoteheadXBlack, MusicGlyph::NoteheadXBlack, MusicGlyph::NoteheadXBlack]),
        53 => (0, [MusicGlyph::NoteheadDiamondWhite, MusicGlyph::NoteheadDiamondWhite, MusicGlyph::NoteheadDiamondWhite]),
        55 | 95 => (-2, [MusicGlyph::NoteheadXBlack, MusicGlyph::NoteheadXBlack, MusicGlyph::NoteheadXBlack]),
        52 | 96 => (-3, [MusicGlyph::NoteheadHeavyXHat, MusicGlyph::NoteheadHeavyXHat, MusicGlyph::NoteheadHeavyXHat]),
        49 | 97 => (-2, [MusicGlyph::NoteheadHeavyX, MusicGlyph::NoteheadHeavyX, MusicGlyph::NoteheadHeavyX]),
        57 | 98 => (-1, [MusicGlyph::NoteheadHeavyX, MusicGlyph::NoteheadHeavyX, MusicGlyph::NoteheadHeavyX]),
        99 => (1, [MusicGlyph::NoteheadTriangleUpBlack, MusicGlyph::NoteheadTriangleUpHalf, MusicGlyph::NoteheadTriangleUpWhole]),
        100 => (1, [MusicGlyph::NoteheadXBlack, MusicGlyph::NoteheadXHalf, MusicGlyph::NoteheadXWhole]),
        56 => (0, [MusicGlyph::NoteheadTriangleUpBlack, MusicGlyph::NoteheadTriangleUpHalf, MusicGlyph::NoteheadTriangleUpWhole]),
        101 => (0, [MusicGlyph::NoteheadXBlack, MusicGlyph::NoteheadXHalf, MusicGlyph::NoteheadXWhole]),
        102 => (-1, [MusicGlyph::NoteheadTriangleUpBlack, MusicGlyph::NoteheadTriangleUpHalf, MusicGlyph::NoteheadTriangleUpWhole]),
        103 => (-1, [MusicGlyph::NoteheadXBlack, MusicGlyph::NoteheadXHalf, MusicGlyph::NoteheadXWhole]),
        77 => (-9, [MusicGlyph::NoteheadTriangleUpBlack, MusicGlyph::NoteheadTriangleUpBlack, MusicGlyph::NoteheadTriangleUpBlack]),
        76 => (-10, [MusicGlyph::NoteheadTriangleUpBlack, MusicGlyph::NoteheadTriangleUpBlack, MusicGlyph::NoteheadTriangleUpBlack]),
        60 => (-4, [MusicGlyph::NoteheadBlack, MusicGlyph::NoteheadHalf, MusicGlyph::NoteheadWhole]),
        104 => (-5, [MusicGlyph::NoteheadBlack, MusicGlyph::NoteheadHalf, MusicGlyph::NoteheadWhole]),
        105 => (-6, [MusicGlyph::NoteheadXBlack, MusicGlyph::NoteheadXBlack, MusicGlyph::NoteheadXBlack]),
        61 => (-7, [MusicGlyph::NoteheadBlack, MusicGlyph::NoteheadHalf, MusicGlyph::NoteheadWhole]),
        106 => (-8, [MusicGlyph::NoteheadBlack, MusicGlyph::NoteheadHalf, MusicGlyph::NoteheadWhole]),
        107 => (-16, [MusicGlyph::NoteheadXBlack, MusicGlyph::NoteheadXBlack, MusicGlyph::NoteheadXBlack]),
        66 => (10, [MusicGlyph::NoteheadBlack, MusicGlyph::NoteheadHalf, MusicGlyph::NoteheadWhole]),
        65 => (9, [MusicGlyph::NoteheadBlack, MusicGlyph::NoteheadHalf, MusicGlyph::NoteheadWhole]),
        68 => (12, [MusicGlyph::NoteheadBlack, MusicGlyph::NoteheadHalf, MusicGlyph::NoteheadWhole]),
        67 => (11, [MusicGlyph::NoteheadBlack, MusicGlyph::NoteheadHalf, MusicGlyph::NoteheadWhole]),
        64 => (17, [MusicGlyph::NoteheadBlack, MusicGlyph::NoteheadHalf, MusicGlyph::NoteheadWhole]),
        108 => (16, [MusicGlyph::NoteheadXBlack, MusicGlyph::NoteheadXBlack, MusicGlyph::NoteheadXBlack]),
        109 => (15, [MusicGlyph::NoteheadBlack, MusicGlyph::NoteheadHalf, MusicGlyph::NoteheadWhole]),
        63 => (14, [MusicGlyph::NoteheadBlack, MusicGlyph::NoteheadHalf, MusicGlyph::NoteheadWhole]),
        110 => (13, [MusicGlyph::NoteheadXBlack, MusicGlyph::NoteheadXBlack, MusicGlyph::NoteheadXBlack]),
        62 => (19, [MusicGlyph::NoteheadBlack, MusicGlyph::NoteheadHalf, MusicGlyph::NoteheadWhole]),
        72 => (-11, [MusicGlyph::NoteheadBlack, MusicGlyph::NoteheadHalf, MusicGlyph::NoteheadWhole]),
        71 => (-17, [MusicGlyph::NoteheadBlack, MusicGlyph::NoteheadHalf, MusicGlyph::NoteheadWhole]),
        73 => (38, [MusicGlyph::NoteheadBlack, MusicGlyph::NoteheadHalf, MusicGlyph::NoteheadWhole]),
        74 => (37, [MusicGlyph::NoteheadBlack, MusicGlyph::NoteheadHalf, MusicGlyph::NoteheadWhole]),
        86 => (36, [MusicGlyph::NoteheadBlack, MusicGlyph::NoteheadHalf, MusicGlyph::NoteheadWhole]),
        87 => (35, [MusicGlyph::NoteheadXBlack, MusicGlyph::NoteheadXBlack, MusicGlyph::NoteheadXBlack]),
        54 => (3, [MusicGlyph::NoteheadTriangleUpBlack, MusicGlyph::NoteheadTriangleUpBlack, MusicGlyph::NoteheadTriangleUpBlack]),
        111 => (2, [MusicGlyph::NoteheadTriangleUpBlack, MusicGlyph::NoteheadTriangleUpBlack, MusicGlyph::NoteheadTriangleUpBlack]),
        112 => (1, [MusicGlyph::NoteheadTriangleUpBlack, MusicGlyph::NoteheadTriangleUpBlack, MusicGlyph::NoteheadTriangleUpBlack]),
        113 => (-7, [MusicGlyph::NoteheadXBlack, MusicGlyph::NoteheadXBlack, MusicGlyph::NoteheadXBlack]),
        79 => (30, [MusicGlyph::NoteheadBlack, MusicGlyph::NoteheadHalf, MusicGlyph::NoteheadWhole]),
        78 => (29, [MusicGlyph::NoteheadXBlack, MusicGlyph::NoteheadXBlack, MusicGlyph::NoteheadXBlack]),
        58 => (28, [MusicGlyph::NoteheadBlack, MusicGlyph::NoteheadHalf, MusicGlyph::NoteheadWhole]),
        81 => (27, [MusicGlyph::NoteheadBlack, MusicGlyph::NoteheadHalf, MusicGlyph::NoteheadWhole]),
        80 => (26, [MusicGlyph::NoteheadXBlack, MusicGlyph::NoteheadXBlack, MusicGlyph::NoteheadXBlack]),
        114 => (25, [MusicGlyph::NoteheadBlack, MusicGlyph::NoteheadHalf, MusicGlyph::NoteheadWhole]),
        115 => (18, [MusicGlyph::NoteheadBlack, MusicGlyph::NoteheadHalf, MusicGlyph::NoteheadWhole]),
        116 => (24, [MusicGlyph::NoteheadXBlack, MusicGlyph::NoteheadXBlack, MusicGlyph::NoteheadXBlack]),
        69 => (23, [MusicGlyph::NoteheadBlack, MusicGlyph::NoteheadHalf, MusicGlyph::NoteheadWhole]),
        117 => (22, [MusicGlyph::NoteheadBlack, MusicGlyph::NoteheadHalf, MusicGlyph::NoteheadWhole]),
        85 => (21, [MusicGlyph::NoteheadBlack, MusicGlyph::NoteheadHalf, MusicGlyph::NoteheadWhole]),
        75 => (20, [MusicGlyph::NoteheadBlack, MusicGlyph::NoteheadHalf, MusicGlyph::NoteheadWhole]),
        70 => (-12, [MusicGlyph::NoteheadBlack, MusicGlyph::NoteheadHalf, MusicGlyph::NoteheadWhole]),
        118 => (-13, [MusicGlyph::NoteheadBlack, MusicGlyph::NoteheadHalf, MusicGlyph::NoteheadWhole]),
        119 => (-14, [MusicGlyph::NoteheadBlack, MusicGlyph::NoteheadHalf, MusicGlyph::NoteheadWhole]),
        120 => (-15, [MusicGlyph::NoteheadBlack, MusicGlyph::NoteheadHalf, MusicGlyph::NoteheadWhole]),
        82 => (-23, [MusicGlyph::NoteheadBlack, MusicGlyph::NoteheadHalf, MusicGlyph::NoteheadWhole]),
        122 => (-24, [MusicGlyph::NoteheadBlack, MusicGlyph::NoteheadHalf, MusicGlyph::NoteheadWhole]),
        84 => (-18, [MusicGlyph::NoteheadBlack, MusicGlyph::NoteheadHalf, MusicGlyph::NoteheadWhole]),
        123 => (-19, [MusicGlyph::NoteheadBlack, MusicGlyph::NoteheadHalf, MusicGlyph::NoteheadWhole]),
        83 => (-20, [MusicGlyph::NoteheadBlack, MusicGlyph::NoteheadHalf, MusicGlyph::NoteheadWhole]),
        124 => (-21, [MusicGlyph::NoteheadNull, MusicGlyph::NoteheadNull, MusicGlyph::NoteheadNull]),
        125 => (-22, [MusicGlyph::NoteheadNull, MusicGlyph::NoteheadNull, MusicGlyph::NoteheadNull]),
        31 => (3, [MusicGlyph::NoteheadSlashedBlack2, MusicGlyph::NoteheadSlashedBlack2, MusicGlyph::NoteheadSlashedBlack2]),
        59 | 126 | 29 => (2, [MusicGlyph::NoteheadXBlack, MusicGlyph::NoteheadXBlack, MusicGlyph::NoteheadXBlack]),
        127 => (2, [MusicGlyph::NoteheadDiamondWhite, MusicGlyph::NoteheadDiamondWhite, MusicGlyph::NoteheadDiamondWhite]),
        30 => (-3, [MusicGlyph::NoteheadXBlack, MusicGlyph::NoteheadXBlack, MusicGlyph::NoteheadXBlack]),
        33 => (3, [MusicGlyph::NoteheadXBlack, MusicGlyph::NoteheadXBlack, MusicGlyph::NoteheadXBlack]),
        34 => (3, [MusicGlyph::NoteheadBlack, MusicGlyph::NoteheadBlack, MusicGlyph::NoteheadBlack]),
        _ => return None,
    };
    Some((line, heads))
}

/// Resolves a General MIDI percussion id to a written pitch and named SMuFL
/// noteheads for quarter, half, and whole durations.
pub fn resolve(id: u16) -> (r: Result<(Pitch, [MusicGlyph; 3]), RenderError>)
    ensures
        match spec_articulation(id as int) {
            Some((line, quarter, half, whole)) => r matches Ok((pitch, heads)) && pitch
                == percussion_pitch(line) && heads@ == seq![quarter, half, whole],
            None => r matches Err(e) && e.kind == ErrorKind::InvalidInput && e.message@
                == "unsupported percussion articulation "@ + spec_decimal(id as nat),
        },
{
    match articulation(id) {
        Some((line, heads)) => {
            let step: i16 = 38 - line;
            let pitch = Pitch { step: (step % 7) as u8, octave: (step / 7) as i8, accidental: 0 };
            Ok((pitch, heads))
        },
        None => {
            let mut message = String::from_str("unsupported percussion articulation ");
            let digits = string_from_chars(&decimal(id as u64));
            message.append(digits.as_str());
            Err(RenderError::invalid_input(message))
        },
    }
}

} // verus!
