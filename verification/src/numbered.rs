//! Numbered (jianpu) notation: scale degrees relative to the key's tonic,
//! octave dots, accidentals against the key, and the dashes or dots that
//! extend long notes.
use crate::notation::{key_accidental, signum, spec_key_accidental, Pitch};
use crate::track::{pow2, Duration};
use vstd::prelude::*;

verus! {

/// One written pitch in numbered notation.
#[derive(Clone, Copy, Debug, PartialEq, Eq, Structural)]
pub struct NumberedNote {
    /// Scale degree from 1 (the tonic) through 7.
    pub degree: u8,
    /// Octave relative to the tonic's home octave: dots above when positive,
    /// below when negative.
    pub octave: i16,
    /// Sharp (`1`) or flat (`-1`) against the key, or none (`0`).
    pub accidental: i8,
}

/// Diatonic height of a pitch: seven steps per octave.
pub open spec fn height(p: Pitch) -> int {
    p.octave as int * 7 + p.step as int
}

/// Tonic step of the major key with `key` fifths: four steps up per fifth.
pub open spec fn tonic_step(key: int) -> int {
    (key * 4) % 7
}

/// Steps above the tonic of octave four.
pub open spec fn relative_height(p: Pitch, key: int) -> int {
    height(p) - 28 - tonic_step(key)
}

/// The numbered form of a pitch in the key with `key` fifths.
pub open spec fn spec_numbered_note(p: Pitch, key: int) -> NumberedNote {
    let relative = relative_height(p, key);
    NumberedNote {
        degree: (relative % 7 + 1) as u8,
        octave: (relative / 7) as i16,
        accidental: signum(p.accidental - spec_key_accidental(key, p.step as int)) as i8,
    }
}

/// Writes a pitch in numbered notation in the key with `key` fifths.
pub fn numbered_note(p: Pitch, key: i8) -> (n: NumberedNote)
    ensures
        n == spec_numbered_note(p, key as int),
{
    let tonic: i16 = (key as i16 * 4) % 7;
    let tonic: i16 = if tonic < 0 {
        tonic + 7
    } else {
        tonic
    };
    let relative: i16 = p.octave as i16 * 7 + p.step as i16 - 28 - tonic;
    let mut degree: i16 = relative % 7;
    let mut octave: i16 = relative / 7;
    if degree < 0 {
        degree = degree + 7;
        octave = octave - 1;
    }
    let delta: i16 = p.accidental as i16 - key_accidental(key, p.step) as i16;
    let accidental: i8 = if delta > 0 {
        1
    } else if delta < 0 {
        -1
    } else {
        0
    };
    NumberedNote { degree: (degree + 1) as u8, octave, accidental }
}

/// `s` with `p` placed after every pitch no higher than it, so that equally
/// high pitches keep their order.
pub open spec fn insert_by_height(s: Seq<Pitch>, p: Pitch) -> Seq<Pitch>
    decreases s.len(),
{
    if s.len() == 0 {
        seq![p]
    } else if height(s.last()) <= height(p) {
        s.push(p)
    } else {
        insert_by_height(s.drop_last(), p).push(s.last())
    }
}

/// The pitches ordered from lowest to highest, equally high pitches in their
/// original order.
pub open spec fn sorted_by_height(s: Seq<Pitch>) -> Seq<Pitch>
    decreases s.len(),
{
    if s.len() == 0 {
        Seq::empty()
    } else {
        insert_by_height(sorted_by_height(s.drop_last()), s.last())
    }
}

fn insert_pitch(sorted: &mut Vec<Pitch>, p: Pitch)
    ensures
        final(sorted)@ == insert_by_height(old(sorted)@, p),
    decreases old(sorted)@.len(),
{
    let n = sorted.len();
    if n == 0 {
        sorted.push(p);
        return;
    }
    let last = sorted[n - 1];
    if last.octave as i16 * 7 + last.step as i16 <= p.octave as i16 * 7 + p.step as i16 {
        sorted.push(p);
    } else {
        let ghost before = sorted@;
        let popped = sorted.pop().unwrap();
        assert(sorted@ == before.drop_last());
        insert_pitch(sorted, p);
        sorted.push(popped);
    }
}

/// Orders pitches from lowest to highest, equally high pitches keeping their order.
pub fn sort_by_height(pitches: &Vec<Pitch>) -> (r: Vec<Pitch>)
    ensures
        r@ == sorted_by_height(pitches@),
{
    let mut sorted: Vec<Pitch> = Vec::new();
    let mut i: usize = 0;
    while i < pitches.len()
        invariant
            i <= pitches@.len(),
            sorted@ == sorted_by_height(pitches@.subrange(0, i as int)),
        decreases pitches.len() - i,
    {
        assert(pitches@.subrange(0, i + 1).drop_last() == pitches@.subrange(0, i as int));
        insert_pitch(&mut sorted, pitches[i]);
        i = i + 1;
    }
    assert(pitches@.subrange(0, pitches@.len() as int) == pitches@);
    sorted
}

/// How a numbered beat shows its length: a long note is followed by dashes
/// filling its quarters; a shorter one carries its augmentation dots.
#[derive(Clone, Copy, Debug, PartialEq, Eq, Structural)]
pub enum NumberedLength {
    /// The note lasts this many quarters (at least two); one dash follows per quarter after the first.
    Quarters(u32),
    /// Augmentation dots after the digit.
    Dots(u8),
}

/// Undotted length in quarter notes of a note value, as numerator over denominator.
pub open spec fn undotted_quarters(value: int) -> (int, int) {
    if value == -4 {
        (16, 1)
    } else if value == -2 {
        (8, 1)
    } else {
        (4, value)
    }
}

/// The length marks of a numbered beat: values of a half note or longer count
/// whole quarters of their dotted length, rounded down; shorter values keep
/// their dots.
pub open spec fn spec_numbered_length(d: Duration) -> NumberedLength {
    let (num, den) = undotted_quarters(d.value as int);
    if num >= 2 * den {
        let dotted_num = num * (pow2((d.dots + 1) as nat) - 1);
        let dotted_den = den * pow2(d.dots as nat);
        NumberedLength::Quarters((dotted_num / dotted_den) as u32)
    } else {
        NumberedLength::Dots(d.dots)
    }
}

/// The length marks of a numbered beat.
pub fn numbered_length(d: Duration) -> (r: NumberedLength)
    requires
        d.is_valid(),
    ensures
        r == spec_numbered_length(d),
{
    assert(pow2(1) == 2 && pow2(2) == 4 && pow2(3) == 8 && pow2(4) == 16) by {
        reveal_with_fuel(pow2, 5);
    }
    let (num, den): (u32, u32) = if d.value == -4 {
        (16, 1)
    } else if d.value == -2 {
        (8, 1)
    } else {
        (4, d.value as u32)
    };
    if num >= 2 * den {
        let (dot_num, dot_den): (u32, u32) = if d.dots == 0 {
            (1, 1)
        } else if d.dots == 1 {
            (3, 2)
        } else if d.dots == 2 {
            (7, 4)
        } else {
            (15, 8)
        };
        assert(num * dot_num <= 16 * 15) by (nonlinear_arith)
            requires
                num <= 16,
                dot_num <= 15,
        ;
        assert(den * dot_den <= 2 * 8) by (nonlinear_arith)
            requires
                den <= 2,
                dot_den <= 8,
        ;
        assert(den * dot_den > 0) by (nonlinear_arith)
            requires
                den > 0,
                dot_den > 0,
        ;
        NumberedLength::Quarters((num * dot_num) / (den * dot_den))
    } else {
        NumberedLength::Dots(d.dots)
    }
}

/// What a numbered beat shows.
#[derive(Clone, Debug)]
pub struct NumberedBeat {
    /// The beat's pitches from lowest to highest; empty for a rest, drawn as `0`.
    pub notes: Vec<NumberedNote>,
    /// Length marks after the beat.
    pub length: NumberedLength,
}

/// Writes a beat in numbered notation in the key with `key` fifths: its
/// pitches from lowest to highest, each as degree, octave and accidental,
/// and its length marks.
pub fn numbered_beat(pitches: &Vec<Pitch>, duration: Duration, key: i8) -> (r: NumberedBeat)
    requires
        duration.is_valid(),
    ensures
        r.notes@.len() == pitches@.len(),
        forall|i: int|
            0 <= i < r.notes@.len() ==> #[trigger] r.notes@[i] == spec_numbered_note(
                sorted_by_height(pitches@)[i],
                key as int,
            ),
        r.length == spec_numbered_length(duration),
{
    let sorted = sort_by_height(pitches);
    proof {
        lemma_sorted_len(pitches@);
    }
    let mut notes: Vec<NumberedNote> = Vec::new();
    let mut i: usize = 0;
    while i < sorted.len()
        invariant
            sorted@ == sorted_by_height(pitches@),
            sorted@.len() == pitches@.len(),
            i <= sorted@.len(),
            notes@.len() == i,
            forall|j: int|
                0 <= j < i ==> #[trigger] notes@[j] == spec_numbered_note(sorted@[j], key as int),
        decreases sorted.len() - i,
    {
        notes.push(numbered_note(sorted[i], key));
        i = i + 1;
    }
    NumberedBeat { notes, length: numbered_length(duration) }
}

proof fn lemma_insert_len(s: Seq<Pitch>, p: Pitch)
    ensures
        insert_by_height(s, p).len() == s.len() + 1,
    decreases s.len(),
{
    if s.len() > 0 && height(s.last()) > height(p) {
        lemma_insert_len(s.drop_last(), p);
    }
}

proof fn lemma_sorted_len(s: Seq<Pitch>)
    ensures
        sorted_by_height(s).len() == s.len(),
    decreases s.len(),
{
    if s.len() > 0 {
        lemma_sorted_len(s.drop_last());
        lemma_insert_len(sorted_by_height(s.drop_last()), s.last());
    }
}

/// Numbered notation loses no height: the degree is 1 through 7, the
/// accidental is a single sign, and the tonic's home position plus seven
/// steps per octave plus the degree gives back the pitch's diatonic height.
pub proof fn numbered_note_keeps_height(p: Pitch, key: i8)
    ensures
        1 <= spec_numbered_note(p, key as int).degree <= 7,
        -1 <= spec_numbered_note(p, key as int).accidental <= 1,
        28 + tonic_step(key as int) + 7 * spec_numbered_note(p, key as int).octave
            + spec_numbered_note(p, key as int).degree - 1 == height(p),
{
    let relative = relative_height(p, key as int);
    assert(0 <= relative % 7 < 7);
    assert(relative == 7 * (relative / 7) + relative % 7);
    assert(-200 <= relative / 7 <= 200);
}

/// The name of the tonic of the major key with `key` fifths, from C-flat
/// (seven flats) to C-sharp (seven sharps).
pub open spec fn tonic_name(key: int) -> Seq<char> {
    if key == -7 {
        "Cb"@
    } else if key == -6 {
        "Gb"@
    } else if key == -5 {
        "Db"@
    } else if key == -4 {
        "Ab"@
    } else if key == -3 {
        "Eb"@
    } else if key == -2 {
        "Bb"@
    } else if key == -1 {
        "F"@
    } else if key == 0 {
        "C"@
    } else if key == 1 {
        "G"@
    } else if key == 2 {
        "D"@
    } else if key == 3 {
        "A"@
    } else if key == 4 {
        "E"@
    } else if key == 5 {
        "B"@
    } else if key == 6 {
        "F#"@
    } else {
        "C#"@
    }
}

/// The key label of numbered notation, such as `1 = G`: scale degree 1 names
/// the tonic of the key with `key` fifths.
pub fn numbered_key_label(key: i8) -> (r: String)
    requires
        -7 <= key <= 7,
    ensures
        r@ == "1 = "@ + tonic_name(key as int),
{
    let tonic = match key {
        -7 => "Cb",
        -6 => "Gb",
        -5 => "Db",
        -4 => "Ab",
        -3 => "Eb",
        -2 => "Bb",
        -1 => "F",
        0 => "C",
        1 => "G",
        2 => "D",
        3 => "A",
        4 => "E",
        5 => "B",
        6 => "F#",
        _ => "C#",
    };
    let mut label = String::from_str("1 = ");
    label.append(tonic);
    label
}

} // verus!
