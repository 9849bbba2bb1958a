//! Conversion rules from the Guitar Pro file model to this crate's score model.
//!
//! The Guitar Pro reader produces its own data types; the drawing layer copies
//! the values these rules read into the plain records below. Legacy Guitar Pro
//! measures beat onsets in 960 ticks per quarter note from a per-measure
//! origin at tick 960.
use crate::error::{ErrorKind, RenderError};
use crate::text::{push_all, signed_decimal, spec_signed_decimal, string_from_chars};
use crate::spans::checks::{first_some, lemma_first_some_stable};
use crate::track::{Duration, Fret, Note};
use vstd::prelude::*;

verus! {

/// A Guitar Pro duration: note value, dot flags and tuplet ratio.
#[derive(Clone, Copy, Debug, PartialEq, Eq, Structural)]
pub struct SourceDuration {
    /// Whole-note denominator, such as `4` for a quarter note.
    pub value: u16,
    /// Single augmentation dot.
    pub dotted: bool,
    /// Double augmentation dot.
    pub double_dotted: bool,
    /// Notes played in the tuplet.
    pub tuplet_enters: u8,
    /// Notes whose time the tuplet takes.
    pub tuplet_times: u8,
}

/// Converts Guitar Pro's duration flags and tuplet pair to a native duration.
///
/// Guitar Pro writes a normal duration's tuplet as `(1, 1)`; that becomes
/// `None`, while an actual triplet remains `Some((3, 2))`.
pub fn convert_duration(source: SourceDuration) -> (r: Result<Duration, RenderError>)
    ensures
        r is Ok <==> source.value <= 32767,
        r matches Ok(d) ==> d.value as int == source.value as int && d.dots == (if source.double_dotted {
            2u8
        } else if source.dotted {
            1u8
        } else {
            0u8
        }) && d.tuplet == (if source.tuplet_enters == 1 && source.tuplet_times == 1 {
            None
        } else {
            Some((source.tuplet_enters, source.tuplet_times))
        }),
        r matches Err(e) ==> e.kind == ErrorKind::InvalidInput && e.message@ == "invalid duration"@,
{
    if source.value > 32767 {
        return Err(RenderError::invalid_input(String::from_str("invalid duration")));
    }
    let dots: u8 = if source.double_dotted {
        2
    } else if source.dotted {
        1
    } else {
        0
    };
    let tuplet = if source.tuplet_enters != 1 || source.tuplet_times != 1 {
        Some((source.tuplet_enters, source.tuplet_times))
    } else {
        None
    };
    Ok(Duration { value: source.value as i16, dots, tuplet })
}

/// Repeat pass count shown for a Guitar Pro close-repeat value. Files before
/// version 6 count additional passes, so one is added; negative values mean
/// no repeat.
pub fn repeat_count(source: i8, major_version: u8) -> (r: Option<u8>)
    ensures
        source < 0 ==> r is None,
        source >= 0 ==> r == Some((source + if major_version < 6 {
            1int
        } else {
            0int
        }) as u8),
{
    if source < 0 {
        None
    } else {
        let extra: u8 = if major_version < 6 {
            1
        } else {
            0
        };
        Some(source as u8 + extra)
    }
}

/// Sum of the beam-group lengths of a meter.
pub open spec fn beams_sum(beams: Seq<u8>) -> int
    decreases beams.len(),
{
    if beams.len() == 0 {
        0
    } else {
        beams_sum(beams.drop_last()) + beams.last() as int
    }
}

/// The positive entries of `beams`, in order.
pub open spec fn positive_beams(beams: Seq<u8>) -> Seq<u8>
    decreases beams.len(),
{
    if beams.len() == 0 {
        Seq::empty()
    } else {
        let rest = positive_beams(beams.drop_last());
        if beams.last() > 0 {
            rest.push(beams.last())
        } else {
            rest
        }
    }
}

/// Beam groups from a Guitar Pro meter. Only version 5 files store meaningful
/// groups, counted in eighth notes; they are used when they fill the meter
/// exactly, and empty groups are dropped.
pub fn beam_groups(numerator: i8, denominator: u16, beams: &Vec<u8>, major_version: u8) -> (r:
    Result<Vec<u8>, RenderError>)
    ensures
        r is Ok <==> numerator >= 0,
        r matches Ok(groups) ==> (if major_version == 5 && beams_sum(beams@) * denominator
            == numerator * 8 {
            groups@ == positive_beams(beams@)
        } else {
            groups@.len() == 0
        }),
        r matches Err(e) ==> e.kind == ErrorKind::InvalidInput && e.message@ == "negative meter"@,
{
    if numerator < 0 {
        return Err(RenderError::invalid_input(String::from_str("negative meter")));
    }
    let target: u64 = numerator as u64 * 8;
    let mut sum: u64 = 0;
    let mut exceeded = false;
    let mut filtered: Vec<u8> = Vec::new();
    let mut i: usize = 0;
    while i < beams.len()
        invariant
            i <= beams@.len(),
            target == numerator * 8,
            target <= 1016,
            !exceeded ==> sum as int == beams_sum(beams@.subrange(0, i as int)),
            !exceeded ==> sum <= target,
            exceeded ==> beams_sum(beams@.subrange(0, i as int)) > target,
            filtered@ == positive_beams(beams@.subrange(0, i as int)),
        decreases beams.len() - i,
    {
        let b = beams[i];
        assert(beams@.subrange(0, i + 1).drop_last() == beams@.subrange(0, i as int));
        if !exceeded {
            sum = sum + b as u64;
            if sum > target {
                exceeded = true;
            }
        }
        if b > 0 {
            filtered.push(b);
        }
        i = i + 1;
    }
    assert(beams@.subrange(0, beams@.len() as int) == beams@);
    let complete = if exceeded || denominator == 0 {
        proof {
            if exceeded && denominator > 0 {
                assert(beams_sum(beams@) * denominator > target) by (nonlinear_arith)
                    requires
                        beams_sum(beams@) > target,
                        denominator >= 1,
                ;
            }
        }
        denominator == 0 && target == 0
    } else {
        assert(sum * denominator <= 1016 * 65535) by (nonlinear_arith)
            requires
                sum <= 1016,
                denominator <= 65535,
        ;
        sum * denominator as u64 == target
    };
    assert(complete == (beams_sum(beams@) * denominator == numerator * 8)) by {
        if !exceeded && denominator > 0 {
            assert(sum as int == beams_sum(beams@));
        }
        if denominator == 0 {
            assert(beams_sum(beams@) * denominator == 0) by (nonlinear_arith)
                requires
                    denominator == 0,
            ;
        }
    }
    if major_version == 5 && complete {
        Ok(filtered)
    } else {
        Ok(Vec::new())
    }
}

/// Converts a Guitar Pro fret value, rejecting negative frets.
pub fn convert_fret(value: i16) -> (r: Result<u16, RenderError>)
    ensures
        r is Ok <==> value >= 0,
        r matches Ok(f) ==> f as int == value as int,
        r matches Err(e) ==> e.kind == ErrorKind::InvalidInput && e.message@ == "negative fret "@
            + spec_signed_decimal(value as int),
{
    if value < 0 {
        let mut message = String::from_str("negative fret ");
        let digits = string_from_chars(&signed_decimal(value as i64));
        message.append(digits.as_str());
        Err(RenderError::invalid_input(message))
    } else {
        Ok(value as u16)
    }
}

/// A Guitar Pro left- or right-hand finger.
#[derive(Clone, Copy, Debug, PartialEq, Eq, Structural)]
pub enum Fingering {
    /// Open or muted.
    Open,
    /// Thumb.
    Thumb,
    /// Index finger.
    Index,
    /// Middle finger.
    Middle,
    /// Annular finger.
    Annular,
    /// Little finger.
    Little,
    /// A value the format does not define.
    Unknown(i8),
}

/// The label of a finger: `p i m a c` for the right hand, `T 1 2 3 4` for the left.
pub open spec fn spec_finger_label(f: Fingering, right: bool) -> Option<Seq<char>> {
    match f {
        Fingering::Thumb => Some(if right { seq!['p'] } else { seq!['T'] }),
        Fingering::Index => Some(if right { seq!['i'] } else { seq!['1'] }),
        Fingering::Middle => Some(if right { seq!['m'] } else { seq!['2'] }),
        Fingering::Annular => Some(if right { seq!['a'] } else { seq!['3'] }),
        Fingering::Little => Some(if right { seq!['c'] } else { seq!['4'] }),
        _ => None,
    }
}

/// Converts a finger to its label. An unknown value yields no label and adds
/// the warning `Unknown fingering value: <value>`.
pub fn fingering(finger: Fingering, right: bool, warnings: &mut Vec<String>) -> (r: Option<String>)
    ensures
        r matches Some(s) ==> spec_finger_label(finger, right) == Some(s@),
        r is None ==> spec_finger_label(finger, right) is None,
        finger matches Fingering::Unknown(v) ==> final(warnings)@.len() == old(warnings)@.len() + 1
            && final(warnings)@.last()@ == "Unknown fingering value: "@ + spec_signed_decimal(v as int)
            && final(warnings)@.drop_last() == old(warnings)@,
        !(finger is Unknown) ==> final(warnings)@ == old(warnings)@,
{
    let label: char = match finger {
        Fingering::Open => {
            return None;
        },
        Fingering::Thumb => if right { 'p' } else { 'T' },
        Fingering::Index => if right { 'i' } else { '1' },
        Fingering::Middle => if right { 'm' } else { '2' },
        Fingering::Annular => if right { 'a' } else { '3' },
        Fingering::Little => if right { 'c' } else { '4' },
        Fingering::Unknown(value) => {
            let mut message = String::from_str("Unknown fingering value: ");
            let digits = signed_decimal(value as i64);
            let text = string_from_chars(&digits);
            message.append(text.as_str());
            let ghost old_warnings = warnings@;
            warnings.push(message);
            assert(warnings@.drop_last() == old_warnings);
            return None;
        },
    };
    let mut chars: Vec<char> = Vec::new();
    chars.push(label);
    Some(string_from_chars(&chars))
}

/// The fret of the natural harmonic sounding at a touched fret, or 0 when the
/// fret has no natural harmonic.
pub open spec fn spec_natural_harmonic(fret: int) -> int {
    if fret == 3 {
        31
    } else if fret == 4 || fret == 9 || fret == 16 {
        28
    } else if fret == 5 || fret == 24 {
        24
    } else if fret == 6 || fret == 10 || fret == 14 || fret == 15 {
        34
    } else if fret == 7 || fret == 19 {
        19
    } else if fret == 8 || fret == 17 || fret == 22 {
        36
    } else if fret == 12 {
        12
    } else {
        0
    }
}

/// Maps a touched fret to the fret whose pitch its natural harmonic sounds.
pub fn natural_harmonic(fret: i32) -> (r: i32)
    ensures
        r as int == spec_natural_harmonic(fret as int),
{
    match fret {
        3 => 31,
        4 | 9 | 16 => 28,
        5 | 24 => 24,
        6 | 10 | 14 | 15 => 34,
        7 | 19 => 19,
        8 | 17 | 22 => 36,
        12 => 12,
        _ => 0,
    }
}

/// The kind of a Guitar Pro note.
#[derive(Clone, Copy, Debug, PartialEq, Eq, Structural)]
pub enum SourceNoteKind {
    /// A rest placeholder.
    Rest,
    /// A normal fretted note.
    Normal,
    /// A tied continuation.
    Tie,
    /// A dead (muted) note.
    Dead,
    /// A kind the format does not define.
    Unknown(u8),
}

/// The values of a Guitar Pro note that the conversion reads.
#[derive(Clone, Copy, Debug, PartialEq, Eq, Structural)]
pub struct SourceNote {
    /// One-based string number.
    pub string: i8,
    /// Fret number.
    pub value: i16,
    /// Note kind.
    pub kind: SourceNoteKind,
}

/// The instrument values a Guitar Pro track applies to its notes.
#[derive(Clone, Debug)]
pub struct SourceInstrument {
    /// Open-string MIDI pitches, top string first.
    pub strings: Vec<u8>,
    /// Whether the track is unpitched percussion.
    pub percussion: bool,
    /// Capo or offset added to every fret, in semitones.
    pub offset: i32,
    /// Chromatic transposition removed from written pitches.
    pub transpose_chromatic: i32,
    /// Octave transposition removed from written pitches.
    pub transpose_octave: i32,
}

/// The written MIDI number of a fretted note on a one-based string.
pub open spec fn written_midi(instrument: SourceInstrument, string: int, fret: int) -> int {
    instrument.strings@[string - 1] as int + fret + instrument.offset as int
        - instrument.transpose_chromatic as int - instrument.transpose_octave as int * 12
}

/// Whether a source note is kept (not a rest and of a known kind).
pub open spec fn note_is_kept(n: SourceNote) -> bool {
    n.kind is Normal || n.kind is Tie || n.kind is Dead
}

/// Whether a non-rest note can be converted: a string index, a non-negative
/// fret and, for a kept note of a pitched instrument, a string of the tuning and
/// a MIDI pitch.
pub open spec fn note_convertible(instrument: SourceInstrument, n: SourceNote) -> bool {
    &&& n.string >= 0
    &&& n.value >= 0
    &&& note_is_kept(n) && !instrument.percussion ==> {
        &&& 1 <= n.string <= instrument.strings@.len()
        &&& 0 <= written_midi(instrument, n.string as int, n.value as int) <= 255
    }
}

/// The native note of a kept source note.
pub open spec fn spec_converted_note(instrument: SourceInstrument, n: SourceNote) -> Note {
    Note {
        string: n.string as usize,
        fret: match n.kind {
            SourceNoteKind::Dead => Fret::Dead,
            SourceNoteKind::Tie => Fret::Tied(n.value as u16),
            _ => Fret::Number(n.value as u16),
        },
        midi: if instrument.percussion {
            None
        } else {
            Some(written_midi(instrument, n.string as int, n.value as int) as u8)
        },
    }
}

/// The native notes of the first `k` source notes.
pub open spec fn spec_converted_notes(instrument: SourceInstrument, notes: Seq<SourceNote>, k: int) -> Seq<
    Note,
>
    decreases k,
{
    if k <= 0 {
        Seq::empty()
    } else {
        let rest = spec_converted_notes(instrument, notes, k - 1);
        if note_is_kept(notes[k - 1]) {
            rest.push(spec_converted_note(instrument, notes[k - 1]))
        } else {
            rest
        }
    }
}

/// Number of notes of unknown kind among the first `k`.
pub open spec fn unknown_count(notes: Seq<SourceNote>, k: int) -> int
    decreases k,
{
    if k <= 0 {
        0
    } else {
        unknown_count(notes, k - 1) + if notes[k - 1].kind is Unknown {
            1int
        } else {
            0int
        }
    }
}

/// What stops a source note from converting, checked in order: a negative
/// string, a negative fret, and for a kept note of a pitched instrument a string
/// outside the tuning or a pitch outside 0..=255. Rests have no problem.
pub open spec fn source_note_problem(instrument: SourceInstrument, n: SourceNote) -> Option<
    Seq<char>,
> {
    if n.kind is Rest {
        None
    } else if n.string < 0 {
        Some("invalid string index"@)
    } else if n.value < 0 {
        Some("negative fret"@)
    } else if !note_is_kept(n) || instrument.percussion {
        None
    } else if n.string == 0 {
        Some("zero string index"@)
    } else if n.string > instrument.strings@.len() {
        Some("string index out of range"@)
    } else if !(0 <= written_midi(instrument, n.string as int, n.value as int) <= 255) {
        Some("written pitch outside MIDI range"@)
    } else {
        None
    }
}

/// Converts all Guitar Pro notes at one rhythmic position to native tab notes.
///
/// Rest notes are omitted because an empty native note list is a rest; notes of
/// unknown kind are omitted with a warning. For pitched instruments the written
/// MIDI pitch is derived from the tuning, fret, offset and transposition.
pub fn convert_notes(
    instrument: &SourceInstrument,
    notes: &Vec<SourceNote>,
    warnings: &mut Vec<String>,
) -> (r: Result<Vec<Note>, RenderError>)
    ensures
        r is Ok <==> forall|i: int|
            0 <= i < notes@.len() && !((#[trigger] notes@[i]).kind is Rest) ==> note_convertible(
                *instrument,
                notes@[i],
            ),
        r matches Ok(converted) ==> converted@ == spec_converted_notes(
            *instrument,
            notes@,
            notes@.len() as int,
        ) && final(warnings)@.len() == old(warnings)@.len() + unknown_count(
            notes@,
            notes@.len() as int,
        ),
        old(warnings)@.len() <= final(warnings)@.len(),
        final(warnings)@.subrange(0, old(warnings)@.len() as int) == old(warnings)@,
        forall|j: int|
            old(warnings)@.len() <= j < final(warnings)@.len() ==> (#[trigger] final(warnings)@[j])@
                == "Unknown note kind omitted"@,
        r matches Err(e) ==> e.kind == ErrorKind::InvalidInput && first_some(
            notes@,
            |n: SourceNote| source_note_problem(*instrument, n),
            notes@.len() as int,
        ) == Some(e.message@),
        r is Err ==> exists|k: int|
            0 <= k < notes@.len() && first_some(
                notes@,
                |n: SourceNote| source_note_problem(*instrument, n),
                k,
            ) is None && source_note_problem(*instrument, #[trigger] notes@[k]) is Some
                && final(warnings)@.len() == old(warnings)@.len() + unknown_count(notes@, k),
{
    let ghost f = |n: SourceNote| source_note_problem(*instrument, n);
    let mut converted: Vec<Note> = Vec::new();
    let mut i: usize = 0;
    while i < notes.len()
        invariant
            i <= notes@.len(),
            forall|j: int|
                0 <= j < i && !((#[trigger] notes@[j]).kind is Rest) ==> note_convertible(
                    *instrument,
                    notes@[j],
                ),
            converted@ == spec_converted_notes(*instrument, notes@, i as int),
            warnings@.len() == old(warnings)@.len() + unknown_count(notes@, i as int),
            old(warnings)@.len() <= warnings@.len(),
            warnings@.subrange(0, old(warnings)@.len() as int) == old(warnings)@,
            forall|j: int|
                old(warnings)@.len() <= j < warnings@.len() ==> (#[trigger] warnings@[j])@
                    == "Unknown note kind omitted"@,
            f == (|n: SourceNote| source_note_problem(*instrument, n)),
            first_some(notes@, f, i as int) is None,
        decreases notes.len() - i,
    {
        let n = notes[i];
        assert(notes@[i as int] == n);
        if !matches!(n.kind, SourceNoteKind::Rest) {
            if n.string < 0 {
                proof {
                    lemma_first_some_stable(notes@, f, i + 1, notes@.len() as int);
                }
                return Err(RenderError::invalid_input(String::from_str("invalid string index")));
            }
            if n.value < 0 {
                proof {
                    lemma_first_some_stable(notes@, f, i + 1, notes@.len() as int);
                }
                return Err(RenderError::invalid_input(String::from_str("negative fret")));
            }
            if matches!(n.kind, SourceNoteKind::Unknown(_)) {
                let ghost before = warnings@;
                warnings.push(String::from_str("Unknown note kind omitted"));
                assert(warnings@.subrange(0, old(warnings)@.len() as int) =~= before.subrange(
                    0,
                    old(warnings)@.len() as int,
                ));
            } else {
                let fret = n.value as u16;
                let fret_value = match n.kind {
                    SourceNoteKind::Dead => Fret::Dead,
                    SourceNoteKind::Tie => Fret::Tied(fret),
                    _ => Fret::Number(fret),
                };
                let midi = if instrument.percussion {
                    None
                } else {
                    if n.string == 0 {
                        proof {
                            lemma_first_some_stable(notes@, f, i + 1, notes@.len() as int);
                        }
                        return Err(RenderError::invalid_input(String::from_str("zero string index")));
                    }
                    if n.string as usize > instrument.strings.len() {
                        proof {
                            lemma_first_some_stable(notes@, f, i + 1, notes@.len() as int);
                        }
                        return Err(
                            RenderError::invalid_input(String::from_str("string index out of range")),
                        );
                    }
                    let open = instrument.strings[(n.string - 1) as usize];
                    let value: i64 = open as i64 + fret as i64 + instrument.offset as i64
                        - instrument.transpose_chromatic as i64 - instrument.transpose_octave as i64
                        * 12;
                    if value < 0 || value > 255 {
                        proof {
                            lemma_first_some_stable(notes@, f, i + 1, notes@.len() as int);
                        }
                        return Err(
                            RenderError::invalid_input(
                                String::from_str("written pitch outside MIDI range"),
                            ),
                        );
                    }
                    Some(value as u8)
                };
                converted.push(Note { string: n.string as usize, fret: fret_value, midi });
            }
        }
        i = i + 1;
    }
    Ok(converted)
}

/// Converts the Guitar Pro tuning `(string number, MIDI pitch)` pairs to the
/// top-to-bottom open-string pitches of a track.
pub fn convert_tuning(strings: &Vec<(i8, i8)>) -> (r: Result<Vec<u8>, RenderError>)
    ensures
        r is Ok <==> forall|i: int| 0 <= i < strings@.len() ==> (#[trigger] strings@[i]).1 >= 0,
        r matches Ok(tuning) ==> tuning@.len() == strings@.len() && forall|i: int|
            0 <= i < strings@.len() ==> tuning@[i] as int == (#[trigger] strings@[i]).1 as int,
        r matches Err(e) ==> e.kind == ErrorKind::InvalidInput && e.message@
            == "invalid string tuning"@,
{
    let mut tuning: Vec<u8> = Vec::new();
    let mut i: usize = 0;
    while i < strings.len()
        invariant
            i <= strings@.len(),
            tuning@.len() == i,
            forall|j: int| 0 <= j < i ==> (#[trigger] strings@[j]).1 >= 0,
            forall|j: int| 0 <= j < i ==> tuning@[j] as int == (#[trigger] strings@[j]).1 as int,
        decreases strings.len() - i,
    {
        let pitch = strings[i].1;
        if pitch < 0 {
            return Err(RenderError::invalid_input(String::from_str("invalid string tuning")));
        }
        tuning.push(pitch as u8);
        i = i + 1;
    }
    Ok(tuning)
}

/// Converts a Guitar Pro meter (numerator and denominator note value) to the
/// native `(u8, u16)` time signature, rejecting a negative numerator.
pub fn convert_meter(numerator: i8, denominator: u16) -> (r: Result<(u8, u16), RenderError>)
    ensures
        r is Ok <==> numerator >= 0,
        r matches Ok(meter) ==> meter.0 as int == numerator as int && meter.1 == denominator,
        r matches Err(e) ==> e.kind == ErrorKind::InvalidInput && e.message@ == "invalid meter"@,
{
    if numerator < 0 {
        Err(RenderError::invalid_input(String::from_str("invalid meter")))
    } else {
        Ok((numerator as u8, denominator))
    }
}

/// `a` comes before `b` in character order: at the first difference `a` has
/// the smaller character, or `a` is a proper prefix of `b`.
pub open spec fn text_before(a: Seq<char>, b: Seq<char>) -> bool
    decreases a.len(),
{
    if a.len() == 0 {
        b.len() > 0
    } else if b.len() == 0 {
        false
    } else if a[0] != b[0] {
        (a[0] as int) < (b[0] as int)
    } else {
        text_before(a.drop_first(), b.drop_first())
    }
}

/// Texts in strictly increasing character order.
pub open spec fn strictly_sorted(s: Seq<String>) -> bool {
    forall|i: int, j: int| 0 <= i < j < s.len() ==> text_before(#[trigger] s[i]@, #[trigger] s[j]@)
}

/// The texts of `s`, as a set of character sequences.
pub open spec fn texts_of(s: Seq<String>) -> Set<Seq<char>> {
    Set::new(|t: Seq<char>| exists|i: int| 0 <= i < s.len() && #[trigger] s[i]@ == t)
}

proof fn lemma_text_before_irreflexive(a: Seq<char>)
    ensures
        !text_before(a, a),
    decreases a.len(),
{
    if a.len() > 0 {
        lemma_text_before_irreflexive(a.drop_first());
    }
}

proof fn lemma_text_before_transitive(a: Seq<char>, b: Seq<char>, c: Seq<char>)
    requires
        text_before(a, b),
        text_before(b, c),
    ensures
        text_before(a, c),
    decreases a.len(),
{
    if a.len() > 0 && b.len() > 0 && c.len() > 0 && a[0] == b[0] && b[0] == c[0] {
        lemma_text_before_transitive(a.drop_first(), b.drop_first(), c.drop_first());
    }
}

proof fn lemma_text_before_total(a: Seq<char>, b: Seq<char>)
    ensures
        a == b || text_before(a, b) || text_before(b, a),
    decreases a.len(),
{
    if a.len() > 0 && b.len() > 0 && a[0] == b[0] {
        lemma_text_before_total(a.drop_first(), b.drop_first());
        if a.drop_first() == b.drop_first() {
            assert(a =~= seq![a[0]] + a.drop_first());
            assert(b =~= seq![b[0]] + b.drop_first());
        }
    } else if a.len() == 0 && b.len() == 0 {
        assert(a =~= b);
    }
}

/// Compares two texts in character order.
fn compare_text(a: &str, b: &str) -> (r: u8)
    ensures
        r <= 2,
        r == 0 <==> a@ == b@,
        r == 1 <==> text_before(a@, b@),
        r == 2 <==> text_before(b@, a@),
{
    proof {
        lemma_text_before_total(a@, b@);
        lemma_text_before_irreflexive(a@);
        if text_before(a@, b@) && text_before(b@, a@) {
            lemma_text_before_transitive(a@, b@, a@);
        }
    }
    let n = a.unicode_len();
    let m = b.unicode_len();
    assert(a@.subrange(0, n as int) =~= a@);
    assert(b@.subrange(0, m as int) =~= b@);
    let mut i: usize = 0;
    while i < n && i < m
        invariant
            n == a@.len(),
            m == b@.len(),
            i <= n,
            i <= m,
            a@.subrange(0, i as int) == b@.subrange(0, i as int),
            text_before(a@, b@) == text_before(a@.subrange(i as int, n as int), b@.subrange(i as int, m as int)),
            text_before(b@, a@) == text_before(b@.subrange(i as int, m as int), a@.subrange(i as int, n as int)),
        decreases n - i,
    {
        let x = a.get_char(i);
        let y = b.get_char(i);
        assert(a@.subrange(i as int, n as int)[0] == x);
        assert(b@.subrange(i as int, m as int)[0] == y);
        if x != y {
            if (x as u32) < (y as u32) {
                return 1;
            } else {
                return 2;
            }
        }
        assert(a@.subrange(i as int, n as int).drop_first() == a@.subrange(i + 1, n as int));
        assert(b@.subrange(i as int, m as int).drop_first() == b@.subrange(i + 1, m as int));
        assert(a@.subrange(0, i + 1) == a@.subrange(0, i as int).push(x));
        assert(b@.subrange(0, i + 1) == b@.subrange(0, i as int).push(y));
        i = i + 1;
    }
    if n == m {
        assert(a@ == a@.subrange(0, n as int));
        assert(b@ == b@.subrange(0, m as int));
        0
    } else if n < m {
        1
    } else {
        2
    }
}

proof fn lemma_texts_push(s: Seq<String>, x: String)
    ensures
        texts_of(s.push(x)) == texts_of(s).insert(x@),
{
    let pushed = s.push(x);
    assert forall|t: Seq<char>| texts_of(pushed).contains(t) == texts_of(s).insert(x@).contains(t) by {
        if texts_of(s).contains(t) {
            let i = choose|i: int| 0 <= i < s.len() && #[trigger] s[i]@ == t;
            assert(pushed[i]@ == t);
        }
        if t == x@ {
            assert(pushed[s.len() as int]@ == t);
        }
        if texts_of(pushed).contains(t) {
            let i = choose|i: int| 0 <= i < pushed.len() && #[trigger] pushed[i]@ == t;
            if i < s.len() {
                assert(s[i]@ == t);
            }
        }
    }
    assert(texts_of(pushed) =~= texts_of(s).insert(x@));
}

proof fn lemma_texts_insert(s: Seq<String>, k: int, x: String)
    requires
        0 <= k <= s.len(),
    ensures
        texts_of(s.insert(k, x)) == texts_of(s).insert(x@),
{
    let inserted = s.insert(k, x);
    assert forall|t: Seq<char>| texts_of(inserted).contains(t) == texts_of(s).insert(x@).contains(t) by {
        if texts_of(s).contains(t) {
            let i = choose|i: int| 0 <= i < s.len() && #[trigger] s[i]@ == t;
            if i < k {
                assert(inserted[i]@ == t);
            } else {
                assert(inserted[i + 1]@ == t);
            }
        }
        if t == x@ {
            assert(inserted[k]@ == t);
        }
        if texts_of(inserted).contains(t) {
            let i = choose|i: int| 0 <= i < inserted.len() && #[trigger] inserted[i]@ == t;
            if i < k {
                assert(s[i]@ == t);
            } else if i > k {
                assert(s[i - 1]@ == t);
            }
        }
    }
    assert(texts_of(inserted) =~= texts_of(s).insert(x@));
}

/// Finds where a warning belongs among sorted warnings: every earlier one comes
/// before it; either the one found there equals it, or it comes before all the rest.
fn find_slot(sorted: &Vec<String>, w: &String) -> (r: (usize, bool))
    requires
        strictly_sorted(sorted@),
    ensures
        r.0 <= sorted@.len(),
        forall|j: int| 0 <= j < r.0 ==> text_before(#[trigger] sorted@[j]@, w@),
        r.1 ==> r.0 < sorted@.len() && sorted@[r.0 as int]@ == w@,
        !r.1 ==> forall|j: int| r.0 <= j < sorted@.len() ==> text_before(w@, #[trigger] sorted@[j]@),
{
    let mut k: usize = 0;
    while k < sorted.len()
        invariant
            k <= sorted@.len(),
            strictly_sorted(sorted@),
            forall|j: int| 0 <= j < k ==> text_before(#[trigger] sorted@[j]@, w@),
        decreases sorted.len() - k,
    {
        let c = compare_text(sorted[k].as_str(), w.as_str());
        if c == 0 {
            return (k, true);
        }
        if c == 2 {
            proof {
                assert forall|j: int| k <= j < sorted@.len() implies text_before(
                    w@,
                    #[trigger] sorted@[j]@,
                ) by {
                    if j > k {
                        assert(text_before(sorted@[k as int]@, sorted@[j]@));
                        lemma_text_before_transitive(w@, sorted@[k as int]@, sorted@[j]@);
                    }
                }
            }
            return (k, false);
        }
        k = k + 1;
    }
    (k, false)
}

/// Sorts warnings in character order and keeps one copy of each, so that each
/// recoverable omission is reported once.
pub fn report_once(warnings: Vec<String>) -> (r: Vec<String>)
    ensures
        strictly_sorted(r@),
        texts_of(r@) == texts_of(warnings@),
{
    let mut sorted: Vec<String> = Vec::new();
    assert(texts_of(sorted@) =~= texts_of(warnings@.subrange(0, 0)));
    let mut i: usize = 0;
    while i < warnings.len()
        invariant
            i <= warnings@.len(),
            strictly_sorted(sorted@),
            texts_of(sorted@) == texts_of(warnings@.subrange(0, i as int)),
        decreases warnings.len() - i,
    {
        let w = &warnings[i];
        let ghost before = sorted@;
        let (k, found) = find_slot(&sorted, w);
        proof {
            assert(warnings@.subrange(0, i + 1) == warnings@.subrange(0, i as int).push(*w));
            lemma_texts_push(warnings@.subrange(0, i as int), *w);
        }
        if found {
            proof {
                assert(texts_of(before).contains(w@)) by {
                    assert(before[k as int]@ == w@);
                }
                assert(texts_of(before).insert(w@) =~= texts_of(before));
            }
        } else {
            sorted.insert(k, w.clone());
            proof {
                lemma_texts_insert(before, k as int, *w);
                assert forall|a: int, b: int| 0 <= a < b < sorted@.len() implies text_before(
                    #[trigger] sorted@[a]@,
                    #[trigger] sorted@[b]@,
                ) by {
                    if b < k {
                        assert(sorted@[a] == before[a] && sorted@[b] == before[b]);
                    } else if b == k {
                        assert(sorted@[a] == before[a]);
                    } else if a < k {
                        assert(sorted@[a] == before[a] && sorted@[b] == before[b - 1]);
                    } else if a == k {
                        assert(sorted@[b] == before[b - 1]);
                    } else {
                        assert(sorted@[a] == before[a - 1] && sorted@[b] == before[b - 1]);
                    }
                }
            }
        }
        i = i + 1;
    }
    assert(warnings@.subrange(0, warnings@.len() as int) == warnings@);
    sorted
}

} // verus!
