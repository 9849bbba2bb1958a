//! Explicit notation data, independent of file parsing, and written-pitch spelling.
use crate::error::{ErrorKind, RenderError};
use crate::track::BeatAddress;
use vstd::prelude::*;

verus! {

/// Selects the notation staff or combination of staves to render.
#[derive(Clone, Copy, Debug, Default, PartialEq, Eq, Structural)]
pub enum DisplayMode {
    /// Render tablature only.
    #[default]
    Tablature,
    /// Render standard notation only.
    Standard,
    /// Render standard notation and tablature together.
    Both,
    /// Render numbered notation.
    Numbered,
    /// Render slash notation.
    Slash,
}

impl DisplayMode {
    /// Whether this mode draws a five-line staff.
    pub open spec fn spec_renders_staff(self) -> bool {
        self is Standard || self is Both || self is Slash
    }

    /// Whether this mode draws tablature strings.
    pub open spec fn spec_renders_tab(self) -> bool {
        self is Tablature || self is Both
    }

    /// Whether this mode draws a five-line staff.
    pub fn renders_staff(self) -> (r: bool)
        ensures
            r == self.spec_renders_staff(),
    {
        matches!(self, DisplayMode::Standard | DisplayMode::Both | DisplayMode::Slash)
    }

    /// Whether this mode draws tablature strings.
    pub fn renders_tab(self) -> (r: bool)
        ensures
            r == self.spec_renders_tab(),
    {
        matches!(self, DisplayMode::Tablature | DisplayMode::Both)
    }
}

/// Selects pagelike wrapping or a single horizontal strip.
#[derive(Clone, Copy, Debug, Default, PartialEq, Eq, Structural)]
pub enum LayoutMode {
    /// Wrap systems vertically like pages.
    #[default]
    Vertical,
    /// Keep systems in one horizontal strip.
    Horizontal,
}

/// A written clef, including octave-transposing forms and percussion.
#[derive(Clone, Copy, Debug, Default, PartialEq, Eq, Structural)]
pub enum Clef {
    /// The treble (G) clef.
    #[default]
    Treble,
    /// The bass (F) clef.
    Bass,
    /// The alto (C) clef.
    Alto,
    /// The tenor (C) clef.
    Tenor,
    /// The unpitched percussion clef.
    Percussion,
    /// Treble clef sounding an octave higher.
    Treble8Above,
    /// Treble clef sounding an octave lower.
    Treble8Below,
    /// Treble clef sounding two octaves higher.
    Treble15Above,
    /// Treble clef sounding two octaves lower.
    Treble15Below,
    /// Bass clef sounding an octave higher.
    Bass8Above,
    /// Bass clef sounding an octave lower.
    Bass8Below,
    /// Bass clef sounding two octaves higher.
    Bass15Above,
    /// Bass clef sounding two octaves lower.
    Bass15Below,
    /// Alto clef sounding an octave higher.
    Alto8Above,
    /// Alto clef sounding an octave lower.
    Alto8Below,
    /// Alto clef sounding two octaves higher.
    Alto15Above,
    /// Alto clef sounding two octaves lower.
    Alto15Below,
    /// Tenor clef sounding an octave higher.
    Tenor8Above,
    /// Tenor clef sounding an octave lower.
    Tenor8Below,
    /// Tenor clef sounding two octaves higher.
    Tenor15Above,
    /// Tenor clef sounding two octaves lower.
    Tenor15Below,
}

/// Written pitch: C=0 through B=6, octave uses scientific pitch numbering.
#[derive(Clone, Copy, Debug, PartialEq, Eq, Structural)]
pub struct Pitch {
    /// Diatonic step, where C is zero and B is six.
    pub step: u8,
    /// Scientific-pitch octave number.
    pub octave: i8,
    /// Chromatic alteration in semitones.
    pub accidental: i8,
}

/// Semitones above C of the natural diatonic step `step` (C major scale).
pub open spec fn natural_semitone(step: int) -> int {
    if step == 0 {
        0
    } else if step == 1 {
        2
    } else if step == 2 {
        4
    } else if step == 3 {
        5
    } else if step == 4 {
        7
    } else if step == 5 {
        9
    } else {
        11
    }
}

/// Sharp-biased spelling of a pitch class as `(step, accidental)`.
pub open spec fn sharp_spelling(pitch_class: int) -> (int, int) {
    if pitch_class == 0 {
        (0, 0)
    } else if pitch_class == 1 {
        (0, 1)
    } else if pitch_class == 2 {
        (1, 0)
    } else if pitch_class == 3 {
        (1, 1)
    } else if pitch_class == 4 {
        (2, 0)
    } else if pitch_class == 5 {
        (3, 0)
    } else if pitch_class == 6 {
        (3, 1)
    } else if pitch_class == 7 {
        (4, 0)
    } else if pitch_class == 8 {
        (4, 1)
    } else if pitch_class == 9 {
        (5, 0)
    } else if pitch_class == 10 {
        (5, 1)
    } else {
        (6, 0)
    }
}

/// Flat-biased spelling of a pitch class as `(step, accidental)`.
pub open spec fn flat_spelling(pitch_class: int) -> (int, int) {
    if pitch_class == 0 {
        (0, 0)
    } else if pitch_class == 1 {
        (1, -1)
    } else if pitch_class == 2 {
        (1, 0)
    } else if pitch_class == 3 {
        (2, -1)
    } else if pitch_class == 4 {
        (2, 0)
    } else if pitch_class == 5 {
        (3, 0)
    } else if pitch_class == 6 {
        (4, -1)
    } else if pitch_class == 7 {
        (4, 0)
    } else if pitch_class == 8 {
        (5, -1)
    } else if pitch_class == 9 {
        (5, 0)
    } else if pitch_class == 10 {
        (6, -1)
    } else {
        (6, 0)
    }
}

/// The chromatic spelling `Pitch::from_midi` chooses for a MIDI number.
pub open spec fn spec_from_midi(midi: int, flats: bool) -> Pitch {
    let spelling = if flats {
        flat_spelling(midi % 12)
    } else {
        sharp_spelling(midi % 12)
    };
    Pitch { step: spelling.0 as u8, octave: (midi / 12 - 1) as i8, accidental: spelling.1 as i8 }
}

/// Position of `step` in the order in which a key signature alters steps:
/// F C G D A E B for sharp keys and B E A D G C F for flat keys.
pub open spec fn key_order_position(sharps: bool, step: int) -> int {
    let sharp_position = if step == 3 {
        0
    } else if step == 0 {
        1
    } else if step == 4 {
        2
    } else if step == 1 {
        3
    } else if step == 5 {
        4
    } else if step == 2 {
        5
    } else {
        6
    };
    if sharps {
        sharp_position
    } else {
        6 - sharp_position
    }
}

/// Number of steps altered by a key of `key` fifths (saturating at seven).
pub open spec fn key_alteration_count(key: int) -> int {
    let magnitude = if key < 0 {
        -key
    } else {
        key
    };
    if magnitude > 7 {
        7
    } else {
        magnitude
    }
}

/// Sign of an integer: -1, 0 or 1.
pub open spec fn signum(value: int) -> int {
    if value > 0 {
        1
    } else if value < 0 {
        -1
    } else {
        0
    }
}

/// Whether the key of `key` fifths alters the diatonic step `step`.
pub open spec fn key_alters(key: int, step: int) -> bool {
    0 <= step < 7 && key_order_position(key >= 0, step) < key_alteration_count(key)
}

/// The accidental a key signature of `key` fifths implies for `step`.
pub open spec fn spec_key_accidental(key: int, step: int) -> int {
    if key_alters(key, step) {
        signum(key)
    } else {
        0
    }
}

/// Whether `key` alters `step`; both sides of the circle of fifths are covered.
pub fn key_alters_step(key: i8, step: u8) -> (r: bool)
    ensures
        r == key_alters(key as int, step as int),
{
    if step > 6 {
        return false;
    }
    let sharp_position: u8 = match step {
        3 => 0,
        0 => 1,
        4 => 2,
        1 => 3,
        5 => 4,
        2 => 5,
        _ => 6,
    };
    let position: u8 = if key >= 0 {
        sharp_position
    } else {
        6 - sharp_position
    };
    let count: u8 = if key == i8::MIN {
        7
    } else {
        let magnitude: i8 = if key < 0 {
            -key
        } else {
            key
        };
        if magnitude > 7 {
            7
        } else {
            magnitude as u8
        }
    };
    position < count
}

/// The accidental implied by a key signature of `key` fifths for a diatonic step.
pub fn key_accidental(key: i8, step: u8) -> (r: i8)
    ensures
        r as int == spec_key_accidental(key as int, step as int),
{
    if key_alters_step(key, step) {
        if key > 0 {
            1
        } else if key < 0 {
            -1
        } else {
            0
        }
    } else {
        0
    }
}

/// Cost used to rank alternative spellings of one MIDI pitch in a key: the
/// distance from the key's own accidental weighs most, then the size of the
/// accidental, then an accidental against the direction of the key.
pub open spec fn spelling_cost(key: int, accidental: int, step: int) -> int {
    let expected = if key_alters(key, step) {
        signum(key)
    } else {
        0
    };
    let distance = if accidental >= expected {
        accidental - expected
    } else {
        expected - accidental
    };
    let size = if accidental >= 0 {
        accidental
    } else {
        -accidental
    };
    distance * 3 + size + if signum(accidental) != signum(key) && accidental != 0 {
        1int
    } else {
        0int
    }
}

/// The accidental needed to spell `midi` on `step` of scientific `octave`.
pub open spec fn candidate_accidental(midi: int, octave: int, step: int) -> int {
    midi - ((octave + 1) * 12 + natural_semitone(step))
}

/// Whether `(octave, step)` is a spelling of `midi` considered by `spell_in_key`:
/// an octave from -1 through 9 and at most a double accidental.
pub open spec fn is_spelling_candidate(midi: int, octave: int, step: int) -> bool {
    &&& -1 <= octave <= 9
    &&& 0 <= step < 7
    &&& -2 <= candidate_accidental(midi, octave, step) <= 2
}

/// Enumeration order of candidate spellings: by octave, then by step.
pub open spec fn candidate_rank(octave: int, step: int) -> int {
    (octave + 1) * 7 + step
}

/// The spelling cost of a candidate.
pub open spec fn candidate_cost(midi: int, key: int, octave: int, step: int) -> int {
    spelling_cost(key, candidate_accidental(midi, octave, step), step)
}

/// Whether some candidate spelling exists for `midi`.
pub open spec fn has_spelling_candidate(midi: int) -> bool {
    exists|octave: int, step: int| is_spelling_candidate(midi, octave, step)
}

/// `(octave, step)` is the first candidate of minimal cost.
pub open spec fn is_best_spelling(midi: int, key: int, octave: int, step: int) -> bool {
    &&& is_spelling_candidate(midi, octave, step)
    &&& forall|o: int, s: int|
        #![trigger candidate_cost(midi, key, o, s)]
        is_spelling_candidate(midi, o, s) ==> {
            &&& candidate_rank(o, s) < candidate_rank(octave, step) ==> candidate_cost(
                midi,
                key,
                o,
                s,
            ) > candidate_cost(midi, key, octave, step)
            &&& candidate_cost(midi, key, o, s) >= candidate_cost(midi, key, octave, step)
        }
}

impl Pitch {
    /// Semitone number of this spelling, with middle C (C4) at 60.
    pub open spec fn semitones(self) -> int {
        (self.octave + 1) * 12 + natural_semitone(self.step as int) + self.accidental
    }

    /// This spelling names a MIDI note: a valid step and a number from 0 through 127.
    pub open spec fn is_midi(self) -> bool {
        self.step < 7 && 0 <= self.semitones() <= 127
    }

    /// Spells a MIDI pitch using either a flat- or sharp-biased chromatic map.
    pub fn from_midi(midi: u8, flats: bool) -> (p: Self)
        ensures
            p == spec_from_midi(midi as int, flats),
    {
        let pitch_class = midi % 12;
        let (step, accidental): (u8, i8) = if flats {
            match pitch_class {
                0 => (0, 0),
                1 => (1, -1),
                2 => (1, 0),
                3 => (2, -1),
                4 => (2, 0),
                5 => (3, 0),
                6 => (4, -1),
                7 => (4, 0),
                8 => (5, -1),
                9 => (5, 0),
                10 => (6, -1),
                _ => (6, 0),
            }
        } else {
            match pitch_class {
                0 => (0, 0),
                1 => (0, 1),
                2 => (1, 0),
                3 => (1, 1),
                4 => (2, 0),
                5 => (3, 0),
                6 => (3, 1),
                7 => (4, 0),
                8 => (4, 1),
                9 => (5, 0),
                10 => (5, 1),
                _ => (6, 0),
            }
        };
        let octave: i8 = (midi / 12) as i8 - 1;
        Pitch { step, octave, accidental }
    }

    /// Converts this written spelling to a MIDI note number.
    pub fn to_midi(self) -> (r: Result<u8, RenderError>)
        ensures
            r is Ok <==> self.is_midi(),
            r matches Ok(m) ==> m as int == self.semitones(),
            r matches Err(e) ==> e.kind == ErrorKind::InvalidInput,
            r matches Err(e) ==> e.message@ == (if self.step > 6 {
                "invalid pitch step"@
            } else {
                "pitch outside MIDI range"@
            }),
    {
        if self.step > 6 {
            return Err(RenderError::invalid_input(String::from_str("invalid pitch step")));
        }
        let natural: i16 = match self.step {
            0 => 0,
            1 => 2,
            2 => 4,
            3 => 5,
            4 => 7,
            5 => 9,
            _ => 11,
        };
        let midi: i16 = (self.octave as i16 + 1) * 12 + natural + self.accidental as i16;
        if midi < 0 || midi > 127 {
            return Err(RenderError::invalid_input(String::from_str("pitch outside MIDI range")));
        }
        Ok(midi as u8)
    }

    /// Spell MIDI pitches in the given key, including B-sharp/C-flat in remote keys.
    ///
    /// Candidates are every step of octaves -1 through 9 that spells `midi` with at
    /// most a double accidental; the first of minimal [`spelling_cost`] is chosen.
    /// Without a candidate the chromatic spelling of [`Pitch::from_midi`] is kept.
    pub fn spell_in_key(midi: u8, key: i8) -> (p: Self)
        ensures
            has_spelling_candidate(midi as int) ==> is_best_spelling(
                midi as int,
                key as int,
                p.octave as int,
                p.step as int,
            ) && p.accidental as int == candidate_accidental(
                midi as int,
                p.octave as int,
                p.step as int,
            ),
            !has_spelling_candidate(midi as int) ==> p == spec_from_midi(midi as int, key < 0),
            p.step < 7,
            p.semitones() == midi as int,
    {
        proof {
            lemma_from_midi_spells(midi as int, key < 0);
        }
        let mut best = Self::from_midi(midi, key < 0);
        let mut cost: i16 = i16::MAX;
        let mut found = false;
        let ghost mut best_octave: int = 0;
        let ghost mut best_step: int = 0;
        let mut rank: i16 = 0;
        while rank < 77
            invariant
                0 <= rank <= 77,
                !found ==> best == spec_from_midi(midi as int, key < 0),
                !found ==> forall|o: int, s: int|
                    is_spelling_candidate(midi as int, o, s) ==> candidate_rank(o, s) >= rank,
                found ==> is_spelling_candidate(midi as int, best_octave, best_step),
                found ==> candidate_rank(best_octave, best_step) < rank,
                found ==> cost as int == candidate_cost(midi as int, key as int, best_octave, best_step),
                found ==> best.octave as int == best_octave && best.step as int == best_step
                    && best.accidental as int == candidate_accidental(midi as int, best_octave, best_step),
                found ==> forall|o: int, s: int|
                    #![trigger candidate_cost(midi as int, key as int, o, s)]
                    is_spelling_candidate(midi as int, o, s) && candidate_rank(o, s) < rank ==> {
                        &&& candidate_rank(o, s) < candidate_rank(best_octave, best_step)
                            ==> candidate_cost(midi as int, key as int, o, s) > cost
                        &&& candidate_cost(midi as int, key as int, o, s) >= cost
                    },
            decreases 77 - rank,
        {
            let octave: i16 = rank / 7 - 1;
            let step: u8 = (rank % 7) as u8;
            assert(candidate_rank(octave as int, step as int) == rank);
            let natural: i16 = natural_semitone_of(step);
            let accidental: i16 = midi as i16 - ((octave + 1) * 12 + natural);
            if -2 <= accidental && accidental <= 2 {
                let c = compute_spelling_cost(key, accidental, step);
                if !found || c < cost {
                    cost = c;
                    best = Pitch { step, octave: octave as i8, accidental: accidental as i8 };
                    proof {
                        best_octave = octave as int;
                        best_step = step as int;
                    }
                    found = true;
                }
            }
            proof {
                assert forall|o: int, s: int|
                    is_spelling_candidate(midi as int, o, s) && candidate_rank(o, s) == rank implies o
                    == octave && s == step by {}
            }
            rank = rank + 1;
        }
        proof {
            if has_spelling_candidate(midi as int) {
                let (o, s) = choose|o: int, s: int| is_spelling_candidate(midi as int, o, s);
                assert(is_spelling_candidate(midi as int, o, s));
                assert(found);
            }
        }
        best
    }
}

/// Spelling a MIDI number with `Pitch::from_midi` and reading it back with
/// `Pitch::to_midi` gives the number again, whichever bias is chosen.
pub proof fn from_midi_round_trips(midi: int, flats: bool)
    requires
        0 <= midi <= 127,
    ensures
        spec_from_midi(midi, flats).is_midi(),
        spec_from_midi(midi, flats).semitones() == midi,
{
    lemma_from_midi_spells(midi, flats);
}

/// The flat-biased spelling never writes a sharp and the sharp-biased one
/// never writes a flat; both use at most a single accidental.
pub proof fn from_midi_follows_its_bias(midi: int, flats: bool)
    requires
        0 <= midi <= 127,
    ensures
        flats ==> -1 <= spec_from_midi(midi, flats).accidental <= 0,
        !flats ==> 0 <= spec_from_midi(midi, flats).accidental <= 1,
{
    assert(0 <= midi % 12 < 12);
}

/// The chromatic spelling of a MIDI number has a valid step and names that number.
pub proof fn lemma_from_midi_spells(midi: int, flats: bool)
    requires
        0 <= midi <= 255,
    ensures
        spec_from_midi(midi, flats).step < 7,
        spec_from_midi(midi, flats).semitones() == midi,
{
    let pc = midi % 12;
    assert(0 <= pc < 12);
    assert((midi / 12) * 12 + pc == midi);
}

/// Semitones above C of a natural diatonic step.
fn natural_semitone_of(step: u8) -> (r: i16)
    requires
        step < 7,
    ensures
        r as int == natural_semitone(step as int),
{
    match step {
        0 => 0,
        1 => 2,
        2 => 4,
        3 => 5,
        4 => 7,
        5 => 9,
        _ => 11,
    }
}

/// Computes [`spelling_cost`] for a candidate accidental.
fn compute_spelling_cost(key: i8, accidental: i16, step: u8) -> (c: i16)
    requires
        -2 <= accidental <= 2,
        step < 7,
    ensures
        c as int == spelling_cost(key as int, accidental as int, step as int),
        0 <= c <= 20,
{
    let key_sign: i16 = if key > 0 {
        1
    } else if key < 0 {
        -1
    } else {
        0
    };
    let expected: i16 = if key_alters_step(key, step) {
        key_sign
    } else {
        0
    };
    let distance: i16 = if accidental >= expected {
        accidental - expected
    } else {
        expected - accidental
    };
    let size: i16 = if accidental >= 0 {
        accidental
    } else {
        -accidental
    };
    let accidental_sign: i16 = if accidental > 0 {
        1
    } else if accidental < 0 {
        -1
    } else {
        0
    };
    let against: i16 = if accidental_sign != key_sign && accidental != 0 {
        1
    } else {
        0
    };
    distance * 3 + size + against
}

/// A fretboard diagram displayed above a beat.
#[derive(Clone, Debug, Default)]
pub struct ChordDiagram {
    /// Chord name shown above the diagram.
    pub name: String,
    /// One entry per string, top string first: None muted; Some(0) open.
    pub frets: Vec<Option<u16>>,
    /// The first fret shown by the diagram.
    pub first_fret: u16,
    /// Barres drawn across strings.
    pub barres: Vec<Barre>,
    /// Optional one label per string, in the same order as frets.
    pub fingers: Vec<String>,
    /// Minimum number of frets. Wide voicings expand the diagram automatically.
    pub fret_count: u16,
}

/// The highest fret named by a diagram's strings, or 0 when none is.
pub open spec fn max_string_fret(frets: Seq<Option<u16>>) -> int
    decreases frets.len(),
{
    if frets.len() == 0 {
        0
    } else {
        let rest = max_string_fret(frets.drop_last());
        match frets.last() {
            Some(f) => if f as int > rest {
                f as int
            } else {
                rest
            },
            None => rest,
        }
    }
}

/// The highest fret held by a barre, or 0 without barres.
pub open spec fn max_barre_fret(barres: Seq<Barre>) -> int
    decreases barres.len(),
{
    if barres.len() == 0 {
        0
    } else {
        let rest = max_barre_fret(barres.drop_last());
        if barres.last().fret as int > rest {
            barres.last().fret as int
        } else {
            rest
        }
    }
}

/// The larger of two integers.
pub open spec fn max_int(a: int, b: int) -> int {
    if a >= b {
        a
    } else {
        b
    }
}

impl ChordDiagram {
    /// Number of fret rows drawn: enough to reach the highest fret or barre from
    /// the first fret (with `u16` saturation), at least `fret_count`, at least five.
    pub open spec fn spec_rows(self) -> int {
        let highest = max_int(max_string_fret(self.frets@), max_barre_fret(self.barres@));
        let span = if highest > self.first_fret as int {
            highest - self.first_fret as int
        } else {
            0
        };
        let reach = if span + 1 > 65535 {
            65535
        } else {
            span + 1
        };
        max_int(max_int(reach, self.fret_count as int), 5)
    }

    /// Every string fret is muted, open, or at/above the first fret.
    pub open spec fn frets_reachable(self) -> bool {
        forall|i: int|
            0 <= i < self.frets@.len() ==> match #[trigger] self.frets@[i] {
                Some(f) => f == 0 || f >= self.first_fret,
                None => true,
            }
    }

    /// Every barre covers a nonempty string range inside the diagram at or
    /// above the first fret.
    pub open spec fn barres_valid(self) -> bool {
        forall|i: int|
            0 <= i < self.barres@.len() ==> {
                let b = #[trigger] self.barres@[i];
                &&& b.first_string != 0
                &&& b.first_string <= b.last_string
                &&& b.last_string <= self.frets@.len()
                &&& b.fret >= self.first_fret
            }
    }

    /// The diagram can be drawn for an instrument with `string_count` strings
    /// (`0` when the instrument has no strings).
    pub open spec fn is_valid_for(self, string_count: nat) -> bool {
        &&& 1 <= self.frets@.len() <= 16
        &&& (string_count == 0 || self.frets@.len() == string_count)
        &&& self.first_fret != 0
        &&& self.frets_reachable()
        &&& (self.fingers@.len() == 0 || self.fingers@.len() == self.frets@.len())
        &&& self.barres_valid()
    }

    /// Computes the number of fret rows the diagram shows.
    pub fn compute_rows(&self) -> (rows: u16)
        ensures
            rows as int == self.spec_rows(),
    {
        let mut highest: u16 = 0;
        let mut i: usize = 0;
        while i < self.frets.len()
            invariant
                i <= self.frets@.len(),
                highest as int == max_string_fret(self.frets@.subrange(0, i as int)),
            decreases self.frets.len() - i,
        {
            assert(self.frets@.subrange(0, i + 1).drop_last() == self.frets@.subrange(0, i as int));
            match self.frets[i] {
                Some(f) => {
                    if f > highest {
                        highest = f;
                    }
                },
                None => {},
            }
            i = i + 1;
        }
        assert(self.frets@.subrange(0, self.frets@.len() as int) == self.frets@);
        let mut barre_highest: u16 = 0;
        let mut j: usize = 0;
        while j < self.barres.len()
            invariant
                j <= self.barres@.len(),
                barre_highest as int == max_barre_fret(self.barres@.subrange(0, j as int)),
            decreases self.barres.len() - j,
        {
            assert(self.barres@.subrange(0, j + 1).drop_last() == self.barres@.subrange(0, j as int));
            if self.barres[j].fret > barre_highest {
                barre_highest = self.barres[j].fret;
            }
            j = j + 1;
        }
        assert(self.barres@.subrange(0, self.barres@.len() as int) == self.barres@);
        if barre_highest > highest {
            highest = barre_highest;
        }
        let span: u16 = if highest > self.first_fret {
            highest - self.first_fret
        } else {
            0
        };
        let reach: u16 = if span == u16::MAX {
            u16::MAX
        } else {
            span + 1
        };
        let mut rows = reach;
        if self.fret_count > rows {
            rows = self.fret_count;
        }
        if rows < 5 {
            rows = 5;
        }
        rows
    }
}

/// Checks that a chord diagram is compatible with an instrument of
/// `string_count` strings (`0` when the instrument has none).
pub fn validate_chord(string_count: usize, chord: &ChordDiagram) -> (r: Result<(), RenderError>)
    ensures
        r is Ok <==> chord.is_valid_for(string_count as nat),
        r matches Err(e) ==> e.kind == ErrorKind::InvalidInput,
        r matches Err(e) ==> e.message@ == (if !(1 <= chord.frets@.len() <= 16 && (string_count
            == 0 || chord.frets@.len() == string_count) && chord.first_fret != 0
            && chord.frets_reachable()) {
            "chord frets must be open or at/above the first fret"@
        } else if !(chord.fingers@.len() == 0 || chord.fingers@.len() == chord.frets@.len()) {
            "chord fingerings must match its strings"@
        } else {
            "invalid chord barre"@
        }),
{
    let n = chord.frets.len();
    if n == 0 || n > 16 || (string_count != 0 && n != string_count) || chord.first_fret == 0 {
        return Err(
            RenderError::invalid_input(
                String::from_str("chord frets must be open or at/above the first fret"),
            ),
        );
    }
    let mut i: usize = 0;
    while i < n
        invariant
            n == chord.frets@.len(),
            i <= n,
            forall|k: int|
                0 <= k < i ==> match #[trigger] chord.frets@[k] {
                    Some(f) => f == 0 || f >= chord.first_fret,
                    None => true,
                },
        decreases n - i,
    {
        match chord.frets[i] {
            Some(f) => {
                if f != 0 && f < chord.first_fret {
                    return Err(
                        RenderError::invalid_input(
                            String::from_str("chord frets must be open or at/above the first fret"),
                        ),
                    );
                }
            },
            None => {},
        }
        i = i + 1;
    }
    if chord.fingers.len() != 0 && chord.fingers.len() != n {
        return Err(
            RenderError::invalid_input(String::from_str("chord fingerings must match its strings")),
        );
    }
    let mut j: usize = 0;
    while j < chord.barres.len()
        invariant
            n == chord.frets@.len(),
            1 <= n <= 16,
            string_count == 0 || n == string_count,
            chord.first_fret != 0,
            chord.frets_reachable(),
            chord.fingers@.len() == 0 || chord.fingers@.len() == n,
            j <= chord.barres@.len(),
            forall|k: int|
                0 <= k < j ==> {
                    let b = #[trigger] chord.barres@[k];
                    &&& b.first_string != 0
                    &&& b.first_string <= b.last_string
                    &&& b.last_string <= n
                    &&& b.fret >= chord.first_fret
                },
        decreases chord.barres.len() - j,
    {
        let b = chord.barres[j];
        if b.first_string == 0 || b.first_string > b.last_string || b.last_string > n || b.fret
            < chord.first_fret {
            return Err(RenderError::invalid_input(String::from_str("invalid chord barre")));
        }
        j = j + 1;
    }
    Ok(())
}

/// Direction of a slide entering or leaving a note.
#[derive(Clone, Copy, Debug, PartialEq, Eq, Structural)]
pub enum SlideDirection {
    /// Slide from or to a lower pitch.
    Up,
    /// Slide from or to a higher pitch.
    Down,
}

/// Right-hand bass or guitar plucking technique.
#[derive(Clone, Copy, Debug, PartialEq, Eq, Structural)]
pub enum PluckingTechnique {
    /// Right-hand tap.
    Tap,
    /// Thumb slap.
    Slap,
    /// String pop.
    Pop,
}

/// A barre drawn across an inclusive range of strings in a chord diagram.
#[derive(Clone, Copy, Debug, PartialEq, Eq, Structural)]
pub struct Barre {
    /// Fret held by the barre.
    pub fret: u16,
    /// Inclusive one-based string indices, counted from the top string.
    pub first_string: usize,
    /// Last string covered by the barre.
    pub last_string: usize,
}

/// A conventional melodic ornament.
#[derive(Clone, Copy, Debug, PartialEq, Eq, Structural)]
pub enum Ornament {
    /// A trill.
    Trill,
    /// A turn.
    Turn,
    /// An inverted turn.
    InvertedTurn,
    /// An upper mordent.
    UpperMordent,
    /// A lower mordent.
    LowerMordent,
}

/// Relative duration represented by a fermata glyph.
#[derive(Clone, Copy, Debug, PartialEq, Eq, Structural)]
pub enum FermataKind {
    /// A normal fermata.
    Normal,
    /// A short fermata.
    Short,
    /// A long fermata.
    Long,
}

/// Repeat-navigation symbol or free-form navigation instruction.
#[derive(Clone, Debug)]
pub enum Navigation {
    /// Coda sign.
    Coda,
    /// Double coda sign.
    DoubleCoda,
    /// Segno sign.
    Segno,
    /// Double segno sign.
    DoubleSegno,
    /// Free-form instruction text.
    Instruction(String),
}

/// Visual shape used for a written notehead.
#[derive(Clone, Copy, Debug, Default, PartialEq, Eq, Structural)]
pub enum NoteHead {
    /// The conventional oval notehead.
    #[default]
    Normal,
    /// A diamond notehead.
    Diamond,
    /// A cross notehead.
    Cross,
    /// A slash notehead.
    Slash,
    /// A triangle notehead.
    Triangle,
    /// A circled cross notehead.
    CircleCross,
}

/// Explicit stem direction or automatic voice-based placement.
#[derive(Clone, Copy, Debug, Default, PartialEq, Eq, Structural)]
pub enum StemDirection {
    /// Select the direction automatically from the voice and pitch.
    #[default]
    Auto,
    /// Stem up.
    Up,
    /// Stem down.
    Down,
}

/// Override for automatic beam grouping at a beat.
#[derive(Clone, Copy, Debug, Default, PartialEq, Eq, Structural)]
pub enum Beaming {
    /// Select beam connections automatically.
    #[default]
    Auto,
    /// Break the beam at this beat.
    Break,
    /// Join this beat to its neighbours.
    Join,
}

/// Volume-envelope marking attached to a beat.
#[derive(Clone, Copy, Debug, PartialEq, Eq, Structural)]
pub enum Fade {
    /// Fade in.
    In,
    /// Fade out.
    Out,
    /// Volume swell.
    Swell,
}

/// Piano pedal transition.
#[derive(Clone, Copy, Debug, PartialEq, Eq, Structural)]
pub enum Pedal {
    /// Pedal pressed.
    Down,
    /// Pedal released.
    Up,
}

/// One- or two-octave transposition line above or below the staff.
#[derive(Clone, Copy, Debug, PartialEq, Eq, Structural)]
pub enum Ottava {
    /// Sounds an octave higher.
    Above8,
    /// Sounds an octave lower.
    Below8,
    /// Sounds two octaves higher.
    Above15,
    /// Sounds two octaves lower.
    Below15,
}

impl Ottava {
    /// The label printed at the start of the ottava line.
    pub fn format_label(self) -> (s: &'static str)
        ensures
            self is Above8 ==> s@ == "8va"@,
            self is Below8 ==> s@ == "8vb"@,
            self is Above15 ==> s@ == "15ma"@,
            self is Below15 ==> s@ == "15mb"@,
    {
        match self {
            Ottava::Above8 => "8va",
            Ottava::Below8 => "8vb",
            Ottava::Above15 => "15ma",
            Ottava::Below15 => "15mb",
        }
    }
}

/// One- or two-bar measure-repeat symbol.
#[derive(Clone, Copy, Debug, PartialEq, Eq, Structural)]
pub enum Simile {
    /// Repeat the previous bar.
    Single,
    /// First bar of a two-bar repeat.
    DoubleFirst,
    /// Second bar of a two-bar repeat.
    DoubleSecond,
}

/// A connection with explicit beat endpoints, including across measures/systems.
#[derive(Clone, Debug)]
pub struct Span {
    /// First beat of the span.
    pub start: BeatAddress,
    /// Last beat of the span.
    pub end: BeatAddress,
    /// Shape or effect drawn by the span.
    pub kind: SpanKind,
    /// Preferred side of the staff.
    pub placement: Placement,
}

/// Preferred side of the staff for a span.
#[derive(Clone, Copy, Debug, Default, PartialEq, Eq, Structural)]
pub enum Placement {
    /// Place the span above the staff.
    #[default]
    Above,
    /// Place the span below the staff.
    Below,
}

/// Shape or continuous musical effect represented by a [`Span`].
#[derive(Clone, Debug)]
pub enum SpanKind {
    /// Note indices in the endpoint chords. None attaches outside the chord.
    Slur {
        /// Optional note index in the starting chord.
        start_note: Option<usize>,
        /// Optional note index in the ending chord.
        end_note: Option<usize>,
    },
    /// A legato connection such as a hammer-on, pull-off or legato slide.
    Legato {
        /// Optional note index in the starting chord.
        start_note: Option<usize>,
        /// Optional note index in the ending chord.
        end_note: Option<usize>,
        /// Text shown alongside the legato span.
        text: String,
    },
    /// A crescendo hairpin.
    Crescendo,
    /// A diminuendo hairpin.
    Diminuendo,
    /// An ottava line.
    Ottava(Ottava),
    /// A palm-mute band.
    PalmMute,
    /// A let-ring band.
    LetRing,
    /// A pedal line.
    Pedal,
    /// A trill line.
    Trill,
    /// A vibrato line.
    Vibrato,
    /// A rasgueado band.
    Rasgueado,
    /// Caller-defined effect band (for example a beat barre or pick slide).
    Text(String),
    /// Explicit beam group; can cross barlines, and breaks at system boundaries.
    Beam,
}

/// Descriptive score text rendered above the first system.
#[derive(Clone, Debug, Default)]
pub struct ScoreMetadata {
    /// Title.
    pub title: String,
    /// Subtitle.
    pub subtitle: String,
    /// Artist credit.
    pub artist: String,
    /// Album credit.
    pub album: String,
    /// Lyricist credit.
    pub words: String,
    /// Composer credit.
    pub music: String,
    /// Copyright notice.
    pub copyright: String,
    /// Performance instructions.
    pub instructions: String,
}

/// A chromatic spelling writes a natural exactly when the pitch class is a
/// natural note, on the step of that note (C D E F G A B for pitch classes
/// 0 2 4 5 7 9 11); any other pitch class gets a single flat when spelled
/// with flats and a single sharp otherwise.
pub proof fn chromatic_spelling_writes_naturals(midi: int, flats: bool)
    requires
        0 <= midi <= 127,
    ensures
        ({
            let p = spec_from_midi(midi, flats);
            let pc = midi % 12;
            &&& pc == 0 ==> p.step == 0 && p.accidental == 0
            &&& pc == 2 ==> p.step == 1 && p.accidental == 0
            &&& pc == 4 ==> p.step == 2 && p.accidental == 0
            &&& pc == 5 ==> p.step == 3 && p.accidental == 0
            &&& pc == 7 ==> p.step == 4 && p.accidental == 0
            &&& pc == 9 ==> p.step == 5 && p.accidental == 0
            &&& pc == 11 ==> p.step == 6 && p.accidental == 0
            &&& (pc == 1 || pc == 3 || pc == 6 || pc == 8 || pc == 10) ==> p.accidental == (if flats {
                -1int
            } else {
                1int
            })
            &&& p.octave == midi / 12 - 1
        }),
{
    assert(0 <= midi % 12 < 12);
}

} // verus!
