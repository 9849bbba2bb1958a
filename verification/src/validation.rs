//! Structural validation of measures performed before layout.
use crate::error::{ErrorKind, RenderError};
use crate::spans::checks::{
    first_at, first_some, lemma_first_at_stable, lemma_first_some_stable,
};
use crate::text::{decimal, spec_decimal, string_from_chars};
use crate::notation::{Clef, DisplayMode, Pitch};
use crate::percussion::{resolve, spec_articulation};
use crate::track::Duration;
use vstd::prelude::*;

verus! {

/// Whether `n` is a positive power of two.
pub open spec fn is_power_of_two(n: int) -> bool
    decreases n,
{
    if n <= 0 {
        false
    } else if n == 1 {
        true
    } else {
        n % 2 == 0 && is_power_of_two(n / 2)
    }
}

/// Decides [`is_power_of_two`].
pub fn power_of_two(n: u32) -> (r: bool)
    ensures
        r == is_power_of_two(n as int),
{
    if n == 0 {
        return false;
    }
    let mut m = n;
    while m % 2 == 0
        invariant
            m > 0,
            is_power_of_two(m as int) == is_power_of_two(n as int),
        decreases m,
    {
        m = m / 2;
    }
    m == 1
}

/// The meter, key, repeat and beaming facts of one measure.
#[derive(Debug)]
pub struct MeasureHeader {
    /// Written meter as numerator and denominator, such as `(4, 4)`.
    pub time_signature: (u8, u16),
    /// Key signature in fifths: positive sharps, negative flats.
    pub key_signature: i8,
    /// Whether the measure ends with a repeat sign.
    pub repeat_end: bool,
    /// Number of passes through the repeat, shown above the end-repeat.
    pub repeat_count: Option<u8>,
    /// Note value that beam groups count in; the meter denominator when absent.
    pub beam_unit: Option<u16>,
    /// Custom beam groups, counted in `beam_unit`s.
    pub beam_groups: Vec<u8>,
    /// Every fermata of the measure has a finite, non-negative onset.
    pub fermatas_valid: bool,
}

/// Sum of beam-group lengths.
pub open spec fn group_sum(groups: Seq<u8>) -> int
    decreases groups.len(),
{
    if groups.len() == 0 {
        0
    } else {
        group_sum(groups.drop_last()) + groups.last() as int
    }
}

impl MeasureHeader {
    /// The beat unit of beam groups.
    pub open spec fn spec_beam_unit(self) -> int {
        match self.beam_unit {
            Some(u) => u as int,
            None => self.time_signature.1 as int,
        }
    }

    /// The meter has beats, a power-of-two denominator up to 128, and the key
    /// has at most seven accidentals.
    pub open spec fn meter_and_key_valid(self) -> bool {
        &&& self.time_signature.0 != 0
        &&& is_power_of_two(self.time_signature.1 as int)
        &&& self.time_signature.1 <= 128
        &&& -7 <= self.key_signature <= 7
    }

    /// A repeat count needs an end-repeat and at least one pass.
    pub open spec fn repeat_valid(self) -> bool {
        match self.repeat_count {
            Some(count) => count != 0 && self.repeat_end,
            None => true,
        }
    }

    /// The beam unit is a power of two up to 256.
    pub open spec fn beam_unit_valid(self) -> bool {
        is_power_of_two(self.spec_beam_unit()) && self.spec_beam_unit() <= 256
    }

    /// Custom beam groups, when present, are positive and fill the meter exactly.
    pub open spec fn beam_groups_valid(self) -> bool {
        self.beam_groups@.len() == 0 || {
            &&& forall|i: int| 0 <= i < self.beam_groups@.len() ==> #[trigger] self.beam_groups@[i] != 0
            &&& group_sum(self.beam_groups@) * self.time_signature.1 == self.time_signature.0
                * self.spec_beam_unit()
        }
    }

    /// All structural invariants of a measure header hold.
    pub open spec fn is_valid(self) -> bool {
        self.meter_and_key_valid() && self.repeat_valid() && self.fermatas_valid
            && self.beam_unit_valid() && self.beam_groups_valid()
    }

    /// The message for the first invariant that fails, checked in the order
    /// meter and key, repeat, fermatas, beam unit, beam groups; `index` is the
    /// zero-based measure index.
    pub open spec fn problem(self, index: int) -> Seq<char> {
        if !self.meter_and_key_valid() {
            "invalid meter or key in measure "@ + spec_decimal((index + 1) as nat)
        } else if !self.repeat_valid() {
            "repeat count requires an end-repeat and at least one pass"@
        } else if !self.fermatas_valid {
            "invalid fermata onset"@
        } else if !self.beam_unit_valid() {
            "invalid beam unit"@
        } else {
            "beam groups must sum to the meter numerator"@
        }
    }
}

/// Checks meter, key, repeat, fermata and beam-group invariants for the
/// measure at zero-based `index`. Only the meter-and-key message numbers the
/// measure, as `index + 1`, so only there must that number fit in a `usize`.
pub fn validate_measure(measure: &MeasureHeader, index: usize) -> (r: Result<(), RenderError>)
    requires
        !measure.meter_and_key_valid() ==> index < usize::MAX,
    ensures
        r is Ok <==> measure.is_valid(),
        r matches Err(e) ==> e.kind == ErrorKind::InvalidInput && e.message@ == measure.problem(
            index as int,
        ),
{
    let (numerator, denominator) = measure.time_signature;
    if numerator == 0 || !power_of_two(denominator as u32) || denominator > 128
        || measure.key_signature < -7 || measure.key_signature > 7 {
        let mut message = String::from_str("invalid meter or key in measure ");
        let number = string_from_chars(&decimal(index as u64 + 1));
        message.append(number.as_str());
        return Err(RenderError::invalid_input(message));
    }
    match measure.repeat_count {
        Some(count) => {
            if count == 0 || !measure.repeat_end {
                return Err(
                    RenderError::invalid_input(
                        String::from_str(
                            "repeat count requires an end-repeat and at least one pass",
                        ),
                    ),
                );
            }
        },
        None => {},
    }
    if !measure.fermatas_valid {
        return Err(RenderError::invalid_input(String::from_str("invalid fermata onset")));
    }
    let beam_unit: u16 = match measure.beam_unit {
        Some(u) => u,
        None => denominator,
    };
    if !power_of_two(beam_unit as u32) || beam_unit > 256 {
        return Err(RenderError::invalid_input(String::from_str("invalid beam unit")));
    }
    if measure.beam_groups.len() != 0 {
        assert(numerator as u64 * beam_unit as u64 <= 255 * 256) by (nonlinear_arith)
            requires
                numerator <= 255,
                beam_unit <= 256,
        ;
        let target: u64 = numerator as u64 * beam_unit as u64;
        let mut sum: u64 = 0;
        let mut i: usize = 0;
        let mut exceeded = false;
        while i < measure.beam_groups.len()
            invariant
                i <= measure.beam_groups@.len(),
                measure.meter_and_key_valid(),
                measure.repeat_valid(),
                measure.fermatas_valid,
                measure.beam_unit_valid(),
                !exceeded ==> sum as int == group_sum(measure.beam_groups@.subrange(0, i as int)),
                !exceeded ==> sum <= target,
                exceeded ==> group_sum(measure.beam_groups@.subrange(0, i as int)) > target,
                target == numerator as u64 * beam_unit as u64,
                target <= 255 * 256,
                forall|k: int| 0 <= k < i ==> #[trigger] measure.beam_groups@[k] != 0,
            decreases measure.beam_groups.len() - i,
        {
            let g = measure.beam_groups[i];
            if g == 0 {
                return Err(
                    RenderError::invalid_input(
                        String::from_str("beam groups must sum to the meter numerator"),
                    ),
                );
            }
            assert(measure.beam_groups@.subrange(0, i + 1).drop_last()
                == measure.beam_groups@.subrange(0, i as int));
            if !exceeded {
                sum = sum + g as u64;
                if sum > target {
                    exceeded = true;
                }
            }
            i = i + 1;
        }
        assert(measure.beam_groups@.subrange(0, measure.beam_groups@.len() as int)
            == measure.beam_groups@);
        proof {
            if exceeded {
                assert(group_sum(measure.beam_groups@) * denominator > target) by (nonlinear_arith)
                    requires
                        group_sum(measure.beam_groups@) > target,
                        denominator >= 1,
                ;
            }
        }
        if exceeded {
            return Err(
                RenderError::invalid_input(
                    String::from_str("beam groups must sum to the meter numerator"),
                ),
            );
        }
        assert(sum * denominator <= 255 * 256 * 128) by (nonlinear_arith)
            requires
                sum <= 255 * 256,
                denominator <= 128,
        ;
        if sum * denominator as u64 != target {
            return Err(
                RenderError::invalid_input(
                    String::from_str("beam groups must sum to the meter numerator"),
                ),
            );
        }
    }
    Ok(())
}

/// Most measures a track may hold.
pub const MAX_MEASURES: usize = 100000;
/// Most voices a measure may hold.
pub const MAX_VOICES_PER_MEASURE: usize = 32;
/// Most beats a voice may hold.
pub const MAX_BEATS_PER_VOICE: usize = 100000;
/// Most simultaneous notes a beat may hold.
pub const MAX_NOTES_PER_BEAT: usize = 64;
/// Most points an effect curve may hold.
pub const MAX_CURVE_POINTS: usize = 4096;
/// Largest meter denominator.
pub const MAX_METER_DENOMINATOR: u16 = 128;

/// The sizes of one beat that resource limits bound.
#[derive(Clone, Debug)]
pub struct BeatSize {
    /// Written duration.
    pub duration: Duration,
    /// Number of simultaneous notes.
    pub notes: usize,
    /// Number of points of the whammy-bar curve.
    pub whammy_points: usize,
    /// Number of points of each note's bend curve, in note order.
    pub bend_points: Vec<usize>,
}

/// The sizes of one measure that resource limits bound.
#[derive(Debug)]
pub struct MeasureSize {
    /// Written meter as numerator and denominator.
    pub time_signature: (u8, u16),
    /// Voices, each holding its beats.
    pub voices: Vec<Vec<BeatSize>>,
}

/// A failed check: its error category and message.
pub type Problem = (ErrorKind, Seq<char>);

/// What is wrong with one beat, checked in order: its duration, then the note,
/// whammy-curve and bend-curve limits.
pub open spec fn beat_size_problem(b: BeatSize) -> Option<Problem> {
    if !b.duration.is_valid() {
        Some((ErrorKind::InvalidInput, "invalid duration"@))
    } else if b.notes > MAX_NOTES_PER_BEAT {
        Some((ErrorKind::ResourceLimit, "a beat exceeds the 64-note resource limit"@))
    } else if b.whammy_points > MAX_CURVE_POINTS {
        Some((ErrorKind::ResourceLimit, "a whammy curve exceeds the 4096-point resource limit"@))
    } else if exists|i: int|
        0 <= i < b.bend_points@.len() && #[trigger] b.bend_points@[i] > MAX_CURVE_POINTS {
        Some((ErrorKind::ResourceLimit, "a bend curve exceeds the 4096-point resource limit"@))
    } else {
        None
    }
}

/// What is wrong with one voice of the measure at zero-based `index`.
pub open spec fn voice_size_problem(index: int, v: Vec<BeatSize>) -> Option<Problem> {
    if v@.len() > MAX_BEATS_PER_VOICE {
        Some(
            (
                ErrorKind::ResourceLimit,
                "measure "@ + spec_decimal((index + 1) as nat)
                    + " exceeds the 100000-beat resource limit"@,
            ),
        )
    } else {
        first_some(v@, |b: BeatSize| beat_size_problem(b), v@.len() as int)
    }
}

/// What is wrong with the measure at zero-based `index`: its meter, its voice
/// count, then its first faulty voice.
pub open spec fn measure_size_problem(index: int, m: MeasureSize) -> Option<Problem> {
    let (numerator, denominator) = m.time_signature;
    if numerator == 0 || !is_power_of_two(denominator as int) || denominator
        > MAX_METER_DENOMINATOR {
        Some(
            (ErrorKind::ResourceLimit, "invalid meter in measure "@ + spec_decimal((index + 1) as nat)),
        )
    } else if m.voices@.len() > MAX_VOICES_PER_MEASURE {
        Some(
            (
                ErrorKind::InvalidInput,
                "measure "@ + spec_decimal((index + 1) as nat)
                    + " exceeds the 32-voice resource limit"@,
            ),
        )
    } else {
        first_some(
            m.voices@,
            |v: Vec<BeatSize>| voice_size_problem(index, v),
            m.voices@.len() as int,
        )
    }
}

/// The first resource-limit problem of a track's measures.
pub open spec fn track_size_problem(measures: Seq<MeasureSize>) -> Option<Problem> {
    if measures.len() > MAX_MEASURES {
        Some((ErrorKind::ResourceLimit, "a track exceeds the 100000-measure resource limit"@))
    } else {
        first_at(|i: int| measure_size_problem(i, measures[i]), measures.len() as int)
    }
}

fn limit_error(message: &str) -> (e: RenderError)
    ensures
        e.kind == ErrorKind::ResourceLimit,
        e.message@ == message@,
{
    RenderError::resource_limit(String::from_str(message))
}

fn numbered_error(kind: ErrorKind, before: &str, index: usize, after: &str) -> (e: RenderError)
    requires
        index < usize::MAX,
    ensures
        e.kind == kind,
        e.message@ == before@ + spec_decimal((index + 1) as nat) + after@,
{
    let mut message = String::from_str(before);
    let number = string_from_chars(&decimal(index as u64 + 1));
    message.append(number.as_str());
    message.append(after);
    RenderError::new(kind, message)
}

fn check_beat_size(b: &BeatSize) -> (r: Result<(), RenderError>)
    ensures
        r is Ok <==> beat_size_problem(*b) is None,
        r matches Err(e) ==> beat_size_problem(*b) == Some((e.kind, e.message@)),
{
    match b.duration.compute_quarter_beats() {
        Ok(_) => {},
        Err(e) => return Err(e),
    }
    if b.notes > MAX_NOTES_PER_BEAT {
        return Err(limit_error("a beat exceeds the 64-note resource limit"));
    }
    if b.whammy_points > MAX_CURVE_POINTS {
        return Err(limit_error("a whammy curve exceeds the 4096-point resource limit"));
    }
    let mut i: usize = 0;
    while i < b.bend_points.len()
        invariant
            i <= b.bend_points@.len(),
            b.duration.is_valid(),
            b.notes <= MAX_NOTES_PER_BEAT,
            b.whammy_points <= MAX_CURVE_POINTS,
            forall|j: int| 0 <= j < i ==> #[trigger] b.bend_points@[j] <= MAX_CURVE_POINTS,
        decreases b.bend_points.len() - i,
    {
        if b.bend_points[i] > MAX_CURVE_POINTS {
            assert(b.bend_points@[i as int] > MAX_CURVE_POINTS);
            return Err(limit_error("a bend curve exceeds the 4096-point resource limit"));
        }
        i = i + 1;
    }
    Ok(())
}

fn check_voice_size(index: usize, v: &Vec<BeatSize>) -> (r: Result<(), RenderError>)
    requires
        index < MAX_MEASURES,
    ensures
        r is Ok <==> voice_size_problem(index as int, *v) is None,
        r matches Err(e) ==> voice_size_problem(index as int, *v) == Some((e.kind, e.message@)),
{
    if v.len() > MAX_BEATS_PER_VOICE {
        return Err(
            numbered_error(
                ErrorKind::ResourceLimit,
                "measure ",
                index,
                " exceeds the 100000-beat resource limit",
            ),
        );
    }
    let ghost f = |b: BeatSize| beat_size_problem(b);
    let mut i: usize = 0;
    while i < v.len()
        invariant
            i <= v@.len(),
            v@.len() <= MAX_BEATS_PER_VOICE,
            f == (|b: BeatSize| beat_size_problem(b)),
            first_some(v@, f, i as int) is None,
        decreases v.len() - i,
    {
        match check_beat_size(&v[i]) {
            Ok(()) => {},
            Err(e) => {
                proof {
                    lemma_first_some_stable(v@, f, i + 1, v@.len() as int);
                }
                return Err(e);
            },
        }
        i = i + 1;
    }
    Ok(())
}

fn check_measure_size(index: usize, m: &MeasureSize) -> (r: Result<(), RenderError>)
    requires
        index < MAX_MEASURES,
    ensures
        r is Ok <==> measure_size_problem(index as int, *m) is None,
        r matches Err(e) ==> measure_size_problem(index as int, *m) == Some((e.kind, e.message@)),
{
    let (numerator, denominator) = m.time_signature;
    if numerator == 0 || !power_of_two(denominator as u32) || denominator > MAX_METER_DENOMINATOR {
        proof {
            reveal_strlit("");
        }
        return Err(
            numbered_error(ErrorKind::ResourceLimit, "invalid meter in measure ", index, ""),
        );
    }
    if m.voices.len() > MAX_VOICES_PER_MEASURE {
        return Err(
            numbered_error(
                ErrorKind::InvalidInput,
                "measure ",
                index,
                " exceeds the 32-voice resource limit",
            ),
        );
    }
    let ghost f = |v: Vec<BeatSize>| voice_size_problem(index as int, v);
    let mut i: usize = 0;
    while i < m.voices.len()
        invariant
            index < MAX_MEASURES,
            i <= m.voices@.len(),
            m.time_signature.0 != 0,
            is_power_of_two(m.time_signature.1 as int),
            m.time_signature.1 <= MAX_METER_DENOMINATOR,
            m.voices@.len() <= MAX_VOICES_PER_MEASURE,
            f == (|v: Vec<BeatSize>| voice_size_problem(index as int, v)),
            first_some(m.voices@, f, i as int) is None,
        decreases m.voices.len() - i,
    {
        match check_voice_size(index, &m.voices[i]) {
            Ok(()) => {},
            Err(e) => {
                proof {
                    lemma_first_some_stable(m.voices@, f, i + 1, m.voices@.len() as int);
                }
                return Err(e);
            },
        }
        i = i + 1;
    }
    Ok(())
}

/// Checks a track against the documented resource limits and meter rules:
/// the measure count, then each measure's meter, voice count, beats per
/// voice, and each beat's duration, notes, whammy curve and bend curves.
pub fn validate_track(measures: &Vec<MeasureSize>) -> (r: Result<(), RenderError>)
    ensures
        r is Ok <==> track_size_problem(measures@) is None,
        r matches Err(e) ==> track_size_problem(measures@) == Some((e.kind, e.message@)),
{
    if measures.len() > MAX_MEASURES {
        return Err(limit_error("a track exceeds the 100000-measure resource limit"));
    }
    let ghost f = |i: int| measure_size_problem(i, measures@[i]);
    let mut i: usize = 0;
    while i < measures.len()
        invariant
            measures@.len() <= MAX_MEASURES,
            i <= measures@.len(),
            f == (|i: int| measure_size_problem(i, measures@[i])),
            first_at(f, i as int) is None,
        decreases measures.len() - i,
    {
        match check_measure_size(i, &measures[i]) {
            Ok(()) => {},
            Err(e) => {
                proof {
                    lemma_first_at_stable(f, i + 1, measures@.len() as int);
                }
                return Err(e);
            },
        }
        i = i + 1;
    }
    Ok(())
}

/// What note validation reads from one note.
#[derive(Clone, Copy, Debug, PartialEq, Eq, Structural)]
pub struct NoteFacts {
    /// One-based string, from the top string.
    pub string: usize,
    /// General MIDI percussion articulation, if any.
    pub percussion: Option<u16>,
    /// Written pitch.
    pub pitch: Option<Pitch>,
    /// Written pitch of a grace note.
    pub grace_pitch: Option<Pitch>,
    /// Written pitch of an artificial harmonic.
    pub harmonic_pitch: Option<Pitch>,
    /// The bend curve is finite and moves forward in time.
    pub bend_valid: bool,
    /// Quarter-tone offset: -1, 0 or 1.
    pub quarter_tone: i8,
    /// Grace-note duration denominator; zero for none.
    pub grace_duration: u16,
    /// Tremolo-picking slashes.
    pub tremolo_slashes: u8,
}

/// A written pitch that staff notation can show: a step from C to B, at most
/// a double accidental, and an octave from -1 through 9.
pub open spec fn pitch_writable(p: Option<Pitch>) -> bool {
    match p {
        Some(p) => p.step <= 6 && -2 <= p.accidental <= 2 && -1 <= p.octave <= 9,
        None => true,
    }
}

/// The string check applies: tablature is drawn and the staff is not percussion.
pub open spec fn checks_string(clef: Clef, display: DisplayMode) -> bool {
    clef != Clef::Percussion && display.spec_renders_tab()
}

/// The note's problem is one of the two whose message numbers its measure:
/// a bad or repeated string, or a missing staff pitch.
pub open spec fn note_problem_names_measure(
    clef: Clef,
    display: DisplayMode,
    string_count: nat,
    used: Seq<usize>,
    n: NoteFacts,
) -> bool {
    let string_fails = checks_string(clef, display) && (n.string == 0 || n.string > string_count
        || used.contains(n.string));
    let articulation_fails = n.percussion is Some && spec_articulation(
        n.percussion.unwrap() as int,
    ) is None;
    string_fails || (!articulation_fails && (display != DisplayMode::Tablature || clef
        == Clef::Percussion) && n.pitch is None)
}

/// What is wrong with one note of a beat in the measure at zero-based
/// `measure`, given the strings already used in the beat, checked in order:
/// its string, its percussion articulation, a missing staff pitch, its written
/// pitches, its bend, its quarter tone, its grace duration, its tremolo.
pub open spec fn note_problem(
    clef: Clef,
    display: DisplayMode,
    string_count: nat,
    used: Seq<usize>,
    measure: int,
    n: NoteFacts,
) -> Option<Problem> {
    if checks_string(clef, display) && (n.string == 0 || n.string > string_count || used.contains(
        n.string,
    )) {
        Some(
            (
                ErrorKind::InvalidInput,
                "invalid or duplicate string in measure "@ + spec_decimal((measure + 1) as nat),
            ),
        )
    } else if n.percussion is Some && spec_articulation(n.percussion.unwrap() as int) is None {
        Some(
            (
                ErrorKind::InvalidInput,
                "unsupported percussion articulation "@ + spec_decimal(
                    n.percussion.unwrap() as nat,
                ),
            ),
        )
    } else if (display != DisplayMode::Tablature || clef == Clef::Percussion) && n.pitch is None {
        Some(
            (
                ErrorKind::InvalidInput,
                "standard notation needs a written pitch in measure "@ + spec_decimal(
                    (measure + 1) as nat,
                ),
            ),
        )
    } else if !(pitch_writable(n.pitch) && pitch_writable(n.grace_pitch) && pitch_writable(
        n.harmonic_pitch,
    )) {
        Some((ErrorKind::InvalidInput, "invalid written pitch"@))
    } else if !n.bend_valid {
        Some((ErrorKind::InvalidInput, "invalid bend curve"@))
    } else if !(-1 <= n.quarter_tone <= 1) {
        Some((ErrorKind::InvalidInput, "invalid quarter-tone offset"@))
    } else if n.grace_duration > 0 && (!is_power_of_two(n.grace_duration as int)
        || n.grace_duration > 128) {
        Some((ErrorKind::InvalidInput, "invalid grace duration"@))
    } else if n.tremolo_slashes > 5 {
        Some((ErrorKind::InvalidInput, "too many tremolo slashes"@))
    } else {
        None
    }
}

fn writable(p: Option<Pitch>) -> (r: bool)
    ensures
        r == pitch_writable(p),
{
    match p {
        Some(p) => p.step <= 6 && -2 <= p.accidental && p.accidental <= 2 && -1 <= p.octave
            && p.octave <= 9,
        None => true,
    }
}

fn contains_string(used: &Vec<usize>, string: usize) -> (r: bool)
    ensures
        r == used@.contains(string),
{
    let mut i: usize = 0;
    while i < used.len()
        invariant
            i <= used@.len(),
            forall|j: int| 0 <= j < i ==> used@[j] != string,
        decreases used.len() - i,
    {
        if used[i] == string {
            assert(used@[i as int] == string);
            return true;
        }
        i = i + 1;
    }
    false
}

/// Checks one note of a beat in the measure at zero-based `measure`. `used`
/// holds the strings already taken in the beat; when the string check applies
/// and passes, the note's string is added to it. Only a message that numbers
/// the measure, as `measure + 1`, needs that number to fit in a `usize`.
pub fn validate_note(
    clef: Clef,
    display: DisplayMode,
    string_count: usize,
    note: &NoteFacts,
    measure: usize,
    used: &mut Vec<usize>,
) -> (r: Result<(), RenderError>)
    requires
        note_problem_names_measure(clef, display, string_count as nat, old(used)@, *note)
            ==> measure < usize::MAX,
    ensures
        r is Ok <==> note_problem(
            clef,
            display,
            string_count as nat,
            old(used)@,
            measure as int,
            *note,
        ) is None,
        r matches Err(e) ==> note_problem(
            clef,
            display,
            string_count as nat,
            old(used)@,
            measure as int,
            *note,
        ) == Some((e.kind, e.message@)),
        r is Ok && checks_string(clef, display) ==> final(used)@ == old(used)@.push(note.string),
        r is Ok && !checks_string(clef, display) ==> final(used)@ == old(used)@,
{
    let ghost before = used@;
    if clef != Clef::Percussion && display.renders_tab() {
        if note.string == 0 || note.string > string_count || contains_string(used, note.string) {
            proof {
                reveal_strlit("");
            }
            return Err(
                numbered_error(
                    ErrorKind::InvalidInput,
                    "invalid or duplicate string in measure ",
                    measure,
                    "",
                ),
            );
        }
        used.push(note.string);
    }
    if let Some(id) = note.percussion {
        match resolve(id) {
            Ok(_) => {},
            Err(e) => return Err(e),
        }
    }
    if (display != DisplayMode::Tablature || clef == Clef::Percussion) && note.pitch.is_none() {
        proof {
            reveal_strlit("");
        }
        return Err(
            numbered_error(
                ErrorKind::InvalidInput,
                "standard notation needs a written pitch in measure ",
                measure,
                "",
            ),
        );
    }
    if !(writable(note.pitch) && writable(note.grace_pitch) && writable(note.harmonic_pitch)) {
        return Err(RenderError::invalid_input(String::from_str("invalid written pitch")));
    }
    if !note.bend_valid {
        return Err(RenderError::invalid_input(String::from_str("invalid bend curve")));
    }
    if note.quarter_tone < -1 || note.quarter_tone > 1 {
        return Err(RenderError::invalid_input(String::from_str("invalid quarter-tone offset")));
    }
    if note.grace_duration > 0 && (!power_of_two(note.grace_duration as u32)
        || note.grace_duration > 128) {
        return Err(RenderError::invalid_input(String::from_str("invalid grace duration")));
    }
    if note.tremolo_slashes > 5 {
        return Err(RenderError::invalid_input(String::from_str("too many tremolo slashes")));
    }
    Ok(())
}

/// Checks that an instrument drawn as tablature has between one and sixteen
/// strings; percussion staves and views without tablature need none.
pub fn validate_string_count(clef: Clef, display: DisplayMode, string_count: usize) -> (r: Result<
    (),
    RenderError,
>)
    ensures
        r is Ok <==> !(checks_string(clef, display) && (string_count == 0 || string_count > 16)),
        r matches Err(e) ==> e.kind == ErrorKind::InvalidInput && e.message@
            == "expected 1–16 strings"@,
{
    if clef != Clef::Percussion && display.renders_tab() && (string_count == 0 || string_count
        > 16) {
        return Err(RenderError::invalid_input(String::from_str("expected 1–16 strings")));
    }
    Ok(())
}

} // verus!
