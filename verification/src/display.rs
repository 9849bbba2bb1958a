//! Display choices that do not depend on geometry: stem direction, the clef
//! in force at a measure, piano fingering labels, display transposition, and
//! how one request transforms the notes of every beat it shows.
use crate::error::{ErrorKind, RenderError};
use crate::glyphs::same_text;
use crate::notation::{
    from_midi_follows_its_bias, from_midi_round_trips, spec_from_midi, Clef, DisplayMode, NoteHead,
    Pitch, StemDirection,
};
use crate::style::{ElementVisibility, FingeringMode};
use vstd::prelude::*;

verus! {

/// Whether a beat's stems point down: as requested, or by voice when automatic,
/// odd voices pointing down.
pub open spec fn spec_stem_points_down(stem: StemDirection, voice: usize) -> bool {
    match stem {
        StemDirection::Down => true,
        StemDirection::Up => false,
        StemDirection::Auto => voice % 2 == 1,
    }
}

/// Decides the stem direction of a beat in voice `voice`.
pub fn stem_points_down(stem: StemDirection, voice: usize) -> (r: bool)
    ensures
        r == spec_stem_points_down(stem, voice),
{
    match stem {
        StemDirection::Down => true,
        StemDirection::Up => false,
        StemDirection::Auto => voice % 2 == 1,
    }
}

/// The clef in force at measure `k - 1`: the last clef change among the first
/// `k` measures, or the track's clef when none changes it.
pub open spec fn clef_in_force(track_clef: Clef, changes: Seq<Option<Clef>>, k: int) -> Clef
    decreases k,
{
    if k <= 0 {
        track_clef
    } else {
        match changes[k - 1] {
            Some(c) => c,
            None => clef_in_force(track_clef, changes, k - 1),
        }
    }
}

/// The clef in force at `measure`, given each measure's clef change.
pub fn clef(track_clef: Clef, changes: &Vec<Option<Clef>>, measure: usize) -> (c: Clef)
    requires
        measure < changes@.len(),
    ensures
        c == clef_in_force(track_clef, changes@, measure + 1),
{
    let mut k: usize = measure;
    loop
        invariant
            k <= measure,
            measure < changes@.len(),
            clef_in_force(track_clef, changes@, k + 1) == clef_in_force(
                track_clef,
                changes@,
                measure + 1,
            ),
        decreases k,
    {
        if let Some(c) = changes[k] {
            return c;
        }
        if k == 0 {
            assert(clef_in_force(track_clef, changes@, 0) == track_clef);
            return track_clef;
        }
        k = k - 1;
    }
}

/// The piano finger of a guitar fingering label: thumb `p`/`T` is 1, index
/// `i`/`1` is 2, middle `m`/`2` is 3, ring `a`/`3` is 4, little `c`/`4` is 5;
/// any other label stays as it is.
pub open spec fn spec_piano_finger(label: Seq<char>) -> Seq<char> {
    if label == "p"@ || label == "T"@ {
        "1"@
    } else if label == "i"@ || label == "1"@ {
        "2"@
    } else if label == "m"@ || label == "2"@ {
        "3"@
    } else if label == "a"@ || label == "3"@ {
        "4"@
    } else if label == "c"@ || label == "4"@ {
        "5"@
    } else {
        label
    }
}

/// Converts a guitar fingering label to piano fingering.
pub fn piano_finger(label: &str) -> (r: String)
    ensures
        r@ == spec_piano_finger(label@),
{
    if same_text(label, "p") || same_text(label, "T") {
        String::from_str("1")
    } else if same_text(label, "i") || same_text(label, "1") {
        String::from_str("2")
    } else if same_text(label, "m") || same_text(label, "2") {
        String::from_str("3")
    } else if same_text(label, "a") || same_text(label, "3") {
        String::from_str("4")
    } else if same_text(label, "c") || same_text(label, "4") {
        String::from_str("5")
    } else {
        String::from_str(label)
    }
}

/// The MIDI number that a pitch of `semitones` shows as, transposed by `t`:
/// the sum taken as a byte, as a cast to `u8` takes it.
pub open spec fn shown_midi(semitones: int, t: int) -> int {
    ((semitones + t) as u8) as int
}

/// A pitch shown transposed by `t` semitones, respelled with flats when the
/// written pitch is flat and with sharps otherwise.
pub fn display_pitch(pitch: Pitch, t: i8) -> (r: Result<Pitch, RenderError>)
    ensures
        r is Ok <==> pitch.is_midi(),
        r matches Ok(p) ==> p == spec_from_midi(
            shown_midi(pitch.semitones(), t as int),
            pitch.accidental < 0,
        ),
        r matches Err(e) ==> e.kind == ErrorKind::InvalidInput && e.message@ == (if pitch.step
            > 6 {
            "invalid pitch step"@
        } else {
            "pitch outside MIDI range"@
        }),
{
    let midi = match pitch.to_midi() {
        Ok(m) => m,
        Err(e) => return Err(e),
    };
    let shown: i16 = midi as i16 + t as i16;
    Ok(Pitch::from_midi(shown as u8, pitch.accidental < 0))
}

/// Diatonic height of the bottom staff line under a clef: E4 for treble and
/// percussion clefs, G2 for bass, F3 for alto and D3 for tenor clefs.
pub open spec fn bottom_line(clef: Clef) -> int {
    match clef {
        Clef::Bass | Clef::Bass8Above | Clef::Bass8Below | Clef::Bass15Above | Clef::Bass15Below => 18,
        Clef::Alto | Clef::Alto8Above | Clef::Alto8Below | Clef::Alto15Above | Clef::Alto15Below => 24,
        Clef::Tenor | Clef::Tenor8Above | Clef::Tenor8Below | Clef::Tenor15Above
        | Clef::Tenor15Below => 22,
        _ => 30,
    }
}

/// Staff position of a pitch: diatonic steps above the bottom line, so that
/// even positions are lines (0 through 8 inside the staff) and odd ones spaces.
pub open spec fn spec_staff_position(p: Pitch, clef: Clef) -> int {
    p.octave as int * 7 + p.step as int - bottom_line(clef)
}

/// The staff position of a written pitch under a clef.
pub fn staff_position(p: Pitch, clef: Clef) -> (r: i16)
    ensures
        r as int == spec_staff_position(p, clef),
{
    let bottom: i16 = match clef {
        Clef::Bass | Clef::Bass8Above | Clef::Bass8Below | Clef::Bass15Above | Clef::Bass15Below => 18,
        Clef::Alto | Clef::Alto8Above | Clef::Alto8Below | Clef::Alto15Above | Clef::Alto15Below => 24,
        Clef::Tenor | Clef::Tenor8Above | Clef::Tenor8Below | Clef::Tenor15Above
        | Clef::Tenor15Below => 22,
        _ => 30,
    };
    p.octave as i16 * 7 + p.step as i16 - bottom
}

/// Ledger lines a note at staff position `position` needs above and below the
/// staff: one per line position beyond the top line (8) or the bottom line (0).
pub open spec fn spec_ledger_lines(position: int) -> (int, int) {
    let above = if position >= 10 {
        position / 2 - 4
    } else {
        0
    };
    let below = if position <= -2 {
        (-position) / 2
    } else {
        0
    };
    (above, below)
}

/// Counts the ledger lines above and below the staff for a staff position.
pub fn ledger_lines(position: i16) -> (r: (u16, u16))
    ensures
        r.0 as int == spec_ledger_lines(position as int).0,
        r.1 as int == spec_ledger_lines(position as int).1,
{
    let above: u16 = if position >= 10 {
        (position / 2 - 4) as u16
    } else {
        0
    };
    let below: u16 = if position <= -2 {
        ((-(position as i32)) / 2) as u16
    } else {
        0
    };
    (above, below)
}

/// What showing one note reads and may change.
#[derive(Clone, Debug)]
pub struct DisplayNote {
    /// Written pitch, where the note has one.
    pub pitch: Option<Pitch>,
    /// Pitch of a grace note before it.
    pub grace_pitch: Option<Pitch>,
    /// Pitch that a harmonic sounds.
    pub harmonic_pitch: Option<Pitch>,
    /// Left-hand fingering label.
    pub fingering: Option<String>,
    /// Right-hand fingering label.
    pub right_fingering: Option<String>,
    /// Notehead shape.
    pub head: NoteHead,
    /// Hammer-on or pull-off to the next note.
    pub hammer_on: bool,
    /// Legato slide to the next note.
    pub slide_legato: bool,
    /// Palm muting.
    pub palm_mute: bool,
    /// Let ring.
    pub let_ring: bool,
}

/// A [`DisplayNote`] with its labels as characters.
pub struct DisplayNoteView {
    /// Written pitch.
    pub pitch: Option<Pitch>,
    /// Grace-note pitch.
    pub grace_pitch: Option<Pitch>,
    /// Harmonic pitch.
    pub harmonic_pitch: Option<Pitch>,
    /// Left-hand fingering label.
    pub fingering: Option<Seq<char>>,
    /// Right-hand fingering label.
    pub right_fingering: Option<Seq<char>>,
    /// Notehead shape.
    pub head: NoteHead,
    /// Hammer-on or pull-off.
    pub hammer_on: bool,
    /// Legato slide.
    pub slide_legato: bool,
    /// Palm muting.
    pub palm_mute: bool,
    /// Let ring.
    pub let_ring: bool,
}

/// The characters of a label, where there is one.
pub open spec fn label_view(l: Option<String>) -> Option<Seq<char>> {
    match l {
        Some(s) => Some(s@),
        None => None,
    }
}

impl View for DisplayNote {
    type V = DisplayNoteView;

    open spec fn view(&self) -> DisplayNoteView {
        DisplayNoteView {
            pitch: self.pitch,
            grace_pitch: self.grace_pitch,
            harmonic_pitch: self.harmonic_pitch,
            fingering: label_view(self.fingering),
            right_fingering: label_view(self.right_fingering),
            head: self.head,
            hammer_on: self.hammer_on,
            slide_legato: self.slide_legato,
            palm_mute: self.palm_mute,
            let_ring: self.let_ring,
        }
    }
}

/// The views of a list of notes.
pub open spec fn note_views(notes: Seq<DisplayNote>) -> Seq<DisplayNoteView> {
    notes.map_values(|n: DisplayNote| n@)
}

/// The display transformations that one request asks of every beat.
#[derive(Clone, Copy, Debug, PartialEq, Eq, Structural)]
pub struct DisplayRequest {
    /// Semitones by which written pitches are shown transposed.
    pub transposition: i8,
    /// Fingering labels are shown as piano finger numbers.
    pub piano_fingering: bool,
    /// Beats are shown as slashes.
    pub slash: bool,
    /// Chord diagrams stay.
    pub chords: bool,
    /// Dynamics stay.
    pub dynamics: bool,
    /// Lyrics stay.
    pub lyrics: bool,
    /// Performance effects stay.
    pub effects: bool,
}

impl DisplayRequest {
    /// The request of a layout: each kind of mark stays only where both its
    /// category switch and its element switch are on.
    pub fn new(
        display_transposition: i8,
        fingering: FingeringMode,
        display: DisplayMode,
        show_chords: bool,
        show_dynamics: bool,
        show_lyrics: bool,
        show_effects: bool,
        elements: ElementVisibility,
    ) -> (r: Self)
        ensures
            r.transposition == display_transposition,
            r.piano_fingering == (fingering == FingeringMode::Piano),
            r.slash == (display == DisplayMode::Slash),
            r.chords == (show_chords && elements.chord_diagrams),
            r.dynamics == (show_dynamics && elements.dynamics),
            r.lyrics == (show_lyrics && elements.lyrics),
            r.effects == (show_effects && elements.effects),
    {
        DisplayRequest {
            transposition: display_transposition,
            piano_fingering: fingering == FingeringMode::Piano,
            slash: display == DisplayMode::Slash,
            chords: show_chords && elements.chord_diagrams,
            dynamics: show_dynamics && elements.dynamics,
            lyrics: show_lyrics && elements.lyrics,
            effects: show_effects && elements.effects,
        }
    }

    /// Some transformation applies, so beats are shown as changed copies.
    pub open spec fn spec_changes_beats(self) -> bool {
        self.transposition != 0 || self.piano_fingering || self.slash || !self.chords
            || !self.dynamics || !self.lyrics || !self.effects
    }

    /// Whether beats are shown as changed copies.
    pub fn changes_beats(self) -> (r: bool)
        ensures
            r == self.spec_changes_beats(),
    {
        self.transposition != 0 || self.piano_fingering || self.slash || !self.chords
            || !self.dynamics || !self.lyrics || !self.effects
    }
}

/// A pitch that names no MIDI note.
pub open spec fn pitch_fails(p: Option<Pitch>) -> bool {
    p matches Some(q) && !q.is_midi()
}

/// The message for a pitch that names no MIDI note.
pub open spec fn pitch_message(q: Pitch) -> Seq<char> {
    if q.step > 6 {
        "invalid pitch step"@
    } else {
        "pitch outside MIDI range"@
    }
}

/// Some pitch of the note names no MIDI note.
pub open spec fn note_fails(n: DisplayNoteView) -> bool {
    pitch_fails(n.pitch) || pitch_fails(n.grace_pitch) || pitch_fails(n.harmonic_pitch)
}

/// The message for the first of the written, grace and harmonic pitches of
/// `n` that names no MIDI note.
pub open spec fn note_message(n: DisplayNoteView) -> Seq<char> {
    if pitch_fails(n.pitch) {
        pitch_message(n.pitch->0)
    } else if pitch_fails(n.grace_pitch) {
        pitch_message(n.grace_pitch->0)
    } else {
        pitch_message(n.harmonic_pitch->0)
    }
}

/// A pitch as shown transposed by `t`.
pub open spec fn shown_pitch(p: Option<Pitch>, t: int) -> Option<Pitch> {
    match p {
        Some(q) => Some(spec_from_midi(shown_midi(q.semitones(), t), q.accidental < 0)),
        None => None,
    }
}

/// A fingering label as shown.
pub open spec fn shown_label(l: Option<Seq<char>>, piano: bool) -> Option<Seq<char>> {
    match l {
        Some(s) => Some(
            if piano {
                spec_piano_finger(s)
            } else {
                s
            },
        ),
        None => None,
    }
}

/// A note with its pitches transposed and its labels restyled; its range
/// marks are dropped, since ranges are drawn from spans.
pub open spec fn restyled_note(n: DisplayNoteView, r: DisplayRequest) -> DisplayNoteView {
    DisplayNoteView {
        pitch: shown_pitch(n.pitch, r.transposition as int),
        grace_pitch: shown_pitch(n.grace_pitch, r.transposition as int),
        harmonic_pitch: shown_pitch(n.harmonic_pitch, r.transposition as int),
        fingering: shown_label(n.fingering, r.piano_fingering),
        right_fingering: shown_label(n.right_fingering, r.piano_fingering),
        head: n.head,
        hammer_on: false,
        slide_legato: false,
        palm_mute: false,
        let_ring: false,
    }
}

/// The pitch on the middle line of a treble staff, where slashes are drawn.
pub open spec fn slash_pitch() -> Pitch {
    Pitch { step: 6, octave: 4, accidental: 0 }
}

/// A note drawn as a slash on the middle line.
pub open spec fn slash_note(n: DisplayNoteView) -> DisplayNoteView {
    DisplayNoteView { pitch: Some(slash_pitch()), head: NoteHead::Slash, ..n }
}

/// A note with its effects dropped: only its pitch and notehead stay.
pub open spec fn plain_note(n: DisplayNoteView) -> DisplayNoteView {
    DisplayNoteView {
        pitch: n.pitch,
        grace_pitch: None,
        harmonic_pitch: None,
        fingering: None,
        right_fingering: None,
        head: n.head,
        hammer_on: false,
        slide_legato: false,
        palm_mute: false,
        let_ring: false,
    }
}

/// The notes of a beat as shown under a request that changes beats: each
/// note restyled; for slashes only the first note, as a slash; and without
/// effects where effects are hidden.
pub open spec fn shown_notes(notes: Seq<DisplayNoteView>, r: DisplayRequest) -> Seq<DisplayNoteView> {
    let restyled = notes.map_values(|n: DisplayNoteView| restyled_note(n, r));
    let slashed = if r.slash {
        if restyled.len() > 0 {
            seq![slash_note(restyled[0])]
        } else {
            Seq::empty()
        }
    } else {
        restyled
    };
    if r.effects {
        slashed
    } else {
        slashed.map_values(|n: DisplayNoteView| plain_note(n))
    }
}

/// Index `i` is the first note of `notes` with a pitch that names no MIDI note.
pub open spec fn first_failing(notes: Seq<DisplayNoteView>, i: int) -> bool {
    &&& 0 <= i < notes.len()
    &&& note_fails(notes[i])
    &&& forall|j: int| 0 <= j < i ==> !note_fails(#[trigger] notes[j])
}

fn copy_label(l: &Option<String>) -> (r: Option<String>)
    ensures
        label_view(r) == label_view(*l),
{
    match l {
        Some(s) => Some(s.clone()),
        None => None,
    }
}

fn copy_note(n: &DisplayNote) -> (r: DisplayNote)
    ensures
        r@ == n@,
{
    DisplayNote {
        pitch: n.pitch,
        grace_pitch: n.grace_pitch,
        harmonic_pitch: n.harmonic_pitch,
        fingering: copy_label(&n.fingering),
        right_fingering: copy_label(&n.right_fingering),
        head: n.head,
        hammer_on: n.hammer_on,
        slide_legato: n.slide_legato,
        palm_mute: n.palm_mute,
        let_ring: n.let_ring,
    }
}

fn show_pitch(p: Option<Pitch>, t: i8) -> (r: Result<Option<Pitch>, RenderError>)
    ensures
        r is Ok <==> !pitch_fails(p),
        r matches Ok(q) ==> q == shown_pitch(p, t as int),
        r matches Err(e) ==> e.kind == ErrorKind::InvalidInput && e.message@ == pitch_message(
            p->0,
        ),
{
    match p {
        None => Ok(None),
        Some(q) => match display_pitch(q, t) {
            Ok(shown) => Ok(Some(shown)),
            Err(e) => Err(e),
        },
    }
}

fn show_label(l: &Option<String>, piano: bool) -> (r: Option<String>)
    ensures
        label_view(r) == shown_label(label_view(*l), piano),
{
    match l {
        Some(s) => {
            if piano {
                Some(piano_finger(s.as_str()))
            } else {
                Some(s.clone())
            }
        },
        None => None,
    }
}

fn restyle_note(n: &DisplayNote, r: DisplayRequest) -> (out: Result<DisplayNote, RenderError>)
    ensures
        out is Ok <==> !note_fails(n@),
        out matches Ok(m) ==> m@ == restyled_note(n@, r),
        out matches Err(e) ==> e.kind == ErrorKind::InvalidInput && e.message@ == note_message(
            n@,
        ),
{
    let pitch = match show_pitch(n.pitch, r.transposition) {
        Ok(p) => p,
        Err(e) => return Err(e),
    };
    let grace_pitch = match show_pitch(n.grace_pitch, r.transposition) {
        Ok(p) => p,
        Err(e) => return Err(e),
    };
    let harmonic_pitch = match show_pitch(n.harmonic_pitch, r.transposition) {
        Ok(p) => p,
        Err(e) => return Err(e),
    };
    Ok(
        DisplayNote {
            pitch,
            grace_pitch,
            harmonic_pitch,
            fingering: show_label(&n.fingering, r.piano_fingering),
            right_fingering: show_label(&n.right_fingering, r.piano_fingering),
            head: n.head,
            hammer_on: false,
            slide_legato: false,
            palm_mute: false,
            let_ring: false,
        },
    )
}

proof fn lemma_note_views_push(v: Seq<DisplayNote>, n: DisplayNote)
    ensures
        note_views(v.push(n)) == note_views(v).push(n@),
{
    assert(note_views(v.push(n)) =~= note_views(v).push(n@));
}

/// The notes of one beat as a request shows them. Where the request changes
/// nothing, the notes are shown as written; otherwise see [`shown_notes`]. A
/// pitch that names no MIDI note fails a request that changes beats, with the
/// message of the first such pitch.
pub fn display_notes(notes: &Vec<DisplayNote>, request: DisplayRequest) -> (r: Result<
    Vec<DisplayNote>,
    RenderError,
>)
    ensures
        r is Err <==> request.spec_changes_beats() && exists|i: int|
            0 <= i < notes@.len() && note_fails(#[trigger] note_views(notes@)[i]),
        r matches Ok(v) ==> note_views(v@) == (if request.spec_changes_beats() {
            shown_notes(note_views(notes@), request)
        } else {
            note_views(notes@)
        }),
        r matches Err(e) ==> e.kind == ErrorKind::InvalidInput && exists|i: int|
            first_failing(note_views(notes@), i) && e.message@ == note_message(
                note_views(notes@)[i],
            ),
{
    let ghost src = note_views(notes@);
    let n = notes.len();
    let mut out: Vec<DisplayNote> = Vec::new();
    if !request.changes_beats() {
        let mut i: usize = 0;
        while i < n
            invariant
                n == notes@.len(),
                src == note_views(notes@),
                i <= n,
                note_views(out@) == src.take(i as int),
            decreases n - i,
        {
            let copy = copy_note(&notes[i]);
            proof {
                lemma_note_views_push(out@, copy);
            }
            out.push(copy);
            i = i + 1;
            assert(src.take(i as int) =~= src.take(i - 1).push(src[i - 1]));
        }
        assert(src.take(n as int) =~= src);
        return Ok(out);
    }
    let ghost restyled = src.map_values(|m: DisplayNoteView| restyled_note(m, request));
    let mut i: usize = 0;
    while i < n
        invariant
            n == notes@.len(),
            src == note_views(notes@),
            restyled == src.map_values(|m: DisplayNoteView| restyled_note(m, request)),
            request.spec_changes_beats(),
            i <= n,
            forall|j: int| 0 <= j < i ==> !note_fails(#[trigger] src[j]),
            note_views(out@) == restyled.take(i as int),
        decreases n - i,
    {
        assert(src[i as int] == notes@[i as int]@);
        match restyle_note(&notes[i], request) {
            Ok(shown) => {
                proof {
                    lemma_note_views_push(out@, shown);
                }
                out.push(shown);
            },
            Err(e) => {
                assert(first_failing(src, i as int));
                assert(note_fails(note_views(notes@)[i as int]));
                return Err(e);
            },
        }
        i = i + 1;
        assert(restyled.take(i as int) =~= restyled.take(i - 1).push(restyled[i - 1]));
    }
    assert(restyled.take(n as int) =~= restyled);
    assert(!(exists|i: int| 0 <= i < notes@.len() && note_fails(#[trigger] src[i])));
    let ghost slashed = if request.slash {
        if restyled.len() > 0 {
            seq![slash_note(restyled[0])]
        } else {
            Seq::empty()
        }
    } else {
        restyled
    };
    if request.slash {
        out.truncate(1);
        if out.len() > 0 {
            let mut first = out.pop().unwrap();
            first.pitch = Some(Pitch { step: 6, octave: 4, accidental: 0 });
            first.head = NoteHead::Slash;
            proof {
                lemma_note_views_push(out@, first);
            }
            out.push(first);
        }
        assert(note_views(out@) =~= slashed);
    }
    if !request.effects {
        let m = out.len();
        let mut plain: Vec<DisplayNote> = Vec::new();
        let ghost wanted = slashed.map_values(|x: DisplayNoteView| plain_note(x));
        let mut k: usize = 0;
        while k < m
            invariant
                m == out@.len(),
                note_views(out@) == slashed,
                wanted == slashed.map_values(|x: DisplayNoteView| plain_note(x)),
                k <= m,
                note_views(plain@) == wanted.take(k as int),
            decreases m - k,
        {
            let note = DisplayNote {
                pitch: out[k].pitch,
                grace_pitch: None,
                harmonic_pitch: None,
                fingering: None,
                right_fingering: None,
                head: out[k].head,
                hammer_on: false,
                slide_legato: false,
                palm_mute: false,
                let_ring: false,
            };
            assert(note@ == plain_note(slashed[k as int])) by {
                assert(slashed[k as int] == out@[k as int]@);
            }
            proof {
                lemma_note_views_push(plain@, note);
            }
            plain.push(note);
            k = k + 1;
            assert(wanted.take(k as int) =~= wanted.take(k - 1).push(wanted[k - 1]));
        }
        assert(wanted.take(m as int) =~= wanted);
        return Ok(plain);
    }
    Ok(out)
}

/// Display transposition moves a pitch by exactly its interval: a pitch that
/// names a MIDI note, transposed within the MIDI range, names the note `t`
/// semitones away, and a flat stays spelled with flats, any other with sharps.
pub proof fn transposition_moves_by_its_interval(p: Pitch, t: int)
    requires
        p.is_midi(),
        0 <= p.semitones() + t <= 127,
    ensures
        shown_pitch(Some(p), t) is Some,
        shown_pitch(Some(p), t)->0.is_midi(),
        shown_pitch(Some(p), t)->0.semitones() == p.semitones() + t,
        p.accidental < 0 ==> shown_pitch(Some(p), t)->0.accidental <= 0,
        p.accidental >= 0 ==> shown_pitch(Some(p), t)->0.accidental >= 0,
{
    let m = p.semitones() + t;
    assert(shown_midi(p.semitones(), t) == m);
    from_midi_round_trips(m, p.accidental < 0);
    from_midi_follows_its_bias(m, p.accidental < 0);
}

} // verus!
