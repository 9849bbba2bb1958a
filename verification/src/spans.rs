//! Span preparation: the checks that explicit spans must pass and the ranges
//! that are derived from beat-local marks.
//!
//! A track is read here as bars of voices of beats, each beat holding only the
//! facts that span preparation looks at. Spans are compared through their view,
//! in which every piece of text is a sequence of characters.
use crate::display::{
    display_notes, first_failing, note_fails, note_message, note_views, shown_notes, DisplayNote,
    DisplayRequest,
};
use crate::error::{ErrorKind, RenderError};
use crate::glyphs::same_text;
use crate::notation::{Ottava, Pitch, Placement, Span, SpanKind, StemDirection};
use crate::track::{BeatAddress, Duration, Fret};
use vstd::prelude::*;

pub mod checks;
pub mod derived;

verus! {

/// The shape of a [`SpanKind`], with its text as characters.
pub enum SpanKindView {
    /// A slur between two chords.
    Slur { start_note: Option<usize>, end_note: Option<usize> },
    /// A legato connection and its label.
    Legato { start_note: Option<usize>, end_note: Option<usize>, text: Seq<char> },
    /// A crescendo hairpin.
    Crescendo,
    /// A diminuendo hairpin.
    Diminuendo,
    /// An ottava line.
    Ottava(Ottava),
    /// A palm-mute band.
    PalmMute,
    /// A let-ring band.
    LetRing,
    /// A pedal line.
    Pedal,
    /// A trill line.
    Trill,
    /// A vibrato line.
    Vibrato,
    /// A rasgueado band.
    Rasgueado,
    /// A labelled effect band.
    Text(Seq<char>),
    /// An explicit beam group.
    Beam,
}

/// The parts of a [`Span`], with its kind viewed as [`SpanKindView`].
pub struct SpanView {
    /// First beat.
    pub start: BeatAddress,
    /// Last beat.
    pub end: BeatAddress,
    /// Shape of the span.
    pub kind: SpanKindView,
    /// Side of the staff.
    pub placement: Placement,
}

impl View for SpanKind {
    type V = SpanKindView;

    open spec fn view(&self) -> SpanKindView {
        match self {
            SpanKind::Slur { start_note, end_note } => SpanKindView::Slur {
                start_note: *start_note,
                end_note: *end_note,
            },
            SpanKind::Legato { start_note, end_note, text } => SpanKindView::Legato {
                start_note: *start_note,
                end_note: *end_note,
                text: text@,
            },
            SpanKind::Crescendo => SpanKindView::Crescendo,
            SpanKind::Diminuendo => SpanKindView::Diminuendo,
            SpanKind::Ottava(o) => SpanKindView::Ottava(*o),
            SpanKind::PalmMute => SpanKindView::PalmMute,
            SpanKind::LetRing => SpanKindView::LetRing,
            SpanKind::Pedal => SpanKindView::Pedal,
            SpanKind::Trill => SpanKindView::Trill,
            SpanKind::Vibrato => SpanKindView::Vibrato,
            SpanKind::Rasgueado => SpanKindView::Rasgueado,
            SpanKind::Text(t) => SpanKindView::Text(t@),
            SpanKind::Beam => SpanKindView::Beam,
        }
    }
}

impl View for Span {
    type V = SpanView;

    open spec fn view(&self) -> SpanView {
        SpanView { start: self.start, end: self.end, kind: self.kind@, placement: self.placement }
    }
}

/// The views of a sequence of spans, in order.
pub open spec fn span_views(spans: Seq<Span>) -> Seq<SpanView> {
    spans.map_values(|s: Span| s@)
}

/// `(a_bar, a_beat) <= (b_bar, b_beat)` in lexicographic order.
pub open spec fn position_le(a_bar: int, a_beat: int, b_bar: int, b_beat: int) -> bool {
    a_bar < b_bar || (a_bar == b_bar && a_beat <= b_beat)
}

/// Whether `address` is one of the beats that a span from `start` to `end` covers:
/// the span's voice, between its endpoints in bar-then-beat order.
pub open spec fn covers(start: BeatAddress, end: BeatAddress, address: BeatAddress) -> bool {
    &&& address.voice == start.voice
    &&& position_le(start.bar as int, start.beat as int, address.bar as int, address.beat as int)
    &&& position_le(address.bar as int, address.beat as int, end.bar as int, end.beat as int)
}

/// Whether a span covers a beat address.
pub fn contains(span: &Span, address: BeatAddress) -> (r: bool)
    ensures
        r == covers(span.start, span.end, address),
{
    let after_start = span.start.bar < address.bar || (span.start.bar == address.bar
        && span.start.beat <= address.beat);
    let before_end = address.bar < span.end.bar || (address.bar == span.end.bar && address.beat
        <= span.end.beat);
    address.voice == span.start.voice && after_start && before_end
}

/// Which variant a span kind is, numbered in declaration order.
pub open spec fn kind_tag(k: SpanKindView) -> int {
    match k {
        SpanKindView::Slur { .. } => 0,
        SpanKindView::Legato { .. } => 1,
        SpanKindView::Crescendo => 2,
        SpanKindView::Diminuendo => 3,
        SpanKindView::Ottava(_) => 4,
        SpanKindView::PalmMute => 5,
        SpanKindView::LetRing => 6,
        SpanKindView::Pedal => 7,
        SpanKindView::Trill => 8,
        SpanKindView::Vibrato => 9,
        SpanKindView::Rasgueado => 10,
        SpanKindView::Text(_) => 11,
        SpanKindView::Beam => 12,
    }
}

fn tag_of(k: &SpanKind) -> (t: u8)
    ensures
        t as int == kind_tag(k@),
{
    match k {
        SpanKind::Slur { .. } => 0,
        SpanKind::Legato { .. } => 1,
        SpanKind::Crescendo => 2,
        SpanKind::Diminuendo => 3,
        SpanKind::Ottava(_) => 4,
        SpanKind::PalmMute => 5,
        SpanKind::LetRing => 6,
        SpanKind::Pedal => 7,
        SpanKind::Trill => 8,
        SpanKind::Vibrato => 9,
        SpanKind::Rasgueado => 10,
        SpanKind::Text(_) => 11,
        SpanKind::Beam => 12,
    }
}

/// Two derived ranges continue each other: ottava lines of the same interval,
/// text bands of the same text, or any two kinds of the same variant otherwise.
pub open spec fn spec_same_range_kind(a: SpanKindView, b: SpanKindView) -> bool {
    match (a, b) {
        (SpanKindView::Ottava(x), SpanKindView::Ottava(y)) => x == y,
        (SpanKindView::Text(x), SpanKindView::Text(y)) => x == y,
        _ => kind_tag(a) == kind_tag(b),
    }
}

/// Whether a new range mark continues the current range.
pub fn same_range_kind(left: &SpanKind, right: &SpanKind) -> (r: bool)
    ensures
        r == spec_same_range_kind(left@, right@),
{
    match (left, right) {
        (SpanKind::Ottava(a), SpanKind::Ottava(b)) => *a == *b,
        (SpanKind::Text(a), SpanKind::Text(b)) => same_text(a.as_str(), b.as_str()),
        _ => tag_of(left) == tag_of(right),
    }
}

/// Hairpins go below the staff, every other derived range above.
pub open spec fn spec_range_placement(kind: SpanKindView) -> Placement {
    match kind {
        SpanKindView::Crescendo | SpanKindView::Diminuendo => Placement::Below,
        _ => Placement::Above,
    }
}

/// The side of the staff on which a derived range is drawn.
pub fn range_placement(kind: &SpanKind) -> (p: Placement)
    ensures
        p == spec_range_placement(kind@),
{
    match kind {
        SpanKind::Crescendo | SpanKind::Diminuendo => Placement::Below,
        _ => Placement::Above,
    }
}

/// What span preparation reads from one note.
#[derive(Clone, Copy, Debug, PartialEq, Eq, Structural)]
pub struct SpanNote {
    /// One-based string, from the top string.
    pub string: usize,
    /// Tablature value.
    pub fret: Fret,
    /// Written pitch, where the note has one.
    pub pitch: Option<Pitch>,
    /// Pitch of a grace note before this note.
    pub grace_pitch: Option<Pitch>,
    /// Sounding pitch of an artificial harmonic.
    pub harmonic_pitch: Option<Pitch>,
    /// A hammer-on or pull-off to the next note on this string.
    pub hammer_on: bool,
    /// A legato slide to the next note on this string.
    pub slide_legato: bool,
    /// Palm muting.
    pub palm_mute: bool,
    /// Let ring.
    pub let_ring: bool,
}

/// What span preparation reads from one beat.
#[derive(Clone, Debug)]
pub struct SpanBeat {
    /// Simultaneous notes, in chord order.
    pub notes: Vec<SpanNote>,
    /// Written duration.
    pub duration: Duration,
    /// Stem direction requested for the beat.
    pub stem: StemDirection,
    /// A rasgueado mark.
    pub rasgueado: bool,
    /// An ottava mark.
    pub ottava: Option<Ottava>,
    /// A hairpin mark: `true` growing, `false` diminishing.
    pub crescendo: Option<bool>,
    /// A barre label.
    pub barre: Option<String>,
}

/// A track as span preparation reads it: bars of voices of beats, and the
/// spans written explicitly into the source.
#[derive(Clone, Debug)]
pub struct SpanTrack {
    /// Bars, each holding its voices, each voice its beats.
    pub bars: Vec<Vec<Vec<SpanBeat>>>,
    /// Explicit spans.
    pub spans: Vec<Span>,
}

/// The beat at `a`, where the track has one.
pub open spec fn beat_at(bars: Seq<Vec<Vec<SpanBeat>>>, a: BeatAddress) -> Option<SpanBeat> {
    if a.bar < bars.len() && a.voice < bars[a.bar as int]@.len() && a.beat
        < bars[a.bar as int]@[a.voice as int]@.len() {
        Some(bars[a.bar as int]@[a.voice as int]@[a.beat as int])
    } else {
        None
    }
}

/// A beat-local mark that becomes one contiguous span during preparation.
#[derive(Clone, Copy, Debug, PartialEq, Eq, Structural)]
pub enum AutoRange {
    /// Palm muting on any note of the beat.
    PalmMute,
    /// Let ring on any note of the beat.
    LetRing,
    /// A rasgueado mark.
    Rasgueado,
    /// An ottava mark.
    Ottava,
    /// A hairpin mark.
    Crescendo,
    /// A barre label.
    Barre,
}

/// The derived ranges, in the order in which preparation emits them.
pub open spec fn auto_range_order() -> Seq<AutoRange> {
    seq![
        AutoRange::PalmMute,
        AutoRange::LetRing,
        AutoRange::Rasgueado,
        AutoRange::Ottava,
        AutoRange::Crescendo,
        AutoRange::Barre,
    ]
}

/// Some note of the chord is palm muted.
pub open spec fn any_palm_mute(notes: Seq<SpanNote>) -> bool {
    exists|i: int| 0 <= i < notes.len() && #[trigger] notes[i].palm_mute
}

/// Some note of the chord lets ring.
pub open spec fn any_let_ring(notes: Seq<SpanNote>) -> bool {
    exists|i: int| 0 <= i < notes.len() && #[trigger] notes[i].let_ring
}

/// The range kind that a beat contributes to `effect`, if any.
pub open spec fn spec_auto_kind(effect: AutoRange, beat: SpanBeat) -> Option<SpanKindView> {
    match effect {
        AutoRange::PalmMute => if any_palm_mute(beat.notes@) {
            Some(SpanKindView::PalmMute)
        } else {
            None
        },
        AutoRange::LetRing => if any_let_ring(beat.notes@) {
            Some(SpanKindView::LetRing)
        } else {
            None
        },
        AutoRange::Rasgueado => if beat.rasgueado {
            Some(SpanKindView::Rasgueado)
        } else {
            None
        },
        AutoRange::Ottava => match beat.ottava {
            Some(o) => Some(SpanKindView::Ottava(o)),
            None => None,
        },
        AutoRange::Crescendo => match beat.crescendo {
            Some(true) => Some(SpanKindView::Crescendo),
            Some(false) => Some(SpanKindView::Diminuendo),
            None => None,
        },
        AutoRange::Barre => match beat.barre {
            Some(t) => Some(SpanKindView::Text(t@)),
            None => None,
        },
    }
}

/// The view of an optional span kind.
pub open spec fn kind_view(k: Option<SpanKind>) -> Option<SpanKindView> {
    match k {
        Some(k) => Some(k@),
        None => None,
    }
}

impl AutoRange {
    /// The derived ranges, in the order in which preparation emits them.
    pub fn all() -> (r: [AutoRange; 6])
        ensures
            r@ == auto_range_order(),
    {
        let r = [
            AutoRange::PalmMute,
            AutoRange::LetRing,
            AutoRange::Rasgueado,
            AutoRange::Ottava,
            AutoRange::Crescendo,
            AutoRange::Barre,
        ];
        assert(r@ == auto_range_order());
        r
    }

    /// Reads the local mark that contributes to this derived range.
    pub fn kind(self, beat: &SpanBeat) -> (r: Option<SpanKind>)
        ensures
            kind_view(r) == spec_auto_kind(self, *beat),
    {
        match self {
            AutoRange::PalmMute => {
                let mut i: usize = 0;
                while i < beat.notes.len()
                    invariant
                        i <= beat.notes.len(),
                        self == AutoRange::PalmMute,
                        forall|j: int| 0 <= j < i ==> !(#[trigger] beat.notes@[j]).palm_mute,
                    decreases beat.notes.len() - i,
                {
                    if beat.notes[i].palm_mute {
                        assert(beat.notes@[i as int].palm_mute);
                        return Some(SpanKind::PalmMute);
                    }
                    i = i + 1;
                }
                None
            },
            AutoRange::LetRing => {
                let mut i: usize = 0;
                while i < beat.notes.len()
                    invariant
                        i <= beat.notes.len(),
                        self == AutoRange::LetRing,
                        forall|j: int| 0 <= j < i ==> !(#[trigger] beat.notes@[j]).let_ring,
                    decreases beat.notes.len() - i,
                {
                    if beat.notes[i].let_ring {
                        assert(beat.notes@[i as int].let_ring);
                        return Some(SpanKind::LetRing);
                    }
                    i = i + 1;
                }
                None
            },
            AutoRange::Rasgueado => if beat.rasgueado {
                Some(SpanKind::Rasgueado)
            } else {
                None
            },
            AutoRange::Ottava => match beat.ottava {
                Some(o) => Some(SpanKind::Ottava(o)),
                None => None,
            },
            AutoRange::Crescendo => match beat.crescendo {
                Some(true) => Some(SpanKind::Crescendo),
                Some(false) => Some(SpanKind::Diminuendo),
                None => None,
            },
            AutoRange::Barre => match &beat.barre {
                Some(t) => Some(SpanKind::Text(t.clone())),
                None => None,
            },
        }
    }
}

/// Rendering facts derived once from a track: the spans generated from
/// beat-local marks. The track itself is never rewritten.
#[derive(Clone, Debug)]
pub struct RenderState {
    /// Legato and effect-range spans derived during preparation.
    pub generated_spans: Vec<Span>,
}

/// A copy of a span with the same view.
pub fn copy_span(span: &Span) -> (r: Span)
    ensures
        r@ == span@,
{
    let kind = match &span.kind {
        SpanKind::Slur { start_note, end_note } => SpanKind::Slur {
            start_note: *start_note,
            end_note: *end_note,
        },
        SpanKind::Legato { start_note, end_note, text } => SpanKind::Legato {
            start_note: *start_note,
            end_note: *end_note,
            text: text.clone(),
        },
        SpanKind::Crescendo => SpanKind::Crescendo,
        SpanKind::Diminuendo => SpanKind::Diminuendo,
        SpanKind::Ottava(o) => SpanKind::Ottava(*o),
        SpanKind::PalmMute => SpanKind::PalmMute,
        SpanKind::LetRing => SpanKind::LetRing,
        SpanKind::Pedal => SpanKind::Pedal,
        SpanKind::Trill => SpanKind::Trill,
        SpanKind::Vibrato => SpanKind::Vibrato,
        SpanKind::Rasgueado => SpanKind::Rasgueado,
        SpanKind::Text(t) => SpanKind::Text(t.clone()),
        SpanKind::Beam => SpanKind::Beam,
    };
    Span { start: span.start, end: span.end, kind, placement: span.placement }
}

/// In slash notation, slurs and legato spans attach outside their chords.
pub open spec fn slashed(s: SpanView) -> SpanView {
    match s.kind {
        SpanKindView::Slur { .. } => SpanView {
            kind: SpanKindView::Slur { start_note: None, end_note: None },
            ..s
        },
        SpanKindView::Legato { text, .. } => SpanView {
            kind: SpanKindView::Legato { start_note: None, end_note: None, text },
            ..s
        },
        _ => s,
    }
}

/// Beams, slurs and legato spans are drawn even when effects are hidden.
pub open spec fn is_connection(k: SpanKindView) -> bool {
    k is Beam || k is Slur || k is Legato
}

/// The first `k` of `all`, adjusted for slash notation when `slash` holds and
/// keeping only connections when effects are hidden.
pub open spec fn shown_spans(all: Seq<SpanView>, slash: bool, effects: bool, k: int) -> Seq<
    SpanView,
>
    decreases k,
{
    if k <= 0 {
        Seq::empty()
    } else {
        let prev = shown_spans(all, slash, effects, k - 1);
        let v = if slash {
            slashed(all[k - 1])
        } else {
            all[k - 1]
        };
        if effects || is_connection(v.kind) {
            prev.push(v)
        } else {
            prev
        }
    }
}

fn shown_span(span: &Span, slash: bool) -> (r: Span)
    ensures
        r@ == (if slash {
            slashed(span@)
        } else {
            span@
        }),
{
    let copy = copy_span(span);
    if !slash {
        return copy;
    }
    let kind = match copy.kind {
        SpanKind::Slur { .. } => SpanKind::Slur { start_note: None, end_note: None },
        SpanKind::Legato { text, .. } => SpanKind::Legato { start_note: None, end_note: None, text },
        other => other,
    };
    Span { start: copy.start, end: copy.end, kind, placement: copy.placement }
}

fn push_shown(result: &mut Vec<Span>, source: &Span, slash: bool, effects: bool)
    ensures
        ({
            let v = if slash {
                slashed(source@)
            } else {
                source@
            };
            span_views(final(result)@) == if effects || is_connection(v.kind) {
                span_views(old(result)@).push(v)
            } else {
                span_views(old(result)@)
            }
        }),
{
    let shown = shown_span(source, slash);
    let keep = effects || matches!(shown.kind, SpanKind::Beam)
        || matches!(shown.kind, SpanKind::Slur { .. })
        || matches!(shown.kind, SpanKind::Legato { .. });
    let ghost before = result@;
    if keep {
        result.push(shown);
        assert(span_views(result@) =~= span_views(before).push(shown@));
    }
}

/// Checks the explicit spans and the display transposition of a track, then
/// derives the legato and effect-range spans. The first problem found, in the
/// order of the checks, is the error.
pub fn prepare(track: &SpanTrack, display_transposition: i8) -> (r: Result<RenderState, RenderError>)
    ensures
        r is Ok <==> checks::spans_problem(track.bars@, track.spans@) is None
            && checks::transposition_problem(track.bars@, display_transposition as int) is None,
        r matches Ok(state) ==> span_views(state.generated_spans@) == derived::spec_derived_spans(
            track.bars@,
        ),
        r matches Err(e) ==> e.kind == ErrorKind::InvalidInput && e.message@ == (
        match checks::spans_problem(track.bars@, track.spans@) {
            Some(m) => m,
            None => checks::transposition_problem(
                track.bars@,
                display_transposition as int,
            ).unwrap(),
        }),
{
    match checks::validate_spans(track) {
        Ok(()) => {},
        Err(e) => return Err(e),
    }
    match checks::validate_transposition(track, display_transposition) {
        Ok(()) => {},
        Err(e) => return Err(e),
    }
    Ok(RenderState { generated_spans: derived::derived_spans(track) })
}

impl RenderState {
    /// The notes of one beat as `request` shows them: as written where the
    /// request changes nothing, else as [`shown_notes`] gives them, failing
    /// on the first note with a pitch that names no MIDI note.
    pub fn beat(&self, notes: &Vec<DisplayNote>, request: DisplayRequest) -> (r: Result<
        Vec<DisplayNote>,
        RenderError,
    >)
        ensures
            r is Err <==> request.spec_changes_beats() && exists|i: int|
                0 <= i < notes@.len() && note_fails(#[trigger] note_views(notes@)[i]),
            r matches Ok(v) ==> note_views(v@) == (if request.spec_changes_beats() {
                shown_notes(note_views(notes@), request)
            } else {
                note_views(notes@)
            }),
            r matches Err(e) ==> e.kind == ErrorKind::InvalidInput && exists|i: int|
                first_failing(note_views(notes@), i) && e.message@ == note_message(
                    note_views(notes@)[i],
                ),
    {
        display_notes(notes, request)
    }

    /// The spans to draw: the track's explicit spans followed by the derived
    /// ones. In slash notation slurs and legato spans lose their note anchors;
    /// with effects hidden only beams, slurs and legato spans remain.
    pub fn spans(&self, track_spans: &Vec<Span>, slash: bool, effects: bool) -> (r: Vec<Span>)
        ensures
            span_views(r@) == shown_spans(
                span_views(track_spans@ + self.generated_spans@),
                slash,
                effects,
                (track_spans@.len() + self.generated_spans@.len()) as int,
            ),
    {
        let ghost all = span_views(track_spans@ + self.generated_spans@);
        let n = track_spans.len();
        let mut result: Vec<Span> = Vec::new();
        let mut i: usize = 0;
        while i < n
            invariant
                n == track_spans@.len(),
                all == span_views(track_spans@ + self.generated_spans@),
                i <= n,
                span_views(result@) == shown_spans(all, slash, effects, i as int),
            decreases n - i,
        {
            assert(track_spans@[i as int]@ == all[i as int]);
            push_shown(&mut result, &track_spans[i], slash, effects);
            i = i + 1;
        }
        let mut j: usize = 0;
        while j < self.generated_spans.len()
            invariant
                n == track_spans@.len(),
                all == span_views(track_spans@ + self.generated_spans@),
                j <= self.generated_spans@.len(),
                span_views(result@) == shown_spans(all, slash, effects, n + j),
            decreases self.generated_spans.len() - j,
        {
            assert(self.generated_spans@[j as int]@ == all[n + j]);
            push_shown(&mut result, &self.generated_spans[j], slash, effects);
            j = j + 1;
        }
        result
    }
}

} // verus!
