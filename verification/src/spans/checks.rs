//! The checks that explicit spans and display transposition must pass.
use super::{beat_at, contains, covers, position_le, SpanBeat, SpanKindView, SpanNote, SpanTrack};
use crate::error::{ErrorKind, RenderError};
use crate::notation::{Pitch, Span, SpanKind, StemDirection};
use crate::text::{decimal, spec_decimal, string_from_chars};
use crate::track::BeatAddress;
use vstd::prelude::*;

verus! {

/// The first problem reported among the first `k` items of `s`, scanning in order.
pub open spec fn first_some<A, E>(s: Seq<A>, f: spec_fn(A) -> Option<E>, k: int) -> Option<E>
    decreases k,
{
    if k <= 0 {
        None
    } else {
        match first_some(s, f, k - 1) {
            Some(m) => Some(m),
            None => f(s[k - 1]),
        }
    }
}

/// Once a problem is found, scanning further items reports the same problem.
pub proof fn lemma_first_some_stable<A, E>(
    s: Seq<A>,
    f: spec_fn(A) -> Option<E>,
    k: int,
    n: int,
)
    requires
        0 <= k <= n,
        first_some(s, f, k) is Some,
    ensures
        first_some(s, f, n) == first_some(s, f, k),
    decreases n - k,
{
    if k < n {
        lemma_first_some_stable(s, f, k, n - 1);
    }
}

/// The first problem reported for the indices `0 .. k`, scanning in order.
pub open spec fn first_at<E>(f: spec_fn(int) -> Option<E>, k: int) -> Option<E>
    decreases k,
{
    if k <= 0 {
        None
    } else {
        match first_at(f, k - 1) {
            Some(m) => Some(m),
            None => f(k - 1),
        }
    }
}

/// Once a problem is found, scanning further indices reports the same problem.
pub proof fn lemma_first_at_stable<E>(f: spec_fn(int) -> Option<E>, k: int, n: int)
    requires
        0 <= k <= n,
        first_at(f, k) is Some,
    ensures
        first_at(f, n) == first_at(f, k),
    decreases n - k,
{
    if k < n {
        lemma_first_at_stable(f, k, n - 1);
    }
}

/// When no problem is reported among the first `k` items, none of them has one.
pub proof fn lemma_first_some_none<A, E>(s: Seq<A>, f: spec_fn(A) -> Option<E>, k: int, i: int)
    requires
        0 <= i < k,
        first_some(s, f, k) is None,
    ensures
        f(s[i]) is None,
    decreases k - i,
{
    if i < k - 1 {
        lemma_first_some_none(s, f, k - 1, i);
    }
}

/// The message for an endpoint that names no beat; the address is written as
/// the debug form of the track's address, whose bar field is named `measure`.
pub open spec fn endpoint_message(a: BeatAddress) -> Seq<char> {
    "invalid span endpoint BeatAddress { measure: "@ + spec_decimal(a.bar as nat) + ", voice: "@
        + spec_decimal(a.voice as nat) + ", beat: "@ + spec_decimal(a.beat as nat) + " }"@
}

/// A slur or legato span whose endpoint chords cannot anchor it: a chord is
/// empty or a note index is outside its chord.
pub open spec fn slur_problem(kind: SpanKindView, first: SpanBeat, last: SpanBeat) -> bool {
    match kind {
        SpanKindView::Slur { start_note, end_note } | SpanKindView::Legato {
            start_note,
            end_note,
            ..
        } => {
            ||| first.notes@.len() == 0
            ||| last.notes@.len() == 0
            ||| (start_note matches Some(i) && i >= first.notes@.len())
            ||| (end_note matches Some(i) && i >= last.notes@.len())
        },
        _ => false,
    }
}

/// A beat inside an explicit beam that cannot be beamed: a rest, a note of a
/// quarter or longer, or a stem direction other than the first beat's.
pub open spec fn unbeamable(beat: SpanBeat, stem: StemDirection) -> bool {
    beat.notes@.len() == 0 || beat.duration.value < 8 || beat.stem != stem
}

/// Beat `beat` of bar `bar`, in the span's voice, is covered by the span and unbeamable.
pub open spec fn bad_beam_beat(
    bars: Seq<Vec<Vec<SpanBeat>>>,
    span: Span,
    stem: StemDirection,
    bar: int,
    beat: int,
) -> bool {
    let v = span.start.voice as int;
    &&& 0 <= bar < bars.len()
    &&& v < bars[bar]@.len()
    &&& 0 <= beat < bars[bar]@[v]@.len()
    &&& covers(
        span.start,
        span.end,
        BeatAddress { bar: bar as usize, voice: span.start.voice, beat: beat as usize },
    )
    &&& unbeamable(bars[bar]@[v]@[beat], stem)
}

/// Some beat covered by the beam cannot be beamed.
pub open spec fn beam_has_bad_beat(
    bars: Seq<Vec<Vec<SpanBeat>>>,
    span: Span,
    stem: StemDirection,
) -> bool {
    exists|bar: int, beat: int| #[trigger] bad_beam_beat(bars, span, stem, bar, beat)
}

/// What is wrong with one explicit span, checked in this order: its endpoints
/// exist, are ordered in one voice, anchor a slur, and bound a beamable group.
pub open spec fn span_problem(bars: Seq<Vec<Vec<SpanBeat>>>, span: Span) -> Option<Seq<char>> {
    let first = beat_at(bars, span.start);
    let last = beat_at(bars, span.end);
    if first is None {
        Some(endpoint_message(span.start))
    } else if last is None {
        Some(endpoint_message(span.end))
    } else if span.start.voice != span.end.voice || !position_le(
        span.start.bar as int,
        span.start.beat as int,
        span.end.bar as int,
        span.end.beat as int,
    ) {
        Some("span endpoints must be ordered in the same voice"@)
    } else if slur_problem(span.kind@, first.unwrap(), last.unwrap()) {
        Some("slur endpoints must reference notes"@)
    } else if span.kind@ is Beam && span.start == span.end {
        Some("a beam group needs at least two beats"@)
    } else if span.kind@ is Beam && beam_has_bad_beat(bars, span, first.unwrap().stem) {
        Some("explicit beams require short notes with a consistent stem direction"@)
    } else {
        None
    }
}

/// Two explicit beams share a beat: either one covers the other's first beat.
pub open spec fn beams_overlap(a: Span, b: Span) -> bool {
    &&& a.kind@ is Beam
    &&& b.kind@ is Beam
    &&& (covers(b.start, b.end, a.start) || covers(a.start, a.end, b.start))
}

/// Some explicit beam overlaps an earlier one.
pub open spec fn has_beam_overlap(spans: Seq<Span>) -> bool {
    exists|i: int, j: int| 0 <= j < i < spans.len() && #[trigger] beams_overlap(spans[j], spans[i])
}

/// The first problem of the explicit spans: the first span that fails its own
/// checks, or else an overlap of two beams.
pub open spec fn spans_problem(bars: Seq<Vec<Vec<SpanBeat>>>, spans: Seq<Span>) -> Option<
    Seq<char>,
> {
    match first_some(spans, |s: Span| span_problem(bars, s), spans.len() as int) {
        Some(m) => Some(m),
        None => if has_beam_overlap(spans) {
            Some("explicit beam groups cannot overlap"@)
        } else {
            None
        },
    }
}

fn invalid(message: &str) -> (e: RenderError)
    ensures
        e.kind == ErrorKind::InvalidInput,
        e.message@ == message@,
{
    RenderError::invalid_input(String::from_str(message))
}

fn append_decimal(out: &mut String, n: usize)
    ensures
        final(out)@ == old(out)@ + spec_decimal(n as nat),
{
    let digits = string_from_chars(&decimal(n as u64));
    out.append(digits.as_str());
}

fn endpoint_error(a: BeatAddress) -> (e: RenderError)
    ensures
        e.kind == ErrorKind::InvalidInput,
        e.message@ == endpoint_message(a),
{
    let mut m = String::from_str("invalid span endpoint BeatAddress { measure: ");
    append_decimal(&mut m, a.bar);
    m.append(", voice: ");
    append_decimal(&mut m, a.voice);
    m.append(", beat: ");
    append_decimal(&mut m, a.beat);
    m.append(" }");
    RenderError::invalid_input(m)
}

fn beat_of(track: &SpanTrack, a: BeatAddress) -> (r: Result<&SpanBeat, RenderError>)
    ensures
        r matches Ok(b) ==> beat_at(track.bars@, a) == Some(*b),
        r matches Err(e) ==> beat_at(track.bars@, a) is None && e.kind == ErrorKind::InvalidInput
            && e.message@ == endpoint_message(a),
{
    if a.bar < track.bars.len() && a.voice < track.bars[a.bar].len() && a.beat
        < track.bars[a.bar][a.voice].len() {
        Ok(&track.bars[a.bar][a.voice][a.beat])
    } else {
        Err(endpoint_error(a))
    }
}

fn slur_anchor_fails(kind: &SpanKind, first: &SpanBeat, last: &SpanBeat) -> (r: bool)
    ensures
        r == slur_problem(kind@, *first, *last),
{
    match kind {
        SpanKind::Slur { start_note, end_note } | SpanKind::Legato {
            start_note,
            end_note,
            ..
        } => {
            let bad_start = match start_note {
                Some(i) => *i >= first.notes.len(),
                None => false,
            };
            let bad_end = match end_note {
                Some(i) => *i >= last.notes.len(),
                None => false,
            };
            first.notes.len() == 0 || last.notes.len() == 0 || bad_start || bad_end
        },
        _ => false,
    }
}

fn find_bad_beam_beat(track: &SpanTrack, span: &Span, stem: StemDirection) -> (r: bool)
    ensures
        r == beam_has_bad_beat(track.bars@, *span, stem),
{
    let v = span.start.voice;
    let mut bar: usize = 0;
    while bar < track.bars.len()
        invariant
            bar <= track.bars.len(),
            v == span.start.voice,
            forall|m: int, b: int|
                #![trigger bad_beam_beat(track.bars@, *span, stem, m, b)]
                m < bar ==> !bad_beam_beat(track.bars@, *span, stem, m, b),
        decreases track.bars.len() - bar,
    {
        if v < track.bars[bar].len() {
            let beats = &track.bars[bar][v];
            let mut beat: usize = 0;
            while beat < beats.len()
                invariant
                    bar < track.bars.len(),
                    v == span.start.voice,
                    v < track.bars@[bar as int]@.len(),
                    *beats == track.bars@[bar as int]@[v as int],
                    beat <= beats.len(),
                    forall|m: int, b: int|
                        #![trigger bad_beam_beat(track.bars@, *span, stem, m, b)]
                        m < bar ==> !bad_beam_beat(track.bars@, *span, stem, m, b),
                    forall|b: int|
                        b < beat ==> !#[trigger] bad_beam_beat(
                            track.bars@,
                            *span,
                            stem,
                            bar as int,
                            b,
                        ),
                decreases beats.len() - beat,
            {
                let item = &beats[beat];
                let address = BeatAddress { bar, voice: v, beat };
                if contains(span, address) && (item.notes.len() == 0 || item.duration.value < 8
                    || item.stem != stem) {
                    assert(bad_beam_beat(track.bars@, *span, stem, bar as int, beat as int));
                    return true;
                }
                beat = beat + 1;
            }
            assert forall|m: int, b: int| m < bar + 1 implies !#[trigger] bad_beam_beat(
                track.bars@,
                *span,
                stem,
                m,
                b,
            ) by {
                if m == bar && 0 <= b < beats@.len() {
                    assert(!bad_beam_beat(track.bars@, *span, stem, bar as int, b));
                }
            }
        }
        bar = bar + 1;
    }
    false
}

fn check_span(track: &SpanTrack, span: &Span) -> (r: Result<(), RenderError>)
    ensures
        r is Ok <==> span_problem(track.bars@, *span) is None,
        r matches Err(e) ==> e.kind == ErrorKind::InvalidInput && span_problem(
            track.bars@,
            *span,
        ) == Some(e.message@),
{
    let first = match beat_of(track, span.start) {
        Ok(b) => b,
        Err(e) => return Err(e),
    };
    let last = match beat_of(track, span.end) {
        Ok(b) => b,
        Err(e) => return Err(e),
    };
    let ordered = span.start.bar < span.end.bar || (span.start.bar == span.end.bar
        && span.start.beat <= span.end.beat);
    if span.start.voice != span.end.voice || !ordered {
        return Err(invalid("span endpoints must be ordered in the same voice"));
    }
    if slur_anchor_fails(&span.kind, first, last) {
        return Err(invalid("slur endpoints must reference notes"));
    }
    if matches!(span.kind, SpanKind::Beam) {
        if span.start == span.end {
            return Err(invalid("a beam group needs at least two beats"));
        }
        if find_bad_beam_beat(track, span, first.stem) {
            return Err(
                invalid("explicit beams require short notes with a consistent stem direction"),
            );
        }
    }
    Ok(())
}

/// Checks the explicit spans of a track: each span in order, then that no two
/// explicit beams overlap.
pub fn validate_spans(track: &SpanTrack) -> (r: Result<(), RenderError>)
    ensures
        r is Ok <==> spans_problem(track.bars@, track.spans@) is None,
        r matches Err(e) ==> e.kind == ErrorKind::InvalidInput && spans_problem(
            track.bars@,
            track.spans@,
        ) == Some(e.message@),
{
    let ghost f = |s: Span| span_problem(track.bars@, s);
    let n = track.spans.len();
    let mut i: usize = 0;
    while i < n
        invariant
            n == track.spans@.len(),
            i <= n,
            f == (|s: Span| span_problem(track.bars@, s)),
            first_some(track.spans@, f, i as int) is None,
        decreases n - i,
    {
        match check_span(track, &track.spans[i]) {
            Ok(()) => {},
            Err(e) => {
                proof {
                    assert(first_some(track.spans@, f, i + 1) == Some(e.message@));
                    lemma_first_some_stable(track.spans@, f, i + 1, n as int);
                }
                return Err(e);
            },
        }
        i = i + 1;
    }
    let mut i: usize = 0;
    while i < n
        invariant
            n == track.spans@.len(),
            i <= n,
            first_some(track.spans@, f, n as int) is None,
            f == (|s: Span| span_problem(track.bars@, s)),
            forall|a: int, b: int|
                0 <= b < a < i ==> !#[trigger] beams_overlap(track.spans@[b], track.spans@[a]),
        decreases n - i,
    {
        if matches!(track.spans[i].kind, SpanKind::Beam) {
            let mut j: usize = 0;
            while j < i
                invariant
                    n == track.spans@.len(),
                    i < n,
                    j <= i,
                    first_some(track.spans@, f, n as int) is None,
                    f == (|s: Span| span_problem(track.bars@, s)),
                    track.spans@[i as int].kind@ is Beam,
                    forall|b: int|
                        0 <= b < j ==> !#[trigger] beams_overlap(
                            track.spans@[b],
                            track.spans@[i as int],
                        ),
                decreases i - j,
            {
                let other = &track.spans[j];
                if matches!(other.kind, SpanKind::Beam) && (contains(&track.spans[i], other.start)
                    || contains(other, track.spans[i].start)) {
                    assert(beams_overlap(track.spans@[j as int], track.spans@[i as int]));
                    return Err(invalid("explicit beam groups cannot overlap"));
                }
                j = j + 1;
            }
        }
        i = i + 1;
    }
    Ok(())
}

/// What is wrong with one optional pitch under a display transposition of
/// `t` semitones: it names no MIDI note, or the transposed note leaves 0..=127.
pub open spec fn pitch_problem(p: Option<Pitch>, t: int) -> Option<Seq<char>> {
    match p {
        None => None,
        Some(p) => if p.step > 6 {
            Some("invalid pitch step"@)
        } else if !(0 <= p.semitones() <= 127) {
            Some("pitch outside MIDI range"@)
        } else if !(0 <= p.semitones() + t <= 127) {
            Some("display transposition moves a pitch outside MIDI range"@)
        } else {
            None
        },
    }
}

/// The first transposition problem of a note: its pitch, then its grace pitch,
/// then its harmonic pitch.
pub open spec fn note_problem(n: SpanNote, t: int) -> Option<Seq<char>> {
    match pitch_problem(n.pitch, t) {
        Some(m) => Some(m),
        None => match pitch_problem(n.grace_pitch, t) {
            Some(m) => Some(m),
            None => pitch_problem(n.harmonic_pitch, t),
        },
    }
}

/// The first transposition problem among the notes of a beat.
pub open spec fn beat_problem(b: SpanBeat, t: int) -> Option<Seq<char>> {
    first_some(b.notes@, |n: SpanNote| note_problem(n, t), b.notes@.len() as int)
}

/// The first transposition problem among the beats of a voice.
pub open spec fn voice_problem(v: Vec<SpanBeat>, t: int) -> Option<Seq<char>> {
    first_some(v@, |b: SpanBeat| beat_problem(b, t), v@.len() as int)
}

/// The first transposition problem among the voices of a bar.
pub open spec fn bar_problem(bar: Vec<Vec<SpanBeat>>, t: int) -> Option<Seq<char>> {
    first_some(bar@, |v: Vec<SpanBeat>| voice_problem(v, t), bar@.len() as int)
}

/// The first pitch of the track, in bar, voice, beat and note order, that a
/// display transposition of `t` semitones cannot show; none when `t` is zero.
pub open spec fn transposition_problem(bars: Seq<Vec<Vec<SpanBeat>>>, t: int) -> Option<
    Seq<char>,
> {
    if t == 0 {
        None
    } else {
        first_some(bars, |bar: Vec<Vec<SpanBeat>>| bar_problem(bar, t), bars.len() as int)
    }
}

fn check_pitch(p: Option<Pitch>, t: i8) -> (r: Result<(), RenderError>)
    ensures
        r is Ok <==> pitch_problem(p, t as int) is None,
        r matches Err(e) ==> e.kind == ErrorKind::InvalidInput && pitch_problem(p, t as int)
            == Some(e.message@),
{
    match p {
        None => Ok(()),
        Some(pitch) => {
            let midi = match pitch.to_midi() {
                Ok(m) => m,
                Err(e) => return Err(e),
            };
            let value: i16 = midi as i16 + t as i16;
            if value < 0 || value > 127 {
                Err(invalid("display transposition moves a pitch outside MIDI range"))
            } else {
                Ok(())
            }
        },
    }
}

fn check_note(n: &SpanNote, t: i8) -> (r: Result<(), RenderError>)
    ensures
        r is Ok <==> note_problem(*n, t as int) is None,
        r matches Err(e) ==> e.kind == ErrorKind::InvalidInput && note_problem(*n, t as int)
            == Some(e.message@),
{
    match check_pitch(n.pitch, t) {
        Ok(()) => {},
        Err(e) => return Err(e),
    }
    match check_pitch(n.grace_pitch, t) {
        Ok(()) => {},
        Err(e) => return Err(e),
    }
    check_pitch(n.harmonic_pitch, t)
}

fn check_beat(b: &SpanBeat, t: i8) -> (r: Result<(), RenderError>)
    ensures
        r is Ok <==> beat_problem(*b, t as int) is None,
        r matches Err(e) ==> e.kind == ErrorKind::InvalidInput && beat_problem(*b, t as int)
            == Some(e.message@),
{
    let ghost f = |n: SpanNote| note_problem(n, t as int);
    let mut i: usize = 0;
    while i < b.notes.len()
        invariant
            i <= b.notes.len(),
            f == (|n: SpanNote| note_problem(n, t as int)),
            first_some(b.notes@, f, i as int) is None,
        decreases b.notes.len() - i,
    {
        match check_note(&b.notes[i], t) {
            Ok(()) => {},
            Err(e) => {
                proof {
                    lemma_first_some_stable(b.notes@, f, i + 1, b.notes@.len() as int);
                }
                return Err(e);
            },
        }
        i = i + 1;
    }
    Ok(())
}

fn check_voice(v: &Vec<SpanBeat>, t: i8) -> (r: Result<(), RenderError>)
    ensures
        r is Ok <==> voice_problem(*v, t as int) is None,
        r matches Err(e) ==> e.kind == ErrorKind::InvalidInput && voice_problem(*v, t as int)
            == Some(e.message@),
{
    let ghost f = |b: SpanBeat| beat_problem(b, t as int);
    let mut i: usize = 0;
    while i < v.len()
        invariant
            i <= v.len(),
            f == (|b: SpanBeat| beat_problem(b, t as int)),
            first_some(v@, f, i as int) is None,
        decreases v.len() - i,
    {
        match check_beat(&v[i], t) {
            Ok(()) => {},
            Err(e) => {
                proof {
                    lemma_first_some_stable(v@, f, i + 1, v@.len() as int);
                }
                return Err(e);
            },
        }
        i = i + 1;
    }
    Ok(())
}

fn check_bar(bar: &Vec<Vec<SpanBeat>>, t: i8) -> (r: Result<(), RenderError>)
    ensures
        r is Ok <==> bar_problem(*bar, t as int) is None,
        r matches Err(e) ==> e.kind == ErrorKind::InvalidInput && bar_problem(*bar, t as int)
            == Some(e.message@),
{
    let ghost f = |v: Vec<SpanBeat>| voice_problem(v, t as int);
    let mut i: usize = 0;
    while i < bar.len()
        invariant
            i <= bar.len(),
            f == (|v: Vec<SpanBeat>| voice_problem(v, t as int)),
            first_some(bar@, f, i as int) is None,
        decreases bar.len() - i,
    {
        match check_voice(&bar[i], t) {
            Ok(()) => {},
            Err(e) => {
                proof {
                    lemma_first_some_stable(bar@, f, i + 1, bar@.len() as int);
                }
                return Err(e);
            },
        }
        i = i + 1;
    }
    Ok(())
}

/// Checks that every pitch of the track can be shown transposed by
/// `transposition` semitones: each names a MIDI note and stays within 0..=127.
pub fn validate_transposition(track: &SpanTrack, transposition: i8) -> (r: Result<(), RenderError>)
    ensures
        r is Ok <==> transposition_problem(track.bars@, transposition as int) is None,
        r matches Err(e) ==> e.kind == ErrorKind::InvalidInput && transposition_problem(
            track.bars@,
            transposition as int,
        ) == Some(e.message@),
{
    if transposition == 0 {
        return Ok(());
    }
    let ghost f = |bar: Vec<Vec<SpanBeat>>| bar_problem(bar, transposition as int);
    let mut i: usize = 0;
    while i < track.bars.len()
        invariant
            i <= track.bars.len(),
            transposition != 0,
            f == (|bar: Vec<Vec<SpanBeat>>| bar_problem(bar, transposition as int)),
            first_some(track.bars@, f, i as int) is None,
        decreases track.bars.len() - i,
    {
        match check_bar(&track.bars[i], transposition) {
            Ok(()) => {},
            Err(e) => {
                proof {
                    lemma_first_some_stable(track.bars@, f, i + 1, track.bars@.len() as int);
                }
                return Err(e);
            },
        }
        i = i + 1;
    }
    Ok(())
}

/// A pitch that display transposition by `t` can show: it names a MIDI note
/// and the transposed note stays within 0..=127.
pub open spec fn transposable(p: Option<Pitch>, t: int) -> bool {
    match p {
        Some(p) => p.is_midi() && 0 <= p.semitones() + t <= 127,
        None => true,
    }
}

/// After a track passes the display-transposition check for a nonzero
/// transposition `t`, every written, grace and harmonic pitch of every note
/// can be shown transposed by `t`.
pub proof fn checked_pitches_can_be_transposed(
    bars: Seq<Vec<Vec<SpanBeat>>>,
    t: int,
    bar: int,
    voice: int,
    beat: int,
    note: int,
)
    requires
        t != 0,
        transposition_problem(bars, t) is None,
        0 <= bar < bars.len(),
        0 <= voice < bars[bar]@.len(),
        0 <= beat < bars[bar]@[voice]@.len(),
        0 <= note < bars[bar]@[voice]@[beat].notes@.len(),
    ensures
        ({
            let n = bars[bar]@[voice]@[beat].notes@[note];
            transposable(n.pitch, t) && transposable(n.grace_pitch, t) && transposable(
                n.harmonic_pitch,
                t,
            )
        }),
{
    let bar_v = bars[bar];
    let voice_v = bar_v@[voice];
    let beat_v = voice_v@[beat];
    lemma_first_some_none(
        bars,
        |b: Vec<Vec<SpanBeat>>| bar_problem(b, t),
        bars.len() as int,
        bar,
    );
    lemma_first_some_none(
        bar_v@,
        |v: Vec<SpanBeat>| voice_problem(v, t),
        bar_v@.len() as int,
        voice,
    );
    lemma_first_some_none(
        voice_v@,
        |b: SpanBeat| beat_problem(b, t),
        voice_v@.len() as int,
        beat,
    );
    lemma_first_some_none(
        beat_v.notes@,
        |n: SpanNote| note_problem(n, t),
        beat_v.notes@.len() as int,
        note,
    );
}

} // verus!
