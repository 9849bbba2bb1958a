//! Spans derived from beat-local marks: legato connections between
//! consecutive notes on a string, and contiguous effect ranges.
use super::{
    auto_range_order, kind_view, same_range_kind, range_placement, span_views,
    spec_auto_kind, spec_range_placement, spec_same_range_kind, AutoRange, SpanBeat,
    SpanKindView, SpanNote, SpanTrack, SpanView,
};
use super::checks::slur_problem;
use super::{beat_at, position_le};
use crate::notation::{Placement, Span, SpanKind};
use crate::track::{BeatAddress, Fret};
use vstd::prelude::*;

verus! {

/// The last note seen on one string of one voice.
#[derive(Clone, Copy, Debug, PartialEq, Eq, Structural)]
pub struct LegatoMark {
    /// Beat that holds the note.
    pub start: BeatAddress,
    /// Index of the note in its chord.
    pub note: usize,
    /// Fret number of the note; a dead note counts as fret zero.
    pub fret: u16,
    /// The note hammers on or pulls off to the next one.
    pub hammer: bool,
    /// The note slides to the next one.
    pub slide: bool,
}

/// The fret number that legato direction is judged by.
pub open spec fn fret_value(f: Fret) -> u16 {
    match f {
        Fret::Number(v) | Fret::Tied(v) => v,
        Fret::Dead => 0,
    }
}

/// The legato span from the note marked `prior` to note `note` of beat `a`:
/// `H` for a hammer-on up the neck, `P` for a pull-off, `sl.` for a slide.
pub open spec fn legato_view(prior: LegatoMark, a: BeatAddress, note: usize, fret: u16) -> SpanView {
    SpanView {
        start: prior.start,
        end: a,
        kind: SpanKindView::Legato {
            start_note: Some(prior.note),
            end_note: Some(note),
            text: if prior.hammer {
                if fret > prior.fret {
                    "H"@
                } else {
                    "P"@
                }
            } else {
                "sl."@
            },
        },
        placement: Placement::Above,
    }
}

/// Legato pass state: spans emitted so far and the last note per (voice, string).
pub type LegatoState = (Seq<SpanView>, Map<(usize, usize), LegatoMark>);

/// One note of the legato pass: a span from the previous note on the same
/// voice and string when that note hammers or slides, then this note becomes
/// the previous one.
pub open spec fn legato_step(st: LegatoState, a: BeatAddress, index: usize, n: SpanNote) -> LegatoState {
    let key = (a.voice, n.string);
    let fret = fret_value(n.fret);
    let spans = if st.1.contains_key(key) && (st.1[key].hammer || st.1[key].slide) {
        st.0.push(legato_view(st.1[key], a, index, fret))
    } else {
        st.0
    };
    let mark = LegatoMark {
        start: a,
        note: index,
        fret,
        hammer: n.hammer_on,
        slide: n.slide_legato,
    };
    (spans, st.1.insert(key, mark))
}

/// The legato pass over the first `k` notes of beat `beat` of voice `voice` of bar `bar`.
pub open spec fn legato_notes(
    st: LegatoState,
    bar: usize,
    voice: usize,
    beat: usize,
    notes: Seq<SpanNote>,
    k: int,
) -> LegatoState
    decreases k,
{
    if k <= 0 {
        st
    } else {
        legato_step(
            legato_notes(st, bar, voice, beat, notes, k - 1),
            BeatAddress { bar, voice, beat },
            (k - 1) as usize,
            notes[k - 1],
        )
    }
}

/// The legato pass over the first `k` beats of a voice.
pub open spec fn legato_beats(
    st: LegatoState,
    bar: usize,
    voice: usize,
    beats: Seq<SpanBeat>,
    k: int,
) -> LegatoState
    decreases k,
{
    if k <= 0 {
        st
    } else {
        let notes = beats[k - 1].notes@;
        legato_notes(
            legato_beats(st, bar, voice, beats, k - 1),
            bar,
            voice,
            (k - 1) as usize,
            notes,
            notes.len() as int,
        )
    }
}

/// The legato pass over the first `k` voices of a bar.
pub open spec fn legato_voices(
    st: LegatoState,
    bar: usize,
    voices: Seq<Vec<SpanBeat>>,
    k: int,
) -> LegatoState
    decreases k,
{
    if k <= 0 {
        st
    } else {
        let beats = voices[k - 1]@;
        legato_beats(
            legato_voices(st, bar, voices, k - 1),
            bar,
            (k - 1) as usize,
            beats,
            beats.len() as int,
        )
    }
}

/// The legato pass over the first `k` bars.
pub open spec fn legato_bars(st: LegatoState, bars: Seq<Vec<Vec<SpanBeat>>>, k: int) -> LegatoState
    decreases k,
{
    if k <= 0 {
        st
    } else {
        let voices = bars[k - 1]@;
        legato_voices(legato_bars(st, bars, k - 1), (k - 1) as usize, voices, voices.len() as int)
    }
}

/// The legato spans of a track, in the order of their end notes.
pub open spec fn spec_legato_spans(bars: Seq<Vec<Vec<SpanBeat>>>) -> Seq<SpanView> {
    legato_bars((Seq::empty(), Map::empty()), bars, bars.len() as int).0
}

/// The marks of an association list hold exactly the entries of `m`, each key once.
pub open spec fn marks_match(
    list: Seq<((usize, usize), LegatoMark)>,
    m: Map<(usize, usize), LegatoMark>,
) -> bool {
    &&& forall|i: int, j: int|
        0 <= i < list.len() && 0 <= j < list.len() && (#[trigger] list[i]).0 == (
        #[trigger] list[j]).0 ==> i == j
    &&& forall|i: int|
        0 <= i < list.len() ==> m.contains_key((#[trigger] list[i]).0) && m[list[i].0]
            == list[i].1
    &&& forall|k: (usize, usize)|
        #[trigger] m.contains_key(k) ==> exists|i: int| 0 <= i < list.len() && list[i].0 == k
}

struct LegatoPass {
    spans: Vec<Span>,
    marks: Vec<((usize, usize), LegatoMark)>,
    marks_view: Ghost<Map<(usize, usize), LegatoMark>>,
}

impl LegatoPass {
    spec fn wf(&self) -> bool {
        marks_match(self.marks@, self.marks_view@)
    }

    spec fn state(&self) -> LegatoState {
        (span_views(self.spans@), self.marks_view@)
    }

    fn find(&self, key: (usize, usize)) -> (r: Option<usize>)
        requires
            self.wf(),
        ensures
            r matches Some(i) ==> i < self.marks@.len() && self.marks@[i as int].0 == key,
            r is None ==> !self.marks_view@.contains_key(key),
    {
        let mut i: usize = 0;
        while i < self.marks.len()
            invariant
                i <= self.marks@.len(),
                forall|j: int| 0 <= j < i ==> (#[trigger] self.marks@[j]).0 != key,
            decreases self.marks.len() - i,
        {
            if self.marks[i].0.0 == key.0 && self.marks[i].0.1 == key.1 {
                return Some(i);
            }
            i = i + 1;
        }
        None
    }

    fn note(&mut self, a: BeatAddress, index: usize, n: &SpanNote)
        requires
            old(self).wf(),
        ensures
            final(self).wf(),
            final(self).state().0 == legato_step(old(self).state(), a, index, *n).0,
            final(self).state().1 == legato_step(old(self).state(), a, index, *n).1,
    {
        let key = (a.voice, n.string);
        let fret: u16 = match n.fret {
            Fret::Number(v) | Fret::Tied(v) => v,
            Fret::Dead => 0,
        };
        let found = self.find(key);
        let ghost before = self.spans@;
        if let Some(i) = found {
            let prior = self.marks[i].1;
            if prior.hammer || prior.slide {
                let text = if prior.hammer {
                    if fret > prior.fret {
                        String::from_str("H")
                    } else {
                        String::from_str("P")
                    }
                } else {
                    String::from_str("sl.")
                };
                let span = Span {
                    start: prior.start,
                    end: a,
                    kind: SpanKind::Legato {
                        start_note: Some(prior.note),
                        end_note: Some(index),
                        text,
                    },
                    placement: Placement::Above,
                };
                self.spans.push(span);
                assert(span_views(self.spans@) =~= span_views(before).push(span@));
            }
        }
        let mark = LegatoMark {
            start: a,
            note: index,
            fret,
            hammer: n.hammer_on,
            slide: n.slide_legato,
        };
        let ghost old_map = self.marks_view@;
        let ghost old_list = self.marks@;
        match found {
            Some(i) => {
                self.marks.set(i, (key, mark));
            },
            None => {
                self.marks.push((key, mark));
            },
        }
        self.marks_view = Ghost(old_map.insert(key, mark));
        proof {
            let list = self.marks@;
            let m = self.marks_view@;
            assert forall|k: (usize, usize)| #[trigger] m.contains_key(k) implies exists|i: int|
                0 <= i < list.len() && list[i].0 == k by {
                if k != key {
                    let j = choose|j: int| 0 <= j < old_list.len() && old_list[j].0 == k;
                    assert(list[j].0 == k);
                } else {
                    match found {
                        Some(i) => assert(list[i as int].0 == k),
                        None => assert(list[old_list.len() as int].0 == k),
                    }
                }
            }
        }
    }

    fn beat(&mut self, bar: usize, voice: usize, beat: usize, notes: &Vec<SpanNote>)
        requires
            old(self).wf(),
        ensures
            final(self).wf(),
            final(self).state().0 == legato_notes(
                old(self).state(),
                bar,
                voice,
                beat,
                notes@,
                notes@.len() as int,
            ).0,
            final(self).state().1 == legato_notes(
                old(self).state(),
                bar,
                voice,
                beat,
                notes@,
                notes@.len() as int,
            ).1,
    {
        let ghost start = self.state();
        let mut i: usize = 0;
        while i < notes.len()
            invariant
                self.wf(),
                i <= notes.len(),
                self.state().0 == legato_notes(start, bar, voice, beat, notes@, i as int).0,
                self.state().1 == legato_notes(start, bar, voice, beat, notes@, i as int).1,
            decreases notes.len() - i,
        {
            self.note(BeatAddress { bar, voice, beat }, i, &notes[i]);
            i = i + 1;
        }
    }

    fn voice(&mut self, bar: usize, voice: usize, beats: &Vec<SpanBeat>)
        requires
            old(self).wf(),
        ensures
            final(self).wf(),
            final(self).state().0 == legato_beats(
                old(self).state(),
                bar,
                voice,
                beats@,
                beats@.len() as int,
            ).0,
            final(self).state().1 == legato_beats(
                old(self).state(),
                bar,
                voice,
                beats@,
                beats@.len() as int,
            ).1,
    {
        let ghost start = self.state();
        let mut i: usize = 0;
        while i < beats.len()
            invariant
                self.wf(),
                i <= beats.len(),
                self.state().0 == legato_beats(start, bar, voice, beats@, i as int).0,
                self.state().1 == legato_beats(start, bar, voice, beats@, i as int).1,
            decreases beats.len() - i,
        {
            self.beat(bar, voice, i, &beats[i].notes);
            i = i + 1;
        }
    }

    fn bar(&mut self, bar: usize, voices: &Vec<Vec<SpanBeat>>)
        requires
            old(self).wf(),
        ensures
            final(self).wf(),
            final(self).state().0 == legato_voices(
                old(self).state(),
                bar,
                voices@,
                voices@.len() as int,
            ).0,
            final(self).state().1 == legato_voices(
                old(self).state(),
                bar,
                voices@,
                voices@.len() as int,
            ).1,
    {
        let ghost start = self.state();
        let mut i: usize = 0;
        while i < voices.len()
            invariant
                self.wf(),
                i <= voices.len(),
                self.state().0 == legato_voices(start, bar, voices@, i as int).0,
                self.state().1 == legato_voices(start, bar, voices@, i as int).1,
            decreases voices.len() - i,
        {
            self.voice(bar, i, &voices[i]);
            i = i + 1;
        }
    }
}

/// The legato spans of a track: for each voice and string, a span from a note
/// that hammers, pulls off or slides to the next note on that string, in the
/// order in which their end notes occur.
pub fn legato_spans(track: &SpanTrack) -> (r: Vec<Span>)
    ensures
        span_views(r@) == spec_legato_spans(track.bars@),
{
    let mut pass = LegatoPass { spans: Vec::new(), marks: Vec::new(), marks_view: Ghost(Map::empty()) };
    assert(span_views(pass.spans@) =~= Seq::empty());
    let ghost start = pass.state();
    let mut i: usize = 0;
    while i < track.bars.len()
        invariant
            pass.wf(),
            i <= track.bars.len(),
            start == (Seq::<SpanView>::empty(), Map::<(usize, usize), LegatoMark>::empty()),
            pass.state().0 == legato_bars(start, track.bars@, i as int).0,
            pass.state().1 == legato_bars(start, track.bars@, i as int).1,
        decreases track.bars.len() - i,
    {
        pass.bar(i, &track.bars[i]);
        i = i + 1;
    }
    pass.spans
}

/// Range pass state: spans emitted so far and the range still open, if any.
pub type RunState = (Seq<SpanView>, Option<SpanView>);

/// The emitted spans once the open range, if any, is closed.
pub open spec fn flush(st: RunState) -> Seq<SpanView> {
    match st.1 {
        Some(r) => st.0.push(r),
        None => st.0,
    }
}

/// One beat of the pass for `effect`: a mark of the same kind extends the open
/// range to this beat; another mark closes it and opens a range here; no mark closes it.
pub open spec fn auto_step(st: RunState, effect: AutoRange, a: BeatAddress, beat: SpanBeat) -> RunState {
    match spec_auto_kind(effect, beat) {
        Some(kind) => match st.1 {
            Some(r) => if spec_same_range_kind(r.kind, kind) {
                (st.0, Some(SpanView { start: r.start, end: a, kind: r.kind, placement: r.placement }))
            } else {
                (
                    flush(st),
                    Some(SpanView { start: a, end: a, kind, placement: spec_range_placement(kind) }),
                )
            },
            None => (
                st.0,
                Some(SpanView { start: a, end: a, kind, placement: spec_range_placement(kind) }),
            ),
        },
        None => (flush(st), None),
    }
}

/// The pass for `effect` over the first `k` beats of voice `voice` of bar `bar`.
pub open spec fn auto_beats(
    st: RunState,
    effect: AutoRange,
    bar: usize,
    voice: usize,
    beats: Seq<SpanBeat>,
    k: int,
) -> RunState
    decreases k,
{
    if k <= 0 {
        st
    } else {
        auto_step(
            auto_beats(st, effect, bar, voice, beats, k - 1),
            effect,
            BeatAddress { bar, voice, beat: (k - 1) as usize },
            beats[k - 1],
        )
    }
}

/// The pass for `effect` along voice `voice` over the first `k` bars; a bar
/// without that voice closes the open range.
pub open spec fn auto_bars(
    st: RunState,
    effect: AutoRange,
    voice: usize,
    bars: Seq<Vec<Vec<SpanBeat>>>,
    k: int,
) -> RunState
    decreases k,
{
    if k <= 0 {
        st
    } else {
        let prev = auto_bars(st, effect, voice, bars, k - 1);
        if voice < bars[k - 1]@.len() {
            let beats = bars[k - 1]@[voice as int]@;
            auto_beats(prev, effect, (k - 1) as usize, voice, beats, beats.len() as int)
        } else {
            (flush(prev), None)
        }
    }
}

/// The passes of the first `k` derived ranges along voice `voice`, each closed at the end.
pub open spec fn auto_effects(
    spans: Seq<SpanView>,
    voice: usize,
    bars: Seq<Vec<Vec<SpanBeat>>>,
    k: int,
) -> Seq<SpanView>
    decreases k,
{
    if k <= 0 {
        spans
    } else {
        let prev = auto_effects(spans, voice, bars, k - 1);
        flush(auto_bars((prev, None), auto_range_order()[k - 1], voice, bars, bars.len() as int))
    }
}

/// The range passes of the first `k` voices.
pub open spec fn auto_voices(spans: Seq<SpanView>, bars: Seq<Vec<Vec<SpanBeat>>>, k: int) -> Seq<
    SpanView,
>
    decreases k,
{
    if k <= 0 {
        spans
    } else {
        auto_effects(auto_voices(spans, bars, k - 1), (k - 1) as usize, bars, 6)
    }
}

/// The largest voice count among the first `k` bars.
pub open spec fn max_voices(bars: Seq<Vec<Vec<SpanBeat>>>, k: int) -> int
    decreases k,
{
    if k <= 0 {
        0
    } else if max_voices(bars, k - 1) < bars[k - 1]@.len() {
        bars[k - 1]@.len() as int
    } else {
        max_voices(bars, k - 1)
    }
}

/// Every span derived for a track: the legato spans, then for each voice and
/// each derived range in order, its contiguous ranges along the voice.
pub open spec fn spec_derived_spans(bars: Seq<Vec<Vec<SpanBeat>>>) -> Seq<SpanView> {
    auto_voices(spec_legato_spans(bars), bars, max_voices(bars, bars.len() as int))
}

/// The view of an optional span.
pub open spec fn run_view(run: Option<Span>) -> Option<SpanView> {
    match run {
        Some(s) => Some(s@),
        None => None,
    }
}

fn close_run(spans: &mut Vec<Span>, run: &mut Option<Span>)
    ensures
        span_views(final(spans)@) == flush((span_views(old(spans)@), run_view(*old(run)))),
        *final(run) is None,
{
    let ghost before = spans@;
    match run.take() {
        Some(span) => {
            spans.push(span);
            assert(span_views(spans@) =~= span_views(before).push(span@));
        },
        None => {},
    }
}

fn range_step(
    spans: &mut Vec<Span>,
    run: &mut Option<Span>,
    effect: AutoRange,
    a: BeatAddress,
    beat: &SpanBeat,
)
    ensures
        span_views(final(spans)@) == auto_step(
            (span_views(old(spans)@), run_view(*old(run))),
            effect,
            a,
            *beat,
        ).0,
        run_view(*final(run)) == auto_step(
            (span_views(old(spans)@), run_view(*old(run))),
            effect,
            a,
            *beat,
        ).1,
{
    let ghost before = spans@;
    let current = run.take();
    match effect.kind(beat) {
        Some(kind) => match current {
            Some(span) => {
                if same_range_kind(&span.kind, &kind) {
                    *run = Some(
                        Span { start: span.start, end: a, kind: span.kind, placement: span.placement },
                    );
                } else {
                    spans.push(span);
                    assert(span_views(spans@) =~= span_views(before).push(span@));
                    let placement = range_placement(&kind);
                    *run = Some(Span { start: a, end: a, kind, placement });
                }
            },
            None => {
                let placement = range_placement(&kind);
                *run = Some(Span { start: a, end: a, kind, placement });
            },
        },
        None => match current {
            Some(span) => {
                spans.push(span);
                assert(span_views(spans@) =~= span_views(before).push(span@));
            },
            None => {},
        },
    }
}

fn range_beats(
    spans: &mut Vec<Span>,
    run: &mut Option<Span>,
    effect: AutoRange,
    bar: usize,
    voice: usize,
    beats: &Vec<SpanBeat>,
)
    ensures
        span_views(final(spans)@) == auto_beats(
            (span_views(old(spans)@), run_view(*old(run))),
            effect,
            bar,
            voice,
            beats@,
            beats@.len() as int,
        ).0,
        run_view(*final(run)) == auto_beats(
            (span_views(old(spans)@), run_view(*old(run))),
            effect,
            bar,
            voice,
            beats@,
            beats@.len() as int,
        ).1,
{
    let ghost start = (span_views(spans@), run_view(*run));
    let mut i: usize = 0;
    while i < beats.len()
        invariant
            i <= beats.len(),
            span_views(spans@) == auto_beats(start, effect, bar, voice, beats@, i as int).0,
            run_view(*run) == auto_beats(start, effect, bar, voice, beats@, i as int).1,
        decreases beats.len() - i,
    {
        range_step(spans, run, effect, BeatAddress { bar, voice, beat: i }, &beats[i]);
        i = i + 1;
    }
}

fn range_along_voice(spans: &mut Vec<Span>, effect: AutoRange, voice: usize, track: &SpanTrack)
    ensures
        span_views(final(spans)@) == flush(
            auto_bars(
                (span_views(old(spans)@), None),
                effect,
                voice,
                track.bars@,
                track.bars@.len() as int,
            ),
        ),
{
    let mut run: Option<Span> = None;
    let ghost start: RunState = (span_views(spans@), None);
    let mut i: usize = 0;
    while i < track.bars.len()
        invariant
            i <= track.bars.len(),
            span_views(spans@) == auto_bars(start, effect, voice, track.bars@, i as int).0,
            run_view(run) == auto_bars(start, effect, voice, track.bars@, i as int).1,
        decreases track.bars.len() - i,
    {
        if voice < track.bars[i].len() {
            range_beats(spans, &mut run, effect, i, voice, &track.bars[i][voice]);
        } else {
            close_run(spans, &mut run);
        }
        i = i + 1;
    }
    close_run(spans, &mut run);
}

fn ranges_of_voice(spans: &mut Vec<Span>, voice: usize, track: &SpanTrack)
    ensures
        span_views(final(spans)@) == auto_effects(span_views(old(spans)@), voice, track.bars@, 6),
{
    let effects = AutoRange::all();
    let ghost start = span_views(spans@);
    let mut k: usize = 0;
    while k < 6
        invariant
            k <= 6,
            effects@ == auto_range_order(),
            span_views(spans@) == auto_effects(start, voice, track.bars@, k as int),
        decreases 6 - k,
    {
        range_along_voice(spans, effects[k], voice, track);
        k = k + 1;
    }
}

/// The number of voices of the bar with the most voices.
fn voice_count(track: &SpanTrack) -> (n: usize)
    ensures
        n == max_voices(track.bars@, track.bars@.len() as int),
{
    let mut n: usize = 0;
    let mut i: usize = 0;
    while i < track.bars.len()
        invariant
            i <= track.bars.len(),
            n == max_voices(track.bars@, i as int),
        decreases track.bars.len() - i,
    {
        if n < track.bars[i].len() {
            n = track.bars[i].len();
        }
        i = i + 1;
    }
    n
}

/// Every span derived from beat-local marks: the legato spans, then for each
/// voice and each derived range, the contiguous runs of that mark along the voice.
pub fn derived_spans(track: &SpanTrack) -> (r: Vec<Span>)
    ensures
        span_views(r@) == spec_derived_spans(track.bars@),
{
    let mut spans = legato_spans(track);
    let voices = voice_count(track);
    let ghost start = span_views(spans@);
    let mut v: usize = 0;
    while v < voices
        invariant
            v <= voices,
            voices == max_voices(track.bars@, track.bars@.len() as int),
            start == spec_legato_spans(track.bars@),
            span_views(spans@) == auto_voices(start, track.bars@, v as int),
        decreases voices - v,
    {
        ranges_of_voice(&mut spans, v, track);
        v = v + 1;
    }
    spans
}

/// A span that the explicit-span checks would accept apart from beaming:
/// both endpoints name beats, they lie in one voice in order, any note
/// anchors lie inside their chords, and it is no beam.
pub open spec fn anchored(bars: Seq<Vec<Vec<SpanBeat>>>, s: SpanView) -> bool {
    &&& beat_at(bars, s.start) is Some
    &&& beat_at(bars, s.end) is Some
    &&& s.start.voice == s.end.voice
    &&& position_le(s.start.bar as int, s.start.beat as int, s.end.bar as int, s.end.beat as int)
    &&& !slur_problem(s.kind, beat_at(bars, s.start).unwrap(), beat_at(bars, s.end).unwrap())
    &&& !(s.kind is Beam)
}

/// `a` was visited no later than beat `beat` of voice `voice` of bar `bar` in
/// the bar, voice, beat order of the legato pass.
pub open spec fn visited_before(a: BeatAddress, bar: int, voice: int, beat: int) -> bool {
    a.bar < bar || (a.bar == bar && (a.voice < voice || (a.voice == voice && a.beat <= beat)))
}

/// A remembered note names an existing note of its key's voice, visited so far.
pub open spec fn mark_ok(
    bars: Seq<Vec<Vec<SpanBeat>>>,
    key: (usize, usize),
    m: LegatoMark,
    bar: int,
    voice: int,
    beat: int,
) -> bool {
    &&& m.start.voice == key.0
    &&& beat_at(bars, m.start) is Some
    &&& m.note < beat_at(bars, m.start).unwrap().notes@.len()
    &&& visited_before(m.start, bar, voice, beat)
}

/// The legato pass so far emitted anchored spans and remembers valid notes.
pub open spec fn legato_inv(
    bars: Seq<Vec<Vec<SpanBeat>>>,
    st: LegatoState,
    bar: int,
    voice: int,
    beat: int,
) -> bool {
    &&& forall|i: int| 0 <= i < st.0.len() ==> anchored(bars, #[trigger] st.0[i])
    &&& forall|k: (usize, usize)|
        #[trigger] st.1.contains_key(k) ==> mark_ok(bars, k, st.1[k], bar, voice, beat)
}

proof fn lemma_legato_inv_weaken(
    bars: Seq<Vec<Vec<SpanBeat>>>,
    st: LegatoState,
    bar: int,
    voice: int,
    beat: int,
    bar2: int,
    voice2: int,
    beat2: int,
)
    requires
        legato_inv(bars, st, bar, voice, beat),
        bar < bar2 || (bar == bar2 && (voice < voice2 || (voice == voice2 && beat <= beat2))),
    ensures
        legato_inv(bars, st, bar2, voice2, beat2),
{
    assert forall|k: (usize, usize)| #[trigger] st.1.contains_key(k) implies mark_ok(
        bars,
        k,
        st.1[k],
        bar2,
        voice2,
        beat2,
    ) by {
        assert(mark_ok(bars, k, st.1[k], bar, voice, beat));
    }
}

proof fn lemma_legato_step(
    bars: Seq<Vec<Vec<SpanBeat>>>,
    st: LegatoState,
    a: BeatAddress,
    index: usize,
    n: SpanNote,
)
    requires
        legato_inv(bars, st, a.bar as int, a.voice as int, a.beat as int),
        beat_at(bars, a) is Some,
        index < beat_at(bars, a).unwrap().notes@.len(),
    ensures
        legato_inv(bars, legato_step(st, a, index, n), a.bar as int, a.voice as int, a.beat as int),
{
    let key = (a.voice, n.string);
    let next = legato_step(st, a, index, n);
    if st.1.contains_key(key) && (st.1[key].hammer || st.1[key].slide) {
        let prior = st.1[key];
        assert(mark_ok(bars, key, prior, a.bar as int, a.voice as int, a.beat as int));
        let v = legato_view(prior, a, index, fret_value(n.fret));
        assert(anchored(bars, v));
        assert forall|i: int| 0 <= i < next.0.len() implies anchored(bars, #[trigger] next.0[i]) by {
            if i < st.0.len() {
                assert(next.0[i] == st.0[i]);
            }
        }
    }
    assert forall|k: (usize, usize)| #[trigger] next.1.contains_key(k) implies mark_ok(
        bars,
        k,
        next.1[k],
        a.bar as int,
        a.voice as int,
        a.beat as int,
    ) by {
        if k != key {
            assert(st.1.contains_key(k));
        }
    }
}

proof fn lemma_legato_notes(
    bars: Seq<Vec<Vec<SpanBeat>>>,
    st: LegatoState,
    bar: usize,
    voice: usize,
    beat: usize,
    notes: Seq<SpanNote>,
    k: int,
)
    requires
        legato_inv(bars, st, bar as int, voice as int, beat as int),
        beat_at(bars, BeatAddress { bar, voice, beat }) is Some,
        beat_at(bars, BeatAddress { bar, voice, beat }).unwrap().notes@ == notes,
        0 <= k <= notes.len(),
    ensures
        legato_inv(
            bars,
            legato_notes(st, bar, voice, beat, notes, k),
            bar as int,
            voice as int,
            beat as int,
        ),
    decreases k,
{
    if k > 0 {
        lemma_legato_notes(bars, st, bar, voice, beat, notes, k - 1);
        lemma_legato_step(
            bars,
            legato_notes(st, bar, voice, beat, notes, k - 1),
            BeatAddress { bar, voice, beat },
            (k - 1) as usize,
            notes[k - 1],
        );
    }
}

proof fn lemma_legato_beats(bars: Seq<Vec<Vec<SpanBeat>>>, st: LegatoState, bar: usize, voice: usize, k: int)
    requires
        bar < bars.len(),
        voice < bars[bar as int]@.len(),
        0 <= k <= bars[bar as int]@[voice as int]@.len(),
        legato_inv(bars, st, bar as int, voice as int, 0),
    ensures
        legato_inv(
            bars,
            legato_beats(st, bar, voice, bars[bar as int]@[voice as int]@, k),
            bar as int,
            voice as int,
            k,
        ),
    decreases k,
{
    if k > 0 {
        let beats = bars[bar as int]@[voice as int]@;
        assert(bars[bar as int]@[voice as int].len() == beats.len());
        lemma_legato_beats(bars, st, bar, voice, k - 1);
        let prev = legato_beats(st, bar, voice, beats, k - 1);
        let notes = beats[k - 1].notes@;
        lemma_legato_notes(bars, prev, bar, voice, (k - 1) as usize, notes, notes.len() as int);
        lemma_legato_inv_weaken(
            bars,
            legato_notes(prev, bar, voice, (k - 1) as usize, notes, notes.len() as int),
            bar as int,
            voice as int,
            k - 1,
            bar as int,
            voice as int,
            k,
        );
    }
}

proof fn lemma_legato_voices(bars: Seq<Vec<Vec<SpanBeat>>>, st: LegatoState, bar: usize, k: int)
    requires
        bar < bars.len(),
        0 <= k <= bars[bar as int]@.len(),
        legato_inv(bars, st, bar as int, 0, 0),
    ensures
        legato_inv(bars, legato_voices(st, bar, bars[bar as int]@, k), bar as int, k, 0),
    decreases k,
{
    if k > 0 {
        let voices = bars[bar as int]@;
        assert(bars[bar as int].len() == voices.len());
        lemma_legato_voices(bars, st, bar, k - 1);
        let prev = legato_voices(st, bar, voices, k - 1);
        let beats = voices[k - 1]@;
        lemma_legato_beats(bars, prev, bar, (k - 1) as usize, beats.len() as int);
        lemma_legato_inv_weaken(
            bars,
            legato_beats(prev, bar, (k - 1) as usize, beats, beats.len() as int),
            bar as int,
            k - 1,
            beats.len() as int,
            bar as int,
            k,
            0,
        );
    }
}

proof fn lemma_legato_bars(bars: Seq<Vec<Vec<SpanBeat>>>, st: LegatoState, k: int)
    requires
        0 <= k <= bars.len(),
        bars.len() <= usize::MAX,
        legato_inv(bars, st, 0, 0, 0),
    ensures
        legato_inv(bars, legato_bars(st, bars, k), k, 0, 0),
    decreases k,
{
    if k > 0 {
        lemma_legato_bars(bars, st, k - 1);
        let prev = legato_bars(st, bars, k - 1);
        let voices = bars[k - 1]@;
        lemma_legato_voices(bars, prev, (k - 1) as usize, voices.len() as int);
        lemma_legato_inv_weaken(
            bars,
            legato_voices(prev, (k - 1) as usize, voices, voices.len() as int),
            k - 1,
            voices.len() as int,
            0,
            k,
            0,
            0,
        );
    }
}

/// Every legato span of a track connects two existing notes of one voice,
/// from the earlier to the later.
pub proof fn legato_spans_are_anchored(bars: Seq<Vec<Vec<SpanBeat>>>)
    requires
        bars.len() <= usize::MAX,
    ensures
        forall|i: int|
            0 <= i < spec_legato_spans(bars).len() ==> anchored(
                bars,
                #[trigger] spec_legato_spans(bars)[i],
            ),
{
    let st: LegatoState = (Seq::empty(), Map::empty());
    lemma_legato_bars(bars, st, bars.len() as int);
}

/// An open range of the pass along voice `voice`, before beat `beat` of bar
/// `bar`: both ends name beats of the voice, in order, its last beat already
/// passed, and its kind is a derived range.
pub open spec fn run_ok(bars: Seq<Vec<Vec<SpanBeat>>>, r: SpanView, voice: int, bar: int, beat: int) -> bool {
    &&& beat_at(bars, r.start) is Some
    &&& beat_at(bars, r.end) is Some
    &&& r.start.voice == voice
    &&& r.end.voice == voice
    &&& position_le(r.start.bar as int, r.start.beat as int, r.end.bar as int, r.end.beat as int)
    &&& (r.end.bar < bar || (r.end.bar == bar && r.end.beat < beat))
    &&& !(r.kind is Slur || r.kind is Legato || r.kind is Beam)
}

/// The range pass so far emitted anchored spans and holds a sound open range.
pub open spec fn run_inv(
    bars: Seq<Vec<Vec<SpanBeat>>>,
    st: RunState,
    voice: int,
    bar: int,
    beat: int,
) -> bool {
    &&& forall|i: int| 0 <= i < st.0.len() ==> anchored(bars, #[trigger] st.0[i])
    &&& st.1 is Some ==> run_ok(bars, st.1.unwrap(), voice, bar, beat)
}

proof fn lemma_flush_anchored(bars: Seq<Vec<Vec<SpanBeat>>>, st: RunState, voice: int, bar: int, beat: int)
    requires
        run_inv(bars, st, voice, bar, beat),
    ensures
        forall|i: int| 0 <= i < flush(st).len() ==> anchored(bars, #[trigger] flush(st)[i]),
{
    if st.1 is Some {
        assert(run_ok(bars, st.1.unwrap(), voice, bar, beat));
        assert forall|i: int| 0 <= i < flush(st).len() implies anchored(bars, #[trigger] flush(st)[i]) by {
            if i < st.0.len() {
                assert(flush(st)[i] == st.0[i]);
            }
        }
    }
}

proof fn lemma_auto_kind_is_range(effect: AutoRange, b: SpanBeat)
    ensures
        spec_auto_kind(effect, b) matches Some(k) ==> !(k is Slur || k is Legato || k is Beam),
{
}

proof fn lemma_auto_step(
    bars: Seq<Vec<Vec<SpanBeat>>>,
    st: RunState,
    effect: AutoRange,
    a: BeatAddress,
    b: SpanBeat,
)
    requires
        run_inv(bars, st, a.voice as int, a.bar as int, a.beat as int),
        beat_at(bars, a) is Some,
    ensures
        run_inv(bars, auto_step(st, effect, a, b), a.voice as int, a.bar as int, a.beat + 1),
{
    lemma_flush_anchored(bars, st, a.voice as int, a.bar as int, a.beat as int);
    lemma_auto_kind_is_range(effect, b);
}

proof fn lemma_run_inv_weaken(
    bars: Seq<Vec<Vec<SpanBeat>>>,
    st: RunState,
    voice: int,
    bar: int,
    beat: int,
    bar2: int,
    beat2: int,
)
    requires
        run_inv(bars, st, voice, bar, beat),
        bar < bar2 || (bar == bar2 && beat <= beat2),
    ensures
        run_inv(bars, st, voice, bar2, beat2),
{
}

proof fn lemma_auto_beats(
    bars: Seq<Vec<Vec<SpanBeat>>>,
    st: RunState,
    effect: AutoRange,
    bar: usize,
    voice: usize,
    k: int,
)
    requires
        bar < bars.len(),
        voice < bars[bar as int]@.len(),
        0 <= k <= bars[bar as int]@[voice as int]@.len(),
        run_inv(bars, st, voice as int, bar as int, 0),
    ensures
        run_inv(
            bars,
            auto_beats(st, effect, bar, voice, bars[bar as int]@[voice as int]@, k),
            voice as int,
            bar as int,
            k,
        ),
    decreases k,
{
    if k > 0 {
        let beats = bars[bar as int]@[voice as int]@;
        assert(bars[bar as int]@[voice as int].len() == beats.len());
        lemma_auto_beats(bars, st, effect, bar, voice, k - 1);
        lemma_auto_step(
            bars,
            auto_beats(st, effect, bar, voice, beats, k - 1),
            effect,
            BeatAddress { bar, voice, beat: (k - 1) as usize },
            beats[k - 1],
        );
    }
}

proof fn lemma_auto_bars(
    bars: Seq<Vec<Vec<SpanBeat>>>,
    st: RunState,
    effect: AutoRange,
    voice: usize,
    k: int,
)
    requires
        0 <= k <= bars.len(),
        bars.len() <= usize::MAX,
        run_inv(bars, st, voice as int, 0, 0),
    ensures
        run_inv(bars, auto_bars(st, effect, voice, bars, k), voice as int, k, 0),
    decreases k,
{
    if k > 0 {
        lemma_auto_bars(bars, st, effect, voice, k - 1);
        let prev = auto_bars(st, effect, voice, bars, k - 1);
        lemma_run_inv_weaken(bars, prev, voice as int, k - 1, 0, k - 1, 0);
        if voice < bars[k - 1]@.len() {
            let beats = bars[k - 1]@[voice as int]@;
            lemma_auto_beats(bars, prev, effect, (k - 1) as usize, voice, beats.len() as int);
            lemma_run_inv_weaken(
                bars,
                auto_beats(prev, effect, (k - 1) as usize, voice, beats, beats.len() as int),
                voice as int,
                k - 1,
                beats.len() as int,
                k,
                0,
            );
        } else {
            lemma_flush_anchored(bars, prev, voice as int, k - 1, 0);
        }
    }
}

proof fn lemma_auto_effects(bars: Seq<Vec<Vec<SpanBeat>>>, spans: Seq<SpanView>, voice: usize, k: int)
    requires
        0 <= k <= 6,
        bars.len() <= usize::MAX,
        forall|i: int| 0 <= i < spans.len() ==> anchored(bars, #[trigger] spans[i]),
    ensures
        forall|i: int|
            0 <= i < auto_effects(spans, voice, bars, k).len() ==> anchored(
                bars,
                #[trigger] auto_effects(spans, voice, bars, k)[i],
            ),
    decreases k,
{
    if k > 0 {
        lemma_auto_effects(bars, spans, voice, k - 1);
        let prev = auto_effects(spans, voice, bars, k - 1);
        let effect = auto_range_order()[k - 1];
        lemma_auto_bars(bars, (prev, None), effect, voice, bars.len() as int);
        lemma_flush_anchored(
            bars,
            auto_bars((prev, None), effect, voice, bars, bars.len() as int),
            voice as int,
            bars.len() as int,
            0,
        );
    }
}

proof fn lemma_auto_voices(bars: Seq<Vec<Vec<SpanBeat>>>, spans: Seq<SpanView>, k: int)
    requires
        0 <= k,
        k <= usize::MAX + 1,
        bars.len() <= usize::MAX,
        forall|i: int| 0 <= i < spans.len() ==> anchored(bars, #[trigger] spans[i]),
    ensures
        forall|i: int|
            0 <= i < auto_voices(spans, bars, k).len() ==> anchored(
                bars,
                #[trigger] auto_voices(spans, bars, k)[i],
            ),
    decreases k,
{
    if k > 0 {
        lemma_auto_voices(bars, spans, k - 1);
        lemma_auto_effects(bars, auto_voices(spans, bars, k - 1), (k - 1) as usize, 6);
    }
}

proof fn lemma_max_voices_bound(bars: Seq<Vec<Vec<SpanBeat>>>, k: int)
    requires
        0 <= k <= bars.len(),
    ensures
        0 <= max_voices(bars, k) <= usize::MAX,
    decreases k,
{
    if k > 0 {
        lemma_max_voices_bound(bars, k - 1);
        assert(bars[k - 1].len() == bars[k - 1]@.len());
    }
}

/// Every span derived for a track — legato connections and effect ranges —
/// joins two existing beats of one voice in order, anchors any notes inside
/// their chords, and is no beam: explicit-span validation would accept it.
pub proof fn derived_spans_are_anchored(bars: Seq<Vec<Vec<SpanBeat>>>)
    requires
        bars.len() <= usize::MAX,
    ensures
        forall|i: int|
            0 <= i < spec_derived_spans(bars).len() ==> anchored(
                bars,
                #[trigger] spec_derived_spans(bars)[i],
            ),
{
    legato_spans_are_anchored(bars);
    lemma_max_voices_bound(bars, bars.len() as int);
    lemma_auto_voices(bars, spec_legato_spans(bars), max_voices(bars, bars.len() as int));
}

/// One place along a voice: a beat with its address, or a break where a bar
/// lacks the voice.
pub type Slot = Option<(BeatAddress, SpanBeat)>;

/// The range kind a slot contributes to `effect`; a break contributes none.
pub open spec fn slot_kind(effect: AutoRange, slot: Slot) -> Option<SpanKindView> {
    match slot {
        Some(s) => spec_auto_kind(effect, s.1),
        None => None,
    }
}

/// The address of a beat slot.
pub open spec fn slot_address(slot: Slot) -> BeatAddress {
    slot.unwrap().0
}

/// The beats of voice `voice` of bar `bar` as slots, in order.
pub open spec fn bar_slots(bar: usize, voice: usize, beats: Seq<SpanBeat>) -> Seq<Slot> {
    Seq::new(beats.len(), |i: int| Some((BeatAddress { bar, voice, beat: i as usize }, beats[i])))
}

/// Voice `voice` along the first `k` bars: each bar's beats of the voice, or
/// one break for a bar without it.
pub open spec fn voice_line(bars: Seq<Vec<Vec<SpanBeat>>>, voice: usize, k: int) -> Seq<Slot>
    decreases k,
{
    if k <= 0 {
        Seq::empty()
    } else {
        voice_line(bars, voice, k - 1) + if voice < bars[k - 1]@.len() {
            bar_slots((k - 1) as usize, voice, bars[k - 1]@[voice as int]@)
        } else {
            seq![None]
        }
    }
}

/// One slot of the range pass: a beat steps as [`auto_step`]; a break closes
/// the open range.
pub open spec fn line_step(st: RunState, effect: AutoRange, slot: Slot) -> RunState {
    match slot {
        Some(s) => auto_step(st, effect, s.0, s.1),
        None => (flush(st), None),
    }
}

/// The range pass for `effect` over the first `k` slots of `line`.
pub open spec fn line_pass(st: RunState, effect: AutoRange, line: Seq<Slot>, k: int) -> RunState
    decreases k,
{
    if k <= 0 {
        st
    } else {
        line_step(line_pass(st, effect, line, k - 1), effect, line[k - 1])
    }
}

/// Slots `p ..= q` of `line` are a maximal run for `effect` that span `r`
/// covers: every slot in it carries `r`'s kind, the slots just outside it do
/// not, and `r` runs from the first of its beats to the last.
pub open spec fn maximal_run(line: Seq<Slot>, effect: AutoRange, p: int, q: int, r: SpanView) -> bool {
    &&& 0 <= p <= q < line.len()
    &&& forall|j: int| p <= j <= q ==> slot_kind(effect, #[trigger] line[j]) == Some(r.kind)
    &&& p > 0 ==> slot_kind(effect, line[p - 1]) != Some(r.kind)
    &&& q + 1 < line.len() ==> slot_kind(effect, line[q + 1]) != Some(r.kind)
    &&& r.start == slot_address(line[p])
    &&& r.end == slot_address(line[q])
}

/// `r` covers some maximal run of `line` for `effect`.
pub open spec fn covers_maximal_run(line: Seq<Slot>, effect: AutoRange, r: SpanView) -> bool {
    exists|p: int, q: int| #[trigger] maximal_run(line, effect, p, q, r)
}

/// The open range of the pass after `k` slots began at slot `p`: every slot
/// from `p` on carries its kind, the slot before `p` does not, and it runs
/// from slot `p` to slot `k - 1`.
pub open spec fn open_run(line: Seq<Slot>, effect: AutoRange, p: int, k: int, r: SpanView) -> bool {
    &&& 0 <= p < k <= line.len()
    &&& forall|j: int| p <= j < k ==> slot_kind(effect, #[trigger] line[j]) == Some(r.kind)
    &&& p > 0 ==> slot_kind(effect, line[p - 1]) != Some(r.kind)
    &&& r.start == slot_address(line[p])
    &&& r.end == slot_address(line[k - 1])
}

/// After `k` slots: every range emitted beyond the first `base` spans is a
/// maximal run, an open range began somewhere, and with none open the last
/// slot carries no mark.
pub open spec fn line_inv(line: Seq<Slot>, effect: AutoRange, base: int, st: RunState, k: int) -> bool {
    &&& 0 <= base <= st.0.len()
    &&& forall|i: int|
        base <= i < st.0.len() ==> covers_maximal_run(line, effect, #[trigger] st.0[i])
    &&& st.1 matches Some(r) ==> exists|p: int| #[trigger] open_run(line, effect, p, k, r)
    &&& st.1 is None ==> (k == 0 || slot_kind(effect, line[k - 1]) is None)
}

proof fn lemma_same_kind_is_equal(effect: AutoRange, b1: SpanBeat, b2: SpanBeat)
    requires
        spec_auto_kind(effect, b1) is Some,
        spec_auto_kind(effect, b2) is Some,
    ensures
        spec_same_range_kind(spec_auto_kind(effect, b1).unwrap(), spec_auto_kind(effect, b2).unwrap())
            <==> spec_auto_kind(effect, b1) == spec_auto_kind(effect, b2),
{
}

proof fn lemma_line_step(line: Seq<Slot>, effect: AutoRange, base: int, st: RunState, k: int)
    requires
        0 <= k < line.len(),
        line_inv(line, effect, base, st, k),
        st.1 matches Some(r) ==> exists|b: SpanBeat| spec_auto_kind(effect, b) == Some(r.kind),
    ensures
        line_inv(line, effect, base, line_step(st, effect, line[k]), k + 1),
        line_step(st, effect, line[k]).1 matches Some(r) ==> exists|b: SpanBeat|
            spec_auto_kind(effect, b) == Some(r.kind),
{
    let next = line_step(st, effect, line[k]);
    let kind = slot_kind(effect, line[k]);
    if st.1 is Some {
        let r = st.1.unwrap();
        let p = choose|p: int| #[trigger] open_run(line, effect, p, k, r);
        let b0 = choose|b: SpanBeat| spec_auto_kind(effect, b) == Some(r.kind);
        let continues = kind is Some && spec_same_range_kind(r.kind, kind.unwrap());
        if kind is Some {
            lemma_same_kind_is_equal(effect, b0, line[k].unwrap().1);
        }
        if continues {
            let r2 = next.1.unwrap();
            assert(open_run(line, effect, p, k + 1, r2));
            assert(next.0 == st.0);
        } else {
            assert(maximal_run(line, effect, p, k - 1, r));
            let e = st.0.push(r);
            assert(next.0 == e);
            assert forall|i: int| base <= i < next.0.len() implies covers_maximal_run(
                line,
                effect,
                #[trigger] next.0[i],
            ) by {
                if i < st.0.len() {
                    assert(e[i] == st.0[i]);
                } else {
                    assert(e[i] == r);
                    assert(maximal_run(line, effect, p, k - 1, e[i]));
                }
            }
            if kind is Some {
                let r2 = next.1.unwrap();
                assert(slot_kind(effect, line[k - 1]) == Some(r.kind));
                assert(open_run(line, effect, k, k + 1, r2));
            }
        }
    } else {
        assert(next.0 == st.0);
        if kind is Some {
            let r2 = next.1.unwrap();
            assert(open_run(line, effect, k, k + 1, r2));
        }
    }
}

proof fn lemma_line_pass(line: Seq<Slot>, effect: AutoRange, st: RunState, k: int)
    requires
        0 <= k <= line.len(),
        st.1 is None,
    ensures
        line_inv(line, effect, st.0.len() as int, line_pass(st, effect, line, k), k),
        line_pass(st, effect, line, k).1 matches Some(r) ==> exists|b: SpanBeat|
            spec_auto_kind(effect, b) == Some(r.kind),
    decreases k,
{
    if k > 0 {
        lemma_line_pass(line, effect, st, k - 1);
        lemma_line_step(line, effect, st.0.len() as int, line_pass(st, effect, line, k - 1), k - 1);
    }
}

proof fn lemma_line_pass_prefix(st: RunState, effect: AutoRange, l: Seq<Slot>, m: Seq<Slot>, k: int)
    requires
        0 <= k <= l.len(),
        k <= m.len(),
        forall|i: int| 0 <= i < k ==> l[i] == m[i],
    ensures
        line_pass(st, effect, l, k) == line_pass(st, effect, m, k),
    decreases k,
{
    if k > 0 {
        lemma_line_pass_prefix(st, effect, l, m, k - 1);
    }
}

proof fn lemma_line_pass_concat(st: RunState, effect: AutoRange, l1: Seq<Slot>, l2: Seq<Slot>, j: int)
    requires
        0 <= j <= l2.len(),
    ensures
        line_pass(st, effect, l1 + l2, l1.len() + j) == line_pass(
            line_pass(st, effect, l1, l1.len() as int),
            effect,
            l2,
            j,
        ),
    decreases j,
{
    if j == 0 {
        lemma_line_pass_prefix(st, effect, l1 + l2, l1, l1.len() as int);
    } else {
        lemma_line_pass_concat(st, effect, l1, l2, j - 1);
        assert((l1 + l2)[l1.len() + j - 1] == l2[j - 1]);
    }
}

proof fn lemma_auto_beats_line(
    st: RunState,
    effect: AutoRange,
    bar: usize,
    voice: usize,
    beats: Seq<SpanBeat>,
    k: int,
)
    requires
        0 <= k <= beats.len(),
    ensures
        auto_beats(st, effect, bar, voice, beats, k) == line_pass(
            st,
            effect,
            bar_slots(bar, voice, beats),
            k,
        ),
    decreases k,
{
    if k > 0 {
        lemma_auto_beats_line(st, effect, bar, voice, beats, k - 1);
    }
}

proof fn lemma_auto_bars_line(
    st: RunState,
    effect: AutoRange,
    voice: usize,
    bars: Seq<Vec<Vec<SpanBeat>>>,
    k: int,
)
    requires
        0 <= k <= bars.len(),
    ensures
        auto_bars(st, effect, voice, bars, k) == line_pass(
            st,
            effect,
            voice_line(bars, voice, k),
            voice_line(bars, voice, k).len() as int,
        ),
    decreases k,
{
    if k > 0 {
        lemma_auto_bars_line(st, effect, voice, bars, k - 1);
        let prev_line = voice_line(bars, voice, k - 1);
        let piece = if voice < bars[k - 1]@.len() {
            bar_slots((k - 1) as usize, voice, bars[k - 1]@[voice as int]@)
        } else {
            seq![None]
        };
        assert(voice_line(bars, voice, k) == prev_line + piece);
        lemma_line_pass_concat(st, effect, prev_line, piece, piece.len() as int);
        let prev = line_pass(st, effect, prev_line, prev_line.len() as int);
        assert(auto_bars(st, effect, voice, bars, k - 1) == prev);
        if voice < bars[k - 1]@.len() {
            let beats = bars[k - 1]@[voice as int]@;
            lemma_auto_beats_line(prev, effect, (k - 1) as usize, voice, beats, beats.len() as int);
            assert(piece.len() == beats.len());
            assert(auto_bars(st, effect, voice, bars, k) == auto_beats(
                prev,
                effect,
                (k - 1) as usize,
                voice,
                beats,
                beats.len() as int,
            ));
        } else {
            assert(line_pass(prev, effect, piece, 0) == prev);
            assert(piece[0] == None::<(BeatAddress, SpanBeat)>);
            assert(line_pass(prev, effect, piece, 1) == line_step(prev, effect, None));
        }
    }
}

/// Every range that the pass for one effect emits along one voice is a maximal
/// run: consecutive beats of the voice, across barlines, that all carry the
/// same mark for that effect, with the beats just before and after it (if
/// any) carrying no such mark, and a bar without the voice breaking runs. The
/// range runs from the first beat of the run to its last.
pub proof fn range_spans_are_maximal_runs(
    bars: Seq<Vec<Vec<SpanBeat>>>,
    effect: AutoRange,
    voice: usize,
    earlier: Seq<SpanView>,
)
    ensures
        ({
            let line = voice_line(bars, voice, bars.len() as int);
            let out = flush(auto_bars((earlier, None), effect, voice, bars, bars.len() as int));
            &&& out.len() >= earlier.len()
            &&& out.take(earlier.len() as int) == earlier
            &&& forall|i: int|
                earlier.len() <= i < out.len() ==> covers_maximal_run(line, effect, #[trigger] out[i])
        }),
{
    let line = voice_line(bars, voice, bars.len() as int);
    let n = line.len() as int;
    let st0: RunState = (earlier, None);
    lemma_auto_bars_line(st0, effect, voice, bars, bars.len() as int);
    lemma_line_pass(line, effect, st0, n);
    lemma_line_pass_keeps(line, effect, st0, n);
    let st = line_pass(st0, effect, line, n);
    let out = flush(st);
    if st.1 is Some {
        let r = st.1.unwrap();
        let p = choose|p: int| #[trigger] open_run(line, effect, p, n, r);
        assert(maximal_run(line, effect, p, n - 1, r));
        assert forall|i: int| earlier.len() <= i < out.len() implies covers_maximal_run(
            line,
            effect,
            #[trigger] out[i],
        ) by {
            if i < st.0.len() {
                assert(out[i] == st.0[i]);
            } else {
                assert(out[i] == r);
                assert(maximal_run(line, effect, p, n - 1, out[i]));
            }
        }
    }
    assert(out.take(earlier.len() as int) =~= earlier);
}

proof fn lemma_line_pass_keeps(line: Seq<Slot>, effect: AutoRange, st: RunState, k: int)
    requires
        0 <= k <= line.len(),
    ensures
        line_pass(st, effect, line, k).0.len() >= st.0.len(),
        line_pass(st, effect, line, k).0.take(st.0.len() as int) == st.0,
    decreases k,
{
    if k > 0 {
        lemma_line_pass_keeps(line, effect, st, k - 1);
        let prev = line_pass(st, effect, line, k - 1);
        assert(line_pass(st, effect, line, k).0.take(st.0.len() as int) =~= prev.0.take(
            st.0.len() as int,
        ));
    }
}

} // verus!
