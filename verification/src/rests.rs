//! Multi-measure rest condensation: which consecutive silent measures are
//! drawn as one condensed rest, and how measures and span endpoints map to
//! the condensed bars and back.
use crate::error::{ErrorKind, RenderError};
use crate::notation::Span;
use crate::spans::{copy_span, SpanView};
use crate::track::BeatAddress;
use std::ops::Range;
use vstd::prelude::*;

verus! {

/// What rest condensation reads from one measure of one track.
#[derive(Clone, Copy, Debug, PartialEq, Eq, Structural)]
pub struct RestMeasure {
    /// Every voice is empty of notes and marks and fits the meter; see
    /// [`measure_is_silent`].
    pub silent: bool,
    /// A system break is requested before the measure.
    pub break_before: bool,
    /// The measure changes clef.
    pub has_clef: bool,
    /// The measure changes tempo.
    pub has_tempo: bool,
    /// The measure carries a rehearsal marker.
    pub has_marker: bool,
    /// The measure begins a repeat.
    pub repeat_start: bool,
    /// The measure ends a repeat.
    pub repeat_end: bool,
    /// The measure ends with a double bar line.
    pub double_bar: bool,
    /// The measure carries alternate-ending numbers.
    pub has_alternate_endings: bool,
    /// The measure carries a navigation mark.
    pub has_navigation: bool,
    /// The measure carries fermatas.
    pub has_fermatas: bool,
    /// The measure is in free time.
    pub free_time: bool,
    /// The measure sets a triplet feel.
    pub has_triplet_feel: bool,
    /// Numerator of the written meter.
    pub meter_numerator: u8,
    /// Denominator of the written meter.
    pub meter_denominator: u16,
    /// Key signature in fifths.
    pub key_signature: i8,
}

/// What silence reads of one beat: how many notes it has and which marks it carries.
#[derive(Clone, Copy, Debug, Default, PartialEq, Eq, Structural)]
pub struct BeatContent {
    /// Number of notes.
    pub notes: usize,
    /// Free text.
    pub text: bool,
    /// Lyrics.
    pub lyrics: bool,
    /// A chord diagram.
    pub chord: bool,
    /// A dynamic.
    pub dynamic: bool,
    /// A tempo mark.
    pub tempo: bool,
    /// Whammy-bar points.
    pub whammy: bool,
    /// A plucking technique.
    pub technique: bool,
    /// A fade.
    pub fade: bool,
    /// An ottava.
    pub ottava: bool,
    /// A pedal mark.
    pub pedal: bool,
    /// A wah mark.
    pub wah: bool,
    /// A golpe.
    pub golpe: bool,
    /// A left-hand tap.
    pub left_hand_tap: bool,
    /// A rasgueado.
    pub rasgueado: bool,
    /// A barre.
    pub barre: bool,
    /// A timer.
    pub timer: bool,
    /// A hairpin.
    pub crescendo: bool,
}

/// A beat with no note and no mark at all.
pub open spec fn beat_blank(b: BeatContent) -> bool {
    b.notes == 0 && !b.text && !b.lyrics && !b.chord && !b.dynamic && !b.tempo && !b.whammy
        && !b.technique && !b.fade && !b.ottava && !b.pedal && !b.wah && !b.golpe
        && !b.left_hand_tap && !b.rasgueado && !b.barre && !b.timer && !b.crescendo
}

/// A voice holds only blank beats and ends within the meter (`fits`).
pub open spec fn voice_silent(voice: Seq<BeatContent>, fits: bool) -> bool {
    fits && forall|i: int| 0 <= i < voice.len() ==> beat_blank(#[trigger] voice[i])
}

/// A measure is silent when it repeats no simile and each voice `v` is
/// silent, `fits[v]` telling whether it ends within the meter.
pub open spec fn spec_measure_silent(simile: bool, voices: Seq<Vec<BeatContent>>, fits: Seq<bool>) -> bool {
    !simile && forall|v: int| 0 <= v < voices.len() ==> voice_silent(#[trigger] voices[v]@, fits[v])
}

fn is_blank(b: &BeatContent) -> (r: bool)
    ensures
        r == beat_blank(*b),
{
    b.notes == 0 && !b.text && !b.lyrics && !b.chord && !b.dynamic && !b.tempo && !b.whammy
        && !b.technique && !b.fade && !b.ottava && !b.pedal && !b.wah && !b.golpe
        && !b.left_hand_tap && !b.rasgueado && !b.barre && !b.timer && !b.crescendo
}

/// Whether a measure is silent, the fact that rest condensation reads as
/// [`RestMeasure::silent`]: no simile, and every voice holds only beats with
/// no note and no mark and ends within the meter. `fits[v]` tells whether
/// voice `v` ends within the meter.
pub fn measure_is_silent(simile: bool, voices: &Vec<Vec<BeatContent>>, fits: &Vec<bool>) -> (r: bool)
    requires
        fits@.len() == voices@.len(),
    ensures
        r == spec_measure_silent(simile, voices@, fits@),
{
    if simile {
        return false;
    }
    let mut v: usize = 0;
    while v < voices.len()
        invariant
            !simile,
            fits@.len() == voices@.len(),
            v <= voices@.len(),
            forall|u: int| 0 <= u < v ==> voice_silent(#[trigger] voices@[u]@, fits@[u]),
        decreases voices.len() - v,
    {
        let voice = &voices[v];
        let mut i: usize = 0;
        while i < voice.len()
            invariant
                v < voices@.len(),
                *voice == voices@[v as int],
                i <= voice@.len(),
                forall|j: int| 0 <= j < i ==> beat_blank(#[trigger] voice@[j]),
            decreases voice.len() - i,
        {
            if !is_blank(&voice[i]) {
                assert(!voice_silent(voices@[v as int]@, fits@[v as int]));
                return false;
            }
            i = i + 1;
        }
        if !fits[v] {
            assert(!voice_silent(voices@[v as int]@, fits@[v as int]));
            return false;
        }
        assert(voice_silent(voices@[v as int]@, fits@[v as int]));
        v = v + 1;
    }
    true
}

/// What rest condensation reads from one track: its measures and the bars
/// that each of its spans runs from and to.
#[derive(Clone, Debug)]
pub struct RestTrack {
    /// Measures in order.
    pub measures: Vec<RestMeasure>,
    /// First and last bar of each span.
    pub span_bars: Vec<(usize, usize)>,
}

/// Measure `mi` of a track starts a new section: a mark that must stay
/// visible, or a change of meter or key from the previous measure.
pub open spec fn is_boundary(t: RestTrack, mi: int) -> bool {
    let m = t.measures@[mi];
    ||| m.break_before
    ||| m.has_clef
    ||| m.has_tempo
    ||| m.has_marker
    ||| m.repeat_start
    ||| m.repeat_end
    ||| m.double_bar
    ||| m.has_alternate_endings
    ||| m.has_navigation
    ||| m.has_fermatas
    ||| m.free_time
    ||| m.has_triplet_feel
    ||| (mi > 0 && (t.measures@[mi - 1].meter_numerator != m.meter_numerator
        || t.measures@[mi - 1].meter_denominator != m.meter_denominator
        || t.measures@[mi - 1].key_signature != m.key_signature))
}

/// Some span of the track covers bar `mi`.
pub open spec fn span_covers(t: RestTrack, mi: int) -> bool {
    exists|s: int|
        0 <= s < t.span_bars@.len() && #[trigger] t.span_bars@[s].0 <= mi && mi
            <= t.span_bars@[s].1
}

/// Measure `mi` may be condensed: silent and uncovered by spans in every track.
pub open spec fn eligible(tracks: Seq<RestTrack>, mi: int) -> bool {
    forall|t: int|
        0 <= t < tracks.len() ==> (#[trigger] tracks[t]).measures@[mi].silent && !span_covers(
            tracks[t],
            mi,
        )
}

/// Measure `mi` may begin a condensed rest: no track ends a repeat, closes with
/// a double bar, or carries a fermata or navigation mark there.
pub open spec fn opens_rest(tracks: Seq<RestTrack>, mi: int) -> bool {
    forall|t: int|
        0 <= t < tracks.len() ==> {
            let m = (#[trigger] tracks[t]).measures@[mi];
            !m.repeat_end && !m.double_bar && !m.has_fermatas && !m.has_navigation
        }
}

/// No track starts a new section at measure `mi`.
pub open spec fn continues_rest(tracks: Seq<RestTrack>, mi: int) -> bool {
    forall|t: int| 0 <= t < tracks.len() ==> !is_boundary(#[trigger] tracks[t], mi)
}

/// The end of a condensed rest that has reached measure `e`: it extends over
/// each following eligible measure that starts no new section.
pub open spec fn run_end(tracks: Seq<RestTrack>, n: int, e: int) -> int
    decreases n - e,
{
    if e < n && eligible(tracks, e) && continues_rest(tracks, e) {
        run_end(tracks, n, e + 1)
    } else {
        e
    }
}

/// The end of the group that begins at measure `first`: a condensed rest
/// when the measure is eligible and may open one, else the single measure.
pub open spec fn group_end(tracks: Seq<RestTrack>, n: int, first: int) -> int {
    if eligible(tracks, first) && opens_rest(tracks, first) {
        run_end(tracks, n, first + 1)
    } else {
        first + 1
    }
}

/// Every track has `n` measures.
pub open spec fn tracks_aligned(tracks: Seq<RestTrack>, n: int) -> bool {
    forall|t: int| 0 <= t < tracks.len() ==> (#[trigger] tracks[t]).measures@.len() == n
}

/// `groups` cuts measures `0 .. n` into consecutive groups, each ending where
/// [`group_end`] says.
pub open spec fn groups_partition(tracks: Seq<RestTrack>, n: int, groups: Seq<Range<usize>>) -> bool {
    &&& (groups.len() == 0 <==> n == 0)
    &&& groups.len() > 0 ==> groups[0].start == 0 && groups.last().end == n
    &&& forall|k: int|
        0 <= k < groups.len() ==> (#[trigger] groups[k]).end == group_end(
            tracks,
            n,
            groups[k].start as int,
        )
    &&& forall|k: int| 0 < k < groups.len() ==> (#[trigger] groups[k]).start == groups[k - 1].end
}

/// The beat counts of the voices of each source measure, as sequences.
pub open spec fn count_views(counts: Seq<Vec<usize>>) -> Seq<Seq<usize>> {
    counts.map_values(|v: Vec<usize>| v@)
}

/// The first `k` beats of voice `v` of measure `m`.
pub open spec fn voice_beats(m: int, v: int, k: int) -> Seq<BeatAddress>
    decreases k,
{
    if k <= 0 {
        Seq::empty()
    } else {
        voice_beats(m, v, k - 1).push(
            BeatAddress { bar: m as usize, voice: v as usize, beat: (k - 1) as usize },
        )
    }
}

/// The beats of the first `k` voices of measure `m`, voice by voice, where
/// voice `v` has `counts[v]` beats.
pub open spec fn measure_beats(m: int, counts: Seq<usize>, k: int) -> Seq<BeatAddress>
    decreases k,
{
    if k <= 0 {
        Seq::empty()
    } else {
        measure_beats(m, counts, k - 1) + voice_beats(m, k - 1, counts[k - 1] as int)
    }
}

/// The beats of measures `first .. end`, measure by measure.
pub open spec fn group_beats(first: int, end: int, counts: Seq<Seq<usize>>) -> Seq<BeatAddress>
    decreases end - first,
{
    if end <= first {
        Seq::empty()
    } else {
        group_beats(first, end - 1, counts) + measure_beats(
            end - 1,
            counts[end - 1],
            counts[end - 1].len() as int,
        )
    }
}

/// `a` addresses a beat of a source measure in `first .. end`.
pub open spec fn source_beat_in(a: BeatAddress, first: int, end: int, counts: Seq<Seq<usize>>) -> bool {
    &&& first <= a.bar < end
    &&& a.voice < counts[a.bar as int].len()
    &&& a.beat < counts[a.bar as int][a.voice as int]
}

/// The source beats that beat `a` of a condensed bar showing `group` stands
/// for: on a single measure the same voice and beat of that measure; on a
/// condensed rest every beat of its measures.
pub open spec fn spec_expand(group: Range<usize>, a: BeatAddress, counts: Seq<Seq<usize>>) -> Seq<
    BeatAddress,
> {
    if group.end - group.start == 1 {
        seq![BeatAddress { bar: group.start, ..a }]
    } else {
        group_beats(group.start as int, group.end as int, counts)
    }
}

proof fn lemma_voice_beats(m: int, v: int, k: int, a: BeatAddress)
    requires
        0 <= m <= usize::MAX,
        0 <= v <= usize::MAX,
        k <= usize::MAX,
    ensures
        voice_beats(m, v, k).contains(a) <==> (a.bar == m && a.voice == v && a.beat < k),
    decreases k,
{
    if k > 0 {
        lemma_voice_beats(m, v, k - 1, a);
        lemma_voice_beats_len(m, v, k - 1);
        let last = BeatAddress { bar: m as usize, voice: v as usize, beat: (k - 1) as usize };
        let prev = voice_beats(m, v, k - 1);
        if a == last {
            assert(voice_beats(m, v, k)[k - 1] == a);
        }
        if voice_beats(m, v, k).contains(a) {
            let i = choose|i: int| 0 <= i < voice_beats(m, v, k).len() && voice_beats(m, v, k)[i] == a;
            if i < prev.len() {
                assert(prev[i] == a);
            }
        }
        if prev.contains(a) {
            let i = choose|i: int| 0 <= i < prev.len() && prev[i] == a;
            assert(voice_beats(m, v, k)[i] == a);
        }
    }
}

proof fn lemma_voice_beats_len(m: int, v: int, k: int)
    ensures
        voice_beats(m, v, k).len() == if k <= 0 {
            0
        } else {
            k
        },
    decreases k,
{
    if k > 0 {
        lemma_voice_beats_len(m, v, k - 1);
    }
}

proof fn lemma_concat_contains(x: Seq<BeatAddress>, y: Seq<BeatAddress>, a: BeatAddress)
    ensures
        (x + y).contains(a) <==> x.contains(a) || y.contains(a),
{
    if (x + y).contains(a) {
        let i = choose|i: int| 0 <= i < (x + y).len() && (x + y)[i] == a;
        if i < x.len() {
            assert(x[i] == a);
        } else {
            assert(y[i - x.len()] == a);
        }
    }
    if x.contains(a) {
        let i = choose|i: int| 0 <= i < x.len() && x[i] == a;
        assert((x + y)[i] == a);
    }
    if y.contains(a) {
        let i = choose|i: int| 0 <= i < y.len() && y[i] == a;
        assert((x + y)[x.len() + i] == a);
    }
}

proof fn lemma_measure_beats(m: int, counts: Seq<usize>, k: int, a: BeatAddress)
    requires
        0 <= m <= usize::MAX,
        k <= counts.len(),
        k <= usize::MAX,
    ensures
        measure_beats(m, counts, k).contains(a) <==> (a.bar == m && a.voice < k && a.beat
            < counts[a.voice as int]),
    decreases k,
{
    if k > 0 {
        lemma_measure_beats(m, counts, k - 1, a);
        lemma_voice_beats(m, k - 1, counts[k - 1] as int, a);
        lemma_concat_contains(
            measure_beats(m, counts, k - 1),
            voice_beats(m, k - 1, counts[k - 1] as int),
            a,
        );
    }
}

proof fn lemma_group_beats(first: int, end: int, counts: Seq<Seq<usize>>, a: BeatAddress)
    requires
        0 <= first,
        end <= counts.len(),
        end <= usize::MAX + 1,
        forall|m: int| 0 <= m < counts.len() ==> (#[trigger] counts[m]).len() <= usize::MAX,
    ensures
        group_beats(first, end, counts).contains(a) <==> source_beat_in(a, first, end, counts),
    decreases end - first,
{
    if end > first {
        lemma_group_beats(first, end - 1, counts, a);
        lemma_measure_beats(end - 1, counts[end - 1], counts[end - 1].len() as int, a);
        lemma_concat_contains(
            group_beats(first, end - 1, counts),
            measure_beats(end - 1, counts[end - 1], counts[end - 1].len() as int),
            a,
        );
    }
}

/// Bidirectional view of the measure groups represented by condensed rests.
#[derive(Clone, Debug)]
pub struct MeasureProjection {
    /// Consecutive source measures shown as one bar each.
    pub groups: Vec<Range<usize>>,
}

/// One bar of a condensed track.
#[derive(Clone, Copy, Debug, PartialEq, Eq, Structural)]
pub struct CompactBar {
    /// The source measure whose header the bar shows.
    pub source: usize,
    /// The bar number shown: the one-based number of `source`.
    pub display_number: usize,
    /// How many measures a condensed rest stands for; `None` for a single measure.
    pub rest_count: Option<usize>,
}

fn all_eligible(tracks: &Vec<RestTrack>, mi: usize) -> (r: bool)
    requires
        tracks_aligned(tracks@, tracks@[0].measures@.len() as int),
        0 < tracks@.len(),
        mi < tracks@[0].measures@.len(),
    ensures
        r == eligible(tracks@, mi as int),
{
    let n = tracks[0].measures.len();
    let mut t: usize = 0;
    while t < tracks.len()
        invariant
            0 < tracks@.len(),
            n == tracks@[0].measures@.len(),
            tracks_aligned(tracks@, n as int),
            mi < n,
            t <= tracks@.len(),
            forall|u: int|
                0 <= u < t ==> (#[trigger] tracks@[u]).measures@[mi as int].silent
                    && !span_covers(tracks@[u], mi as int),
        decreases tracks.len() - t,
    {
        let track = &tracks[t];
        assert(track.measures@.len() == n);
        if !track.measures[mi].silent {
            return false;
        }
        let mut s: usize = 0;
        while s < track.span_bars.len()
            invariant
                t < tracks@.len(),
                *track == tracks@[t as int],
                s <= track.span_bars@.len(),
                forall|j: int|
                    0 <= j < s ==> !(#[trigger] track.span_bars@[j].0 <= mi
                        && mi <= track.span_bars@[j].1),
            decreases track.span_bars.len() - s,
        {
            let (first, last) = track.span_bars[s];
            if first <= mi && mi <= last {
                assert(track.span_bars@[s as int].0 <= mi && mi <= track.span_bars@[s as int].1);
                return false;
            }
            s = s + 1;
        }
        t = t + 1;
    }
    true
}

fn all_open(tracks: &Vec<RestTrack>, mi: usize) -> (r: bool)
    requires
        tracks_aligned(tracks@, tracks@[0].measures@.len() as int),
        0 < tracks@.len(),
        mi < tracks@[0].measures@.len(),
    ensures
        r == opens_rest(tracks@, mi as int),
{
    let n = tracks[0].measures.len();
    let mut t: usize = 0;
    while t < tracks.len()
        invariant
            0 < tracks@.len(),
            n == tracks@[0].measures@.len(),
            tracks_aligned(tracks@, n as int),
            mi < n,
            t <= tracks@.len(),
            forall|u: int|
                0 <= u < t ==> {
                    let m = (#[trigger] tracks@[u]).measures@[mi as int];
                    !m.repeat_end && !m.double_bar && !m.has_fermatas && !m.has_navigation
                },
        decreases tracks.len() - t,
    {
        assert(tracks@[t as int].measures@.len() == n);
        let m = tracks[t].measures[mi];
        if m.repeat_end || m.double_bar || m.has_fermatas || m.has_navigation {
            return false;
        }
        t = t + 1;
    }
    true
}

fn boundary(track: &RestTrack, mi: usize) -> (r: bool)
    requires
        mi < track.measures@.len(),
    ensures
        r == is_boundary(*track, mi as int),
{
    let m = track.measures[mi];
    if m.break_before || m.has_clef || m.has_tempo || m.has_marker || m.repeat_start
        || m.repeat_end || m.double_bar || m.has_alternate_endings || m.has_navigation
        || m.has_fermatas || m.free_time || m.has_triplet_feel {
        return true;
    }
    if mi > 0 {
        let previous = track.measures[mi - 1];
        previous.meter_numerator != m.meter_numerator || previous.meter_denominator
            != m.meter_denominator || previous.key_signature != m.key_signature
    } else {
        false
    }
}

fn no_boundary(tracks: &Vec<RestTrack>, mi: usize) -> (r: bool)
    requires
        tracks_aligned(tracks@, tracks@[0].measures@.len() as int),
        0 < tracks@.len(),
        mi < tracks@[0].measures@.len(),
    ensures
        r == continues_rest(tracks@, mi as int),
{
    let n = tracks[0].measures.len();
    let mut t: usize = 0;
    while t < tracks.len()
        invariant
            0 < tracks@.len(),
            n == tracks@[0].measures@.len(),
            tracks_aligned(tracks@, n as int),
            mi < n,
            t <= tracks@.len(),
            forall|u: int| 0 <= u < t ==> !is_boundary(#[trigger] tracks@[u], mi as int),
        decreases tracks.len() - t,
    {
        assert(tracks@[t as int].measures@.len() == n);
        if boundary(&tracks[t], mi) {
            return false;
        }
        t = t + 1;
    }
    true
}

impl MeasureProjection {
    /// Number of source measures the groups cover.
    pub open spec fn measure_count(&self) -> int {
        if self.groups@.len() == 0 {
            0
        } else {
            self.groups@.last().end as int
        }
    }

    /// The groups are nonempty, consecutive and start at measure zero.
    pub open spec fn wf(&self) -> bool {
        &&& self.groups@.len() > 0 ==> self.groups@[0].start == 0
        &&& forall|k: int|
            0 <= k < self.groups@.len() ==> (#[trigger] self.groups@[k]).start
                < self.groups@[k].end
        &&& forall|k: int|
            0 < k < self.groups@.len() ==> (#[trigger] self.groups@[k]).start
                == self.groups@[k - 1].end
    }

    /// Groups the measures of tracks that share one measure partition. A
    /// group is a condensed rest when its first measure is eligible in every
    /// track and may open a rest; it then extends over each following eligible
    /// measure at which no track starts a new section.
    pub fn build(tracks: &Vec<RestTrack>) -> (p: Self)
        requires
            0 < tracks@.len(),
            tracks_aligned(tracks@, tracks@[0].measures@.len() as int),
        ensures
            groups_partition(tracks@, tracks@[0].measures@.len() as int, p.groups@),
            p.wf(),
            p.measure_count() == tracks@[0].measures@.len(),
    {
        let n = tracks[0].measures.len();
        let mut groups: Vec<Range<usize>> = Vec::new();
        let mut first: usize = 0;
        while first < n
            invariant
                0 < tracks@.len(),
                n == tracks@[0].measures@.len(),
                tracks_aligned(tracks@, n as int),
                first <= n,
                (groups@.len() == 0 <==> first == 0),
                groups@.len() > 0 ==> groups@[0].start == 0 && groups@.last().end == first,
                forall|k: int|
                    0 <= k < groups@.len() ==> (#[trigger] groups@[k]).end == group_end(
                        tracks@,
                        n as int,
                        groups@[k].start as int,
                    ) && groups@[k].start < groups@[k].end,
                forall|k: int|
                    0 < k < groups@.len() ==> (#[trigger] groups@[k]).start == groups@[k - 1].end,
            decreases n - first,
        {
            let mut end = first + 1;
            if all_eligible(tracks, first) && all_open(tracks, first) {
                while end < n && all_eligible(tracks, end) && no_boundary(tracks, end)
                    invariant
                        0 < tracks@.len(),
                        n == tracks@[0].measures@.len(),
                        tracks_aligned(tracks@, n as int),
                        first < end <= n,
                        run_end(tracks@, n as int, end as int) == run_end(
                            tracks@,
                            n as int,
                            first + 1,
                        ),
                    decreases n - end,
                {
                    end = end + 1;
                }
            }
            let ghost before = groups@;
            groups.push(first..end);
            proof {
                assert(groups@[groups@.len() - 1] == (first..end));
                assert forall|k: int| 0 < k < groups@.len() implies (#[trigger] groups@[k]).start
                    == groups@[k - 1].end by {
                    if k < before.len() {
                        assert(groups@[k] == before[k]);
                        assert(groups@[k - 1] == before[k - 1]);
                    }
                }
            }
            first = end;
        }
        MeasureProjection { groups }
    }

    /// The index of the condensed bar that shows source measure `measure`.
    pub fn group_of(&self, measure: usize) -> (k: usize)
        requires
            self.wf(),
            measure < self.measure_count(),
        ensures
            k < self.groups@.len(),
            self.groups@[k as int].start <= measure < self.groups@[k as int].end,
    {
        let mut k: usize = 0;
        while k < self.groups.len()
            invariant
                self.wf(),
                measure < self.measure_count(),
                k <= self.groups@.len(),
                k > 0 ==> self.groups@[k - 1].end <= measure,
            decreases self.groups.len() - k,
        {
            if self.groups[k].start <= measure && measure < self.groups[k].end {
                return k;
            }
            proof {
                if k > 0 {
                    assert(self.groups@[k as int].start == self.groups@[k - 1].end);
                }
            }
            k = k + 1;
        }
        0
    }

    /// The bars of the condensed tracks: each shows the header of its group's
    /// first measure under that measure's number, and a group of several
    /// measures is one condensed rest counting them.
    pub fn compact_bars(&self) -> (bars: Vec<CompactBar>)
        requires
            self.wf(),
        ensures
            bars@.len() == self.groups@.len(),
            forall|k: int|
                0 <= k < bars@.len() ==> #[trigger] bars@[k] == (CompactBar {
                    source: self.groups@[k].start,
                    display_number: (self.groups@[k].start + 1) as usize,
                    rest_count: if self.groups@[k].end - self.groups@[k].start > 1 {
                        Some((self.groups@[k].end - self.groups@[k].start) as usize)
                    } else {
                        None
                    },
                }),
    {
        let mut bars: Vec<CompactBar> = Vec::new();
        let mut k: usize = 0;
        while k < self.groups.len()
            invariant
                self.wf(),
                k <= self.groups@.len(),
                bars@.len() == k,
                forall|j: int|
                    0 <= j < k ==> #[trigger] bars@[j] == (CompactBar {
                        source: self.groups@[j].start,
                        display_number: (self.groups@[j].start + 1) as usize,
                        rest_count: if self.groups@[j].end - self.groups@[j].start > 1 {
                            Some((self.groups@[j].end - self.groups@[j].start) as usize)
                        } else {
                            None
                        },
                    }),
            decreases self.groups.len() - k,
        {
            let group = &self.groups[k];
            let count = group.end - group.start;
            bars.push(
                CompactBar {
                    source: group.start,
                    display_number: group.start + 1,
                    rest_count: if count > 1 {
                        Some(count)
                    } else {
                        None
                    },
                },
            );
            k = k + 1;
        }
        bars
    }

    /// The source beats that beat `address` of a condensed bar stands for;
    /// see [`spec_expand`]. `beat_counts[m][v]` is the number of beats in
    /// voice `v` of source measure `m`.
    pub fn expand(&self, address: BeatAddress, beat_counts: &Vec<Vec<usize>>) -> (r: Vec<
        BeatAddress,
    >)
        requires
            self.wf(),
            address.bar < self.groups@.len(),
            beat_counts@.len() == self.measure_count(),
        ensures
            r@ == spec_expand(
                self.groups@[address.bar as int],
                address,
                count_views(beat_counts@),
            ),
    {
        let start = self.groups[address.bar].start;
        let end = self.groups[address.bar].end;
        let ghost group = self.groups@[address.bar as int];
        proof {
            lemma_group_within(*self, address.bar as int);
        }
        if end - start == 1 {
            let mut single: Vec<BeatAddress> = Vec::new();
            single.push(BeatAddress { bar: start, voice: address.voice, beat: address.beat });
            assert(single@ =~= seq![BeatAddress { bar: start, ..address }]);
            return single;
        }
        let ghost counts = count_views(beat_counts@);
        let mut out: Vec<BeatAddress> = Vec::new();
        let mut m: usize = start;
        while m < end
            invariant
                start <= m <= end,
                end <= beat_counts@.len(),
                counts == count_views(beat_counts@),
                out@ == group_beats(start as int, m as int, counts),
            decreases end - m,
        {
            let voices = &beat_counts[m];
            assert(counts[m as int] == voices@);
            let ghost before = out@;
            let mut v: usize = 0;
            while v < voices.len()
                invariant
                    m < end <= beat_counts@.len(),
                    counts == count_views(beat_counts@),
                    counts[m as int] == voices@,
                    v <= voices@.len(),
                    out@ == before + measure_beats(m as int, voices@, v as int),
                decreases voices.len() - v,
            {
                let count = voices[v];
                let ghost mid = out@;
                let mut b: usize = 0;
                while b < count
                    invariant
                        b <= count,
                        out@ == mid + voice_beats(m as int, v as int, b as int),
                    decreases count - b,
                {
                    out.push(BeatAddress { bar: m, voice: v, beat: b });
                    b = b + 1;
                    assert(out@ =~= mid + voice_beats(m as int, v as int, b as int));
                }
                v = v + 1;
                assert(out@ =~= before + measure_beats(m as int, voices@, v as int));
            }
            m = m + 1;
            assert(out@ =~= group_beats(start as int, m as int, counts));
        }
        out
    }

    /// A span of a source track moved onto the condensed bars: each endpoint's
    /// bar becomes the bar of the group that holds it.
    pub fn compact_span(&self, span: &Span) -> (r: Span)
        requires
            self.wf(),
            span.start.bar < self.measure_count(),
            span.end.bar < self.measure_count(),
        ensures
            r.start.bar < self.groups@.len(),
            r.end.bar < self.groups@.len(),
            self.groups@[r.start.bar as int].start <= span.start.bar < self.groups@[r.start.bar as int].end,
            self.groups@[r.end.bar as int].start <= span.end.bar < self.groups@[r.end.bar as int].end,
            r@ == (SpanView {
                start: crate::track::BeatAddress { bar: r.start.bar, ..span.start },
                end: crate::track::BeatAddress { bar: r.end.bar, ..span.end },
                ..span@
            }),
    {
        let mut moved = copy_span(span);
        moved.start.bar = self.group_of(span.start.bar);
        moved.end.bar = self.group_of(span.end.bar);
        moved
    }
}

/// Groups of a projection lie in order: an earlier group ends no later than a
/// later one starts.
proof fn lemma_groups_ordered(p: MeasureProjection, i: int, j: int)
    requires
        p.wf(),
        0 <= i < j < p.groups@.len(),
    ensures
        p.groups@[i].end <= p.groups@[j].start,
    decreases j - i,
{
    assert(p.groups@[j].start == p.groups@[j - 1].end);
    if i < j - 1 {
        lemma_groups_ordered(p, i, j - 1);
        assert(p.groups@[j - 1].start < p.groups@[j - 1].end);
    }
}

/// A group at or after group `k` holds measure `m`, when group `k` starts no later than `m`.
proof fn lemma_group_from(p: MeasureProjection, m: int, k: int) -> (g: int)
    requires
        p.wf(),
        0 <= m < p.measure_count(),
        0 <= k < p.groups@.len(),
        p.groups@[k].start <= m,
    ensures
        k <= g < p.groups@.len(),
        p.groups@[g].start <= m < p.groups@[g].end,
    decreases p.groups@.len() - k,
{
    if m < p.groups@[k].end {
        k
    } else {
        assert(k + 1 < p.groups@.len());
        assert(p.groups@[k + 1].start == p.groups@[k].end);
        lemma_group_from(p, m, k + 1)
    }
}

/// Every source measure belongs to exactly one condensed bar.
pub proof fn every_measure_in_one_group(p: MeasureProjection, m: int)
    requires
        p.wf(),
        0 <= m < p.measure_count(),
    ensures
        exists|k: int|
            0 <= k < p.groups@.len() && (#[trigger] p.groups@[k]).start <= m < p.groups@[k].end,
        forall|a: int, b: int|
            0 <= a < p.groups@.len() && 0 <= b < p.groups@.len() && (#[trigger] p.groups@[a]).start
                <= m < p.groups@[a].end && (#[trigger] p.groups@[b]).start <= m < p.groups@[b].end
                ==> a == b,
{
    let k = lemma_group_from(p, m, 0);
    assert(p.groups@[k].start <= m < p.groups@[k].end);
    assert forall|a: int, b: int|
        0 <= a < p.groups@.len() && 0 <= b < p.groups@.len() && (#[trigger] p.groups@[a]).start <= m
            < p.groups@[a].end && (#[trigger] p.groups@[b]).start <= m < p.groups@[b].end implies a
        == b by {
        if a < b {
            lemma_groups_ordered(p, a, b);
        } else if b < a {
            lemma_groups_ordered(p, b, a);
        }
    }
}

/// Condensing keeps measure order: a later source measure never lands on an
/// earlier condensed bar, so span endpoints stay ordered.
pub proof fn condensing_keeps_measure_order(p: MeasureProjection, m1: int, m2: int, k1: int, k2: int)
    requires
        p.wf(),
        0 <= k1 < p.groups@.len(),
        0 <= k2 < p.groups@.len(),
        p.groups@[k1].start <= m1 < p.groups@[k1].end,
        p.groups@[k2].start <= m2 < p.groups@[k2].end,
        m1 <= m2,
    ensures
        k1 <= k2,
{
    if k2 < k1 {
        lemma_groups_ordered(p, k2, k1);
    }
}

/// Every group lies within the measures the projection covers.
proof fn lemma_group_within(p: MeasureProjection, k: int)
    requires
        p.wf(),
        0 <= k < p.groups@.len(),
    ensures
        p.groups@[k].end <= p.measure_count(),
    decreases p.groups@.len() - k,
{
    if k + 1 < p.groups@.len() {
        lemma_group_within(p, k + 1);
        assert(p.groups@[k + 1].start == p.groups@[k].end);
    }
}

/// Condensing rests loses no beat address: a beat of a bar that shows one
/// measure stands for the same voice and beat of that measure, and the rest of
/// a condensed bar stands for exactly the beats of the measures it condenses.
pub proof fn condensed_rests_keep_every_address(
    p: MeasureProjection,
    counts: Seq<Seq<usize>>,
    k: int,
    a: BeatAddress,
    source: BeatAddress,
)
    requires
        p.wf(),
        0 <= k < p.groups@.len(),
        counts.len() == p.measure_count(),
        forall|m: int| 0 <= m < counts.len() ==> (#[trigger] counts[m]).len() <= usize::MAX,
    ensures
        p.groups@[k].end - p.groups@[k].start == 1 ==> spec_expand(p.groups@[k], a, counts) == seq![
            BeatAddress { bar: p.groups@[k].start, ..a },
        ],
        p.groups@[k].end - p.groups@[k].start > 1 ==> (spec_expand(p.groups@[k], a, counts).contains(
            source,
        ) <==> source_beat_in(source, p.groups@[k].start as int, p.groups@[k].end as int, counts)),
{
    lemma_group_within(p, k);
    if p.groups@[k].end - p.groups@[k].start > 1 {
        lemma_group_beats(p.groups@[k].start as int, p.groups@[k].end as int, counts, source);
    }
}

proof fn lemma_run_end_continues(tracks: Seq<RestTrack>, n: int, e: int, m: int)
    requires
        e <= m < run_end(tracks, n, e),
    ensures
        m < n,
        eligible(tracks, m),
        continues_rest(tracks, m),
    decreases n - e,
{
    if e < n && eligible(tracks, e) && continues_rest(tracks, e) {
        if m > e {
            lemma_run_end_continues(tracks, n, e + 1, m);
        }
    }
}

/// A condensed rest never hides a change or a mark: within every group, each
/// measure after the first has, in every track, the key signature and meter of
/// the measure before it, and carries no system break, clef, tempo, marker,
/// repeat sign, double bar, alternate ending, navigation mark, fermata, free
/// time or triplet feel; and every measure of a group of several measures is
/// silent in every track.
pub proof fn condensed_rests_keep_key_meter_and_marks(
    tracks: Seq<RestTrack>,
    n: int,
    groups: Seq<Range<usize>>,
    k: int,
    t: int,
    m: int,
)
    requires
        tracks_aligned(tracks, n),
        groups_partition(tracks, n, groups),
        0 <= k < groups.len(),
        0 <= t < tracks.len(),
        groups[k].start <= m < groups[k].end,
    ensures
        groups[k].end - groups[k].start > 1 ==> tracks[t].measures@[m].silent,
        m > groups[k].start ==> ({
            let here = tracks[t].measures@[m];
            let before = tracks[t].measures@[m - 1];
            &&& here.key_signature == before.key_signature
            &&& here.meter_numerator == before.meter_numerator
            &&& here.meter_denominator == before.meter_denominator
            &&& !here.break_before && !here.has_clef && !here.has_tempo && !here.has_marker
            &&& !here.repeat_start && !here.repeat_end && !here.double_bar
            &&& !here.has_alternate_endings && !here.has_navigation && !here.has_fermatas
            &&& !here.free_time && !here.has_triplet_feel
        }),
{
    let first = groups[k].start as int;
    assert(groups[k].end == group_end(tracks, n, first));
    if groups[k].end - groups[k].start > 1 {
        assert(eligible(tracks, first) && opens_rest(tracks, first));
        if m > first {
            lemma_run_end_continues(tracks, n, first + 1, m);
            assert(eligible(tracks, m));
        } else {
            assert(eligible(tracks, first));
        }
        assert(tracks[t].measures@[m].silent);
    }
    if m > first {
        lemma_run_end_continues(tracks, n, first + 1, m);
        assert(!is_boundary(tracks[t], m));
    }
}

} // verus!
