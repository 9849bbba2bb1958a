//! Multi-staff score structure: instrument groups, master-bar maps,
//! score-wide beat addresses, and the checks that tracks sharing one system
//! grid must pass.
use crate::error::{ErrorKind, RenderError};
use crate::track::BeatAddress;
use std::ops::Range;
use vstd::prelude::*;

verus! {

/// Connector used to group consecutive instrument staves.
#[derive(Clone, Copy, Debug, Default, PartialEq, Eq, Structural)]
pub enum InstrumentBracket {
    /// Curved brace, commonly used for piano grand staves.
    #[default]
    Brace,
    /// Straight bracket with short horizontal terminals.
    Bracket,
    /// No connector.
    Omitted,
}

/// Visual grouping for consecutive score tracks, such as a piano grand staff.
#[derive(Debug)]
pub struct InstrumentGroup {
    /// Label displayed beside the grouped tracks.
    pub name: String,
    /// Half-open range of indices in the score's track list.
    pub tracks: Range<usize>,
    /// Visual connector drawn beside the group.
    pub bracket: InstrumentBracket,
}

/// Supported connection shapes between different staves.
#[derive(Clone, Copy, Debug, PartialEq, Eq, Structural)]
pub enum CrossStaffSpanKind {
    /// A shared beam with stems to both endpoints.
    Beam,
    /// A curved slur between the endpoints.
    Slur,
}

/// Identifies one beat in a flattened score track.
#[derive(Clone, Copy, Debug, PartialEq, Eq, Structural)]
pub struct ScoreBeatAddress {
    /// Zero-based flattened track index.
    pub track: usize,
    /// Address within that track.
    pub beat: BeatAddress,
}

/// A connection whose endpoints may belong to different staves.
#[derive(Clone, Copy, Debug, PartialEq, Eq, Structural)]
pub struct CrossStaffSpan {
    /// First beat endpoint.
    pub start: ScoreBeatAddress,
    /// Last beat endpoint.
    pub end: ScoreBeatAddress,
    /// Shape connecting the endpoints.
    pub kind: CrossStaffSpanKind,
}

/// Inclusive range of beats selected in a score.
#[derive(Clone, Copy, Debug, PartialEq, Eq, Structural)]
pub struct ScoreSelection {
    /// Fixed endpoint where the selection began.
    pub anchor: ScoreBeatAddress,
    /// Movable endpoint of the selection.
    pub end: ScoreBeatAddress,
}

/// A group's track range is nonempty and inside a score of `track_count` tracks.
pub open spec fn group_range_valid(group: InstrumentGroup, track_count: nat) -> bool {
    group.tracks.start < group.tracks.end && group.tracks.end <= track_count
}

/// Checks that every instrument group names a nonempty range of existing tracks.
pub fn validate_instrument_groups(track_count: usize, groups: &Vec<InstrumentGroup>) -> (r: Result<
    (),
    RenderError,
>)
    ensures
        r is Ok <==> forall|i: int|
            0 <= i < groups@.len() ==> group_range_valid(#[trigger] groups@[i], track_count as nat),
        r matches Err(e) ==> e.kind == ErrorKind::InvalidInput && e.message@
            == "instrument group has an invalid track range"@,
{
    let mut i: usize = 0;
    while i < groups.len()
        invariant
            i <= groups@.len(),
            forall|j: int| 0 <= j < i ==> group_range_valid(#[trigger] groups@[j], track_count as nat),
        decreases groups.len() - i,
    {
        let group = &groups[i];
        if group.tracks.start >= group.tracks.end || group.tracks.end > track_count {
            return Err(
                RenderError::invalid_input(
                    String::from_str("instrument group has an invalid track range"),
                ),
            );
        }
        i = i + 1;
    }
    Ok(())
}

/// Entry `i` of a master-bar map precedes entry `i + 1`.
pub open spec fn ordered_at(map: Seq<usize>, i: int) -> bool {
    map[i] < map[i + 1]
}

/// A staff's master-bar map is usable: one strictly increasing master-bar
/// index per local measure, each below `master_count`.
pub open spec fn master_map_valid(master_count: nat, map: Seq<usize>, measure_count: nat) -> bool {
    &&& map.len() == measure_count
    &&& forall|i: int| 0 <= i < map.len() - 1 ==> #[trigger] ordered_at(map, i)
    &&& forall|i: int| 0 <= i < map.len() ==> #[trigger] map[i] < master_count
}

/// `slot` is the entry of master bar `master`: the local measure mapped there,
/// or `None` when no local measure is.
pub open spec fn is_master_slot(map: Seq<usize>, master: int, slot: Option<usize>) -> bool {
    match slot {
        Some(i) => i < map.len() && map[i as int] == master,
        None => forall|i: int| 0 <= i < map.len() ==> map[i] != master,
    }
}

/// Checks a staff's master-bar map.
fn validate_master_map(master_count: usize, map: &Vec<usize>, measure_count: usize) -> (r: bool)
    ensures
        r == master_map_valid(master_count as nat, map@, measure_count as nat),
{
    if map.len() != measure_count {
        return false;
    }
    let mut i: usize = 0;
    while i < map.len()
        invariant
            i <= map@.len(),
            map@.len() == measure_count,
            forall|j: int| 0 <= j < i ==> #[trigger] map@[j] < master_count,
            forall|j: int| 0 <= j < i && j < map@.len() - 1 ==> #[trigger] ordered_at(map@, j),
        decreases map.len() - i,
    {
        if map[i] >= master_count {
            return false;
        }
        if i + 1 < map.len() && map[i] >= map[i + 1] {
            assert(!ordered_at(map@, i as int));
            return false;
        }
        i = i + 1;
    }
    true
}

/// Lays a staff's measures out on the master-bar timeline: entry `m` of the
/// result is the local measure shown at master bar `m`, or `None` for an empty
/// measure there.
pub fn align_to_master_bars(master_count: usize, map: &Vec<usize>, measure_count: usize) -> (r: Result<
    Vec<Option<usize>>,
    RenderError,
>)
    ensures
        r is Ok <==> master_map_valid(master_count as nat, map@, measure_count as nat),
        r matches Ok(aligned) ==> aligned@.len() == master_count && forall|m: int|
            0 <= m < master_count ==> is_master_slot(map@, m, #[trigger] aligned@[m]),
        r matches Err(e) ==> e.kind == ErrorKind::InvalidInput,
{
    if !validate_master_map(master_count, map, measure_count) {
        return Err(
            RenderError::invalid_input(
                String::from_str("staff master-bar map must be ordered and match its measures"),
            ),
        );
    }
    proof {
        lemma_strictly_increasing(map@);
    }
    let aligned = align_slots(master_count, map);
    Ok(aligned)
}

/// Builds the master-bar slots of a strictly increasing map.
fn align_slots(master_count: usize, map: &Vec<usize>) -> (aligned: Vec<Option<usize>>)
    requires
        forall|a: int, b: int| #![trigger map@[a], map@[b]] 0 <= a < b < map@.len() ==> map@[a] < map@[b],
    ensures
        aligned@.len() == master_count,
        forall|m: int| 0 <= m < master_count ==> is_master_slot(map@, m, #[trigger] aligned@[m]),
{
    let mut aligned: Vec<Option<usize>> = Vec::new();
    let mut m: usize = 0;
    let mut next: usize = 0;
    while m < master_count
        invariant
            m <= master_count,
            next <= map@.len(),
            aligned@.len() == m,
            forall|a: int, b: int|
                #![trigger map@[a], map@[b]]
                0 <= a < b < map@.len() ==> map@[a] < map@[b],
            forall|j: int| 0 <= j < next ==> #[trigger] map@[j] < m,
            next < map@.len() ==> map@[next as int] >= m,
            forall|k: int| 0 <= k < m ==> is_master_slot(map@, k, #[trigger] aligned@[k]),
        decreases master_count - m,
    {
        if next < map.len() && map[next] == m {
            aligned.push(Some(next));
            proof {
                assert forall|j: int| 0 <= j < next + 1 implies #[trigger] map@[j] < m + 1 by {
                    if j < next {
                        assert(map@[j] < m);
                    }
                }
                if next + 1 < map@.len() {
                    assert(map@[next as int] < map@[next + 1]);
                }
            }
            next = next + 1;
        } else {
            proof {
                assert forall|j: int| 0 <= j < map@.len() implies map@[j] != m by {
                    if j < next {
                        assert(map@[j] < m);
                    } else if j > next {
                        assert(map@[next as int] < map@[j]);
                    }
                }
                assert forall|j: int| 0 <= j < next implies #[trigger] map@[j] < m + 1 by {
                    assert(map@[j] < m);
                }
            }
            aligned.push(None);
        }
        m = m + 1;
    }
    aligned
}

/// Adjacent ordering of a sequence extends to every pair.
proof fn lemma_strictly_increasing(map: Seq<usize>)
    requires
        forall|i: int| 0 <= i < map.len() - 1 ==> #[trigger] ordered_at(map, i),
    ensures
        forall|a: int, b: int| #![trigger map[a], map[b]] 0 <= a < b < map.len() ==> map[a] < map[b],
{
    assert forall|a: int, b: int| #![trigger map[a], map[b]] 0 <= a < b < map.len() implies map[a]
        < map[b] by {
        lemma_increasing_pair(map, a, b);
    }
}

/// A laid-out beat stands at `a`: `counts[t][m][v]` is the number of beats
/// in voice `v` of bar `m` of score track `t`.
pub open spec fn score_beat_exists(counts: Seq<Vec<Vec<usize>>>, a: ScoreBeatAddress) -> bool {
    &&& a.track < counts.len()
    &&& a.beat.bar < counts[a.track as int]@.len()
    &&& a.beat.voice < counts[a.track as int]@[a.beat.bar as int]@.len()
    &&& a.beat.beat < counts[a.track as int]@[a.beat.bar as int]@[a.beat.voice as int]
}

fn beat_exists(counts: &Vec<Vec<Vec<usize>>>, a: ScoreBeatAddress) -> (r: bool)
    ensures
        r == score_beat_exists(counts@, a),
{
    if a.track >= counts.len() {
        return false;
    }
    let bars = &counts[a.track];
    if a.beat.bar >= bars.len() {
        return false;
    }
    let voices = &bars[a.beat.bar];
    if a.beat.voice >= voices.len() {
        return false;
    }
    a.beat.beat < voices[a.beat.voice]
}

/// Checks that both ends of a cross-staff span name laid-out beats, the start
/// first; `counts` gives the beats of each track as in [`score_beat_exists`].
pub fn check_cross_staff_endpoints(span: &CrossStaffSpan, counts: &Vec<Vec<Vec<usize>>>) -> (r: Result<
    (),
    RenderError,
>)
    ensures
        r is Ok <==> score_beat_exists(counts@, span.start) && score_beat_exists(counts@, span.end),
        r matches Err(e) ==> e.kind == ErrorKind::InvalidInput && e.message@ == (if !score_beat_exists(
            counts@,
            span.start,
        ) {
            "cross-staff span start does not exist"@
        } else {
            "cross-staff span end does not exist"@
        }),
{
    if !beat_exists(counts, span.start) {
        return Err(RenderError::invalid_input(String::from_str("cross-staff span start does not exist")));
    }
    if !beat_exists(counts, span.end) {
        return Err(RenderError::invalid_input(String::from_str("cross-staff span end does not exist")));
    }
    Ok(())
}

/// The first problem with the tracks of a score laid out with shared
/// settings, where `meters[t][m]` is the time signature of measure `m` of
/// track `t`: no track at all, measure counts that differ, or a measure whose
/// time signature differs from the first track's.
pub open spec fn score_meters_problem(meters: Seq<Vec<(u8, u16)>>) -> Option<Seq<char>> {
    if meters.len() == 0 {
        Some("a score needs at least one track"@)
    } else if exists|t: int| 0 <= t < meters.len() && (#[trigger] meters[t])@.len() != meters[0]@.len() {
        Some("score tracks need matching measure counts"@)
    } else if exists|t: int, m: int|
        #![trigger meters[t]@[m]]
        0 <= t < meters.len() && 0 <= m < meters[0]@.len() && meters[t]@[m] != meters[0]@[m] {
        Some("score tracks need matching time signatures"@)
    } else {
        None
    }
}

/// Checks that the tracks of a score laid out with shared settings agree in
/// measure count and, measure by measure, in time signature.
pub fn check_score_meters(meters: &Vec<Vec<(u8, u16)>>) -> (r: Result<(), RenderError>)
    ensures
        r is Ok <==> score_meters_problem(meters@) is None,
        r matches Err(e) ==> e.kind == ErrorKind::InvalidInput && Some(e.message@)
            == score_meters_problem(meters@),
{
    let n = meters.len();
    if n == 0 {
        return Err(RenderError::invalid_input(String::from_str("a score needs at least one track")));
    }
    let count = meters[0].len();
    let mut t: usize = 0;
    while t < n
        invariant
            n == meters@.len(),
            n > 0,
            count == meters@[0]@.len(),
            t <= n,
            forall|u: int| 0 <= u < t ==> (#[trigger] meters@[u])@.len() == count,
        decreases n - t,
    {
        if meters[t].len() != count {
            assert(meters@[t as int]@.len() != meters@[0]@.len());
            return Err(
                RenderError::invalid_input(
                    String::from_str("score tracks need matching measure counts"),
                ),
            );
        }
        t = t + 1;
    }
    let mut m: usize = 0;
    while m < count
        invariant
            n == meters@.len(),
            n > 0,
            count == meters@[0]@.len(),
            forall|u: int| 0 <= u < n ==> (#[trigger] meters@[u])@.len() == count,
            m <= count,
            forall|u: int, q: int|
                #![trigger meters@[u]@[q]]
                0 <= u < n && 0 <= q < m ==> meters@[u]@[q] == meters@[0]@[q],
        decreases count - m,
    {
        let first = meters[0][m];
        let mut u: usize = 0;
        while u < n
            invariant
                n == meters@.len(),
                count == meters@[0]@.len(),
                forall|v: int| 0 <= v < n ==> (#[trigger] meters@[v])@.len() == count,
                m < count,
                first == meters@[0]@[m as int],
                u <= n,
                forall|v: int| 0 <= v < u ==> (#[trigger] meters@[v])@[m as int] == first,
            decreases n - u,
        {
            let here = meters[u][m];
            if here.0 != first.0 || here.1 != first.1 {
                assert(meters@[u as int]@[m as int] != meters@[0]@[m as int]);
                return Err(
                    RenderError::invalid_input(
                        String::from_str("score tracks need matching time signatures"),
                    ),
                );
            }
            u = u + 1;
        }
        m = m + 1;
    }
    Ok(())
}

/// What a score with per-track settings reads of each track before planning.
#[derive(Clone, Copy, Debug, PartialEq, Eq, Structural)]
pub struct ScoreTrackFacts {
    /// Number of measures in the track.
    pub measure_count: usize,
    /// The track's settings ask for condensed multi-measure rests.
    pub multi_measure_rests: bool,
}

/// The first problem with the tracks of a score with per-track settings, in
/// the order of the checks: no track at all, geometry settings that differ
/// between tracks, condensed rests, measure counts that differ.
pub open spec fn score_tracks_problem(geometry_matches: bool, tracks: Seq<ScoreTrackFacts>) -> Option<
    Seq<char>,
> {
    if tracks.len() == 0 {
        Some("a score needs at least one track"@)
    } else if !geometry_matches {
        Some("score tracks need matching geometry options"@)
    } else if exists|i: int| 0 <= i < tracks.len() && (#[trigger] tracks[i]).multi_measure_rests {
        Some(
            "per-track score layout does not combine multi-measure rests; disable them or use layout_score"@,
        )
    } else if exists|i: int|
        0 <= i < tracks.len() && (#[trigger] tracks[i]).measure_count != tracks[0].measure_count {
        Some("score tracks need matching measure counts"@)
    } else {
        None
    }
}

/// Checks the tracks of a score with per-track settings; `geometry_matches`
/// tells whether every track shares the first track's width, spacing, flow,
/// justification, width policy, system limit and rest setting.
pub fn check_score_tracks(geometry_matches: bool, tracks: &Vec<ScoreTrackFacts>) -> (r: Result<
    (),
    RenderError,
>)
    ensures
        r is Ok <==> score_tracks_problem(geometry_matches, tracks@) is None,
        r matches Err(e) ==> e.kind == ErrorKind::InvalidInput && Some(e.message@)
            == score_tracks_problem(geometry_matches, tracks@),
{
    let n = tracks.len();
    if n == 0 {
        return Err(RenderError::invalid_input(String::from_str("a score needs at least one track")));
    }
    if !geometry_matches {
        return Err(
            RenderError::invalid_input(String::from_str("score tracks need matching geometry options")),
        );
    }
    let mut i: usize = 0;
    while i < n
        invariant
            n == tracks@.len(),
            n > 0,
            geometry_matches,
            i <= n,
            forall|j: int| 0 <= j < i ==> !(#[trigger] tracks@[j]).multi_measure_rests,
        decreases n - i,
    {
        if tracks[i].multi_measure_rests {
            assert(tracks@[i as int].multi_measure_rests);
            return Err(
                RenderError::invalid_input(
                    String::from_str(
                        "per-track score layout does not combine multi-measure rests; disable them or use layout_score",
                    ),
                ),
            );
        }
        i = i + 1;
    }
    let count = tracks[0].measure_count;
    let mut k: usize = 0;
    while k < n
        invariant
            n == tracks@.len(),
            n > 0,
            geometry_matches,
            count == tracks@[0].measure_count,
            k <= n,
            forall|j: int| 0 <= j < n ==> !(#[trigger] tracks@[j]).multi_measure_rests,
            forall|j: int| 0 <= j < k ==> (#[trigger] tracks@[j]).measure_count == count,
        decreases n - k,
    {
        if tracks[k].measure_count != count {
            assert(tracks@[k as int].measure_count != tracks@[0].measure_count);
            return Err(
                RenderError::invalid_input(
                    String::from_str("score tracks need matching measure counts"),
                ),
            );
        }
        k = k + 1;
    }
    Ok(())
}

/// A system break stands before measure `m` of the shared grid when any
/// track asks for one there.
pub open spec fn shared_break(breaks: Seq<Vec<bool>>, m: int) -> bool {
    exists|t: int| 0 <= t < breaks.len() && (#[trigger] breaks[t])@[m]
}

/// The system breaks of the grid that all tracks of a score share: for each
/// of `count` measures, whether any track asks for a break before it.
pub fn shared_breaks(breaks: &Vec<Vec<bool>>, count: usize) -> (r: Vec<bool>)
    requires
        forall|t: int| 0 <= t < breaks@.len() ==> (#[trigger] breaks@[t])@.len() == count,
    ensures
        r@.len() == count,
        forall|m: int| 0 <= m < count ==> r@[m] == shared_break(breaks@, m),
{
    let mut out: Vec<bool> = Vec::new();
    let mut m: usize = 0;
    while m < count
        invariant
            m <= count,
            out@.len() == m,
            forall|t: int| 0 <= t < breaks@.len() ==> (#[trigger] breaks@[t])@.len() == count,
            forall|q: int| 0 <= q < m ==> out@[q] == shared_break(breaks@, q),
        decreases count - m,
    {
        let mut any = false;
        let mut t: usize = 0;
        while t < breaks.len()
            invariant
                m < count,
                t <= breaks@.len(),
                forall|u: int| 0 <= u < breaks@.len() ==> (#[trigger] breaks@[u])@.len() == count,
                any == exists|u: int| 0 <= u < t && (#[trigger] breaks@[u])@[m as int],
            decreases breaks.len() - t,
        {
            if breaks[t][m] {
                any = true;
            }
            t = t + 1;
        }
        out.push(any);
        m = m + 1;
    }
    out
}

proof fn lemma_increasing_pair(map: Seq<usize>, a: int, b: int)
    requires
        forall|i: int| 0 <= i < map.len() - 1 ==> #[trigger] ordered_at(map, i),
        0 <= a < b < map.len(),
    ensures
        map[a] < map[b],
    decreases b - a,
{
    assert(ordered_at(map, b - 1));
    if b > a + 1 {
        lemma_increasing_pair(map, a, b - 1);
    }
}

/// Laying a staff out on master bars loses and duplicates no measure: each
/// local measure is shown at its own master bar, and a shown measure is
/// always one whose map entry names that bar.
pub proof fn measures_keep_their_master_bars(
    master_count: nat,
    map: Seq<usize>,
    measure_count: nat,
    aligned: Seq<Option<usize>>,
)
    requires
        master_map_valid(master_count, map, measure_count),
        aligned.len() == master_count,
        forall|m: int| 0 <= m < master_count ==> is_master_slot(map, m, #[trigger] aligned[m]),
    ensures
        forall|i: int| 0 <= i < map.len() ==> aligned[#[trigger] map[i] as int] == Some(i as usize),
        forall|m: int|
            0 <= m < master_count && aligned[m] is Some ==> aligned[m].unwrap() < measure_count
                && map[aligned[m].unwrap() as int] == m,
{
    lemma_strictly_increasing(map);
    assert forall|i: int| 0 <= i < map.len() implies aligned[#[trigger] map[i] as int] == Some(
        i as usize,
    ) by {
        let m = map[i] as int;
        assert(is_master_slot(map, m, aligned[m]));
        match aligned[m] {
            Some(j) => {
                if (j as int) < i {
                    assert(map[j as int] < map[i]);
                } else if (j as int) > i {
                    assert(map[i] < map[j as int]);
                }
            },
            None => {
                assert(map[i] != m);
            },
        }
    }
    assert forall|m: int|
        0 <= m < master_count && aligned[m] is Some implies aligned[m].unwrap() < measure_count
        && map[aligned[m].unwrap() as int] == m by {
        assert(is_master_slot(map, m, aligned[m]));
    }
}

} // verus!
