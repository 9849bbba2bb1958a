//! Pointer-driven beat selection.
//!
//! The drawing surface reports, for one pass, which beat lies under the
//! pointer and what the pointer did; the caller owns the selection, and the
//! functions here decide how that pass changes it. Click selects a beat,
//! shift-click extends the selection, and dragging selects a range. A
//! selection holds every beat whose musical time lies between its endpoints,
//! across voices and tracks.
use crate::score::{ScoreBeatAddress, ScoreSelection};
use crate::track::{BeatAddress, Selection};
use vstd::prelude::*;

verus! {

/// What the pointer did during one interactive pass.
#[derive(Clone, Copy, Debug, Default, PartialEq, Eq, Structural)]
pub struct PointerInput {
    /// The pointer was clicked.
    pub clicked: bool,
    /// Shift was held.
    pub shift: bool,
    /// A drag began.
    pub drag_started: bool,
    /// The pointer is being dragged.
    pub dragged: bool,
}

/// Result of one interactive pass over a single-track layout.
#[derive(Clone, Copy, Debug, PartialEq, Eq, Structural)]
pub struct Interaction {
    /// Beat clicked during this pass, if any.
    pub clicked: Option<BeatAddress>,
    /// Beat under the pointer during this pass, if any.
    pub hovered: Option<BeatAddress>,
}

/// Result of one interactive pass over a score layout.
#[derive(Clone, Copy, Debug, PartialEq, Eq, Structural)]
pub struct ScoreInteraction {
    /// Beat clicked during this pass, if any.
    pub clicked: Option<ScoreBeatAddress>,
    /// Beat under the pointer during this pass, if any.
    pub hovered: Option<ScoreBeatAddress>,
}

/// The selection of the single beat `a`.
pub open spec fn point(a: BeatAddress) -> Selection {
    Selection { anchor: a, end: a }
}

/// `s` with its movable end at `a`, or the single beat `a` when nothing is selected.
pub open spec fn extend(s: Option<Selection>, a: BeatAddress) -> Selection {
    match s {
        Some(s) => Selection { anchor: s.anchor, end: a },
        None => point(a),
    }
}

/// How one pass over a single-track layout changes the selection: a click on
/// a beat selects it, or extends the selection to it with shift held; starting
/// a drag on a beat selects it; dragging over a beat moves the selection's end there.
pub open spec fn spec_select(s: Option<Selection>, at: Option<BeatAddress>, input: PointerInput) -> Option<
    Selection,
> {
    let after_click = match at {
        Some(a) => if input.clicked {
            if input.shift {
                Some(extend(s, a))
            } else {
                Some(point(a))
            }
        } else {
            s
        },
        None => s,
    };
    let after_start = match at {
        Some(a) => if input.drag_started {
            Some(point(a))
        } else {
            after_click
        },
        None => after_click,
    };
    match (after_start, at) {
        (Some(sel), Some(a)) => if input.dragged {
            Some(Selection { anchor: sel.anchor, end: a })
        } else {
            after_start
        },
        _ => after_start,
    }
}

/// Applies one pass of pointer input to the caller's selection; `at` is the
/// beat under the pointer. Reports the clicked and hovered beats.
pub fn handle_pointer(
    selection: &mut Option<Selection>,
    at: Option<BeatAddress>,
    input: PointerInput,
) -> (r: Interaction)
    ensures
        *final(selection) == spec_select(*old(selection), at, input),
        r.hovered == at,
        r.clicked == (if input.clicked {
            at
        } else {
            None
        }),
{
    let clicked = if input.clicked {
        at
    } else {
        None
    };
    if let Some(address) = clicked {
        if input.shift {
            match selection {
                Some(s) => {
                    *selection = Some(Selection { anchor: s.anchor, end: address });
                },
                None => {
                    *selection = Some(Selection { anchor: address, end: address });
                },
            }
        } else {
            *selection = Some(Selection { anchor: address, end: address });
        }
    }
    if input.drag_started {
        if let Some(address) = at {
            *selection = Some(Selection { anchor: address, end: address });
        }
    }
    if input.dragged {
        if let (Some(s), Some(address)) = (*selection, at) {
            *selection = Some(Selection { anchor: s.anchor, end: address });
        }
    }
    Interaction { clicked, hovered: at }
}

/// The score selection of the single beat `a`.
pub open spec fn score_point(a: ScoreBeatAddress) -> ScoreSelection {
    ScoreSelection { anchor: a, end: a }
}

/// How one pass over a score layout changes the selection: a click or the
/// start of a drag on a beat selects it, or extends the selection to it with
/// shift held; dragging over a beat moves the selection's end there.
pub open spec fn spec_select_score(
    s: Option<ScoreSelection>,
    at: Option<ScoreBeatAddress>,
    input: PointerInput,
) -> Option<ScoreSelection> {
    let after_press = match at {
        Some(a) => if input.clicked || input.drag_started {
            if input.shift {
                match s {
                    Some(sel) => Some(ScoreSelection { anchor: sel.anchor, end: a }),
                    None => Some(score_point(a)),
                }
            } else {
                Some(score_point(a))
            }
        } else {
            s
        },
        None => s,
    };
    match (after_press, at) {
        (Some(sel), Some(a)) => if input.dragged {
            Some(ScoreSelection { anchor: sel.anchor, end: a })
        } else {
            after_press
        },
        _ => after_press,
    }
}

/// Applies one pass of pointer input to the caller's score selection; `at` is
/// the beat under the pointer. Reports the clicked and hovered beats.
pub fn handle_score_pointer(
    selection: &mut Option<ScoreSelection>,
    at: Option<ScoreBeatAddress>,
    input: PointerInput,
) -> (r: ScoreInteraction)
    ensures
        *final(selection) == spec_select_score(*old(selection), at, input),
        r.hovered == at,
        r.clicked == (if input.clicked {
            at
        } else {
            None
        }),
{
    let clicked = if input.clicked {
        at
    } else {
        None
    };
    let pressed = if input.clicked || input.drag_started {
        at
    } else {
        None
    };
    if let Some(address) = pressed {
        if input.shift {
            match selection {
                Some(s) => {
                    *selection = Some(ScoreSelection { anchor: s.anchor, end: address });
                },
                None => {
                    *selection = Some(ScoreSelection { anchor: address, end: address });
                },
            }
        } else {
            *selection = Some(ScoreSelection { anchor: address, end: address });
        }
    }
    if input.dragged {
        if let (Some(s), Some(address)) = (*selection, at) {
            *selection = Some(ScoreSelection { anchor: s.anchor, end: address });
        }
    }
    ScoreInteraction { clicked, hovered: at }
}

/// A click without shift on a beat selects exactly that beat.
pub proof fn click_selects_beat(s: Option<Selection>, a: BeatAddress)
    ensures
        spec_select(
            s,
            Some(a),
            PointerInput { clicked: true, shift: false, drag_started: false, dragged: false },
        ) == Some(point(a)),
{
}

/// A shift-click on a beat keeps the selection's anchor and moves its end to
/// that beat; with nothing selected it selects the beat.
pub proof fn shift_click_extends_selection(s: Option<Selection>, a: BeatAddress)
    ensures
        spec_select(
            s,
            Some(a),
            PointerInput { clicked: true, shift: true, drag_started: false, dragged: false },
        ) == Some(extend(s, a)),
{
}

/// A pass in which the pointer is over no beat leaves the selection unchanged.
pub proof fn pointer_off_beats_keeps_selection(s: Option<Selection>, input: PointerInput)
    ensures
        spec_select(s, None, input) == s,
{
}

/// A pass in which the pointer is over no beat leaves the score selection unchanged.
pub proof fn pointer_off_score_beats_keeps_selection(s: Option<ScoreSelection>, input: PointerInput)
    ensures
        spec_select_score(s, None, input) == s,
{
}

/// Where one laid-out beat sits in musical time.
#[derive(Clone, Copy, Debug, PartialEq, Eq, Structural)]
pub struct BeatTime {
    /// The beat.
    pub address: BeatAddress,
    /// Its onset within its bar as an order key: of two beats of one bar, the
    /// later one has the greater key, and simultaneous beats have equal keys.
    pub onset: u64,
}

/// Where one laid-out beat of a score sits in musical time.
#[derive(Clone, Copy, Debug, PartialEq, Eq, Structural)]
pub struct ScoreBeatTime {
    /// The beat.
    pub address: ScoreBeatAddress,
    /// Its onset within its bar as an order key, as in [`BeatTime`].
    pub onset: u64,
}

/// Musical time `x` is no later than `y`: an earlier bar, or the same bar and
/// an onset no later.
pub open spec fn time_le(x: (int, int), y: (int, int)) -> bool {
    x.0 < y.0 || (x.0 == y.0 && x.1 <= y.1)
}

/// The musical time, as bar and onset key, of the first of the first `k`
/// laid-out beats at address `a`.
pub open spec fn time_of(beats: Seq<BeatTime>, a: BeatAddress, k: int) -> Option<(int, int)>
    decreases k,
{
    if k <= 0 {
        None
    } else {
        match time_of(beats, a, k - 1) {
            Some(t) => Some(t),
            None => if beats[k - 1].address == a {
                Some((a.bar as int, beats[k - 1].onset as int))
            } else {
                None
            },
        }
    }
}

/// The musical time of the first of the first `k` laid-out score beats at `a`.
pub open spec fn score_time_of(beats: Seq<ScoreBeatTime>, a: ScoreBeatAddress, k: int) -> Option<
    (int, int),
>
    decreases k,
{
    if k <= 0 {
        None
    } else {
        match score_time_of(beats, a, k - 1) {
            Some(t) => Some(t),
            None => if beats[k - 1].address == a {
                Some((a.beat.bar as int, beats[k - 1].onset as int))
            } else {
                None
            },
        }
    }
}

/// Time `c` lies between the endpoint times `a` and `b`, in either order; a
/// beat that is not laid out lies nowhere.
pub open spec fn between(a: Option<(int, int)>, b: Option<(int, int)>, c: Option<(int, int)>) -> bool {
    match (a, b, c) {
        (Some(a), Some(b), Some(c)) => if time_le(a, b) {
            time_le(a, c) && time_le(c, b)
        } else {
            time_le(b, c) && time_le(c, a)
        },
        _ => false,
    }
}

fn find_time(beats: &Vec<BeatTime>, a: BeatAddress) -> (r: Option<(usize, u64)>)
    ensures
        match r {
            Some(t) => time_of(beats@, a, beats@.len() as int) == Some((t.0 as int, t.1 as int)),
            None => time_of(beats@, a, beats@.len() as int) is None,
        },
{
    let mut i: usize = 0;
    while i < beats.len()
        invariant
            i <= beats@.len(),
            time_of(beats@, a, i as int) is None,
        decreases beats.len() - i,
    {
        if beats[i].address == a {
            let r = Some((a.bar, beats[i].onset));
            proof {
                lemma_time_of_stable(beats@, a, i + 1, beats@.len() as int);
            }
            return r;
        }
        i = i + 1;
    }
    None
}

proof fn lemma_time_of_stable(beats: Seq<BeatTime>, a: BeatAddress, k: int, n: int)
    requires
        0 <= k <= n,
        time_of(beats, a, k) is Some,
    ensures
        time_of(beats, a, n) == time_of(beats, a, k),
    decreases n - k,
{
    if k < n {
        lemma_time_of_stable(beats, a, k, n - 1);
    }
}

fn find_score_time(beats: &Vec<ScoreBeatTime>, a: ScoreBeatAddress) -> (r: Option<(usize, u64)>)
    ensures
        match r {
            Some(t) => score_time_of(beats@, a, beats@.len() as int) == Some(
                (t.0 as int, t.1 as int),
            ),
            None => score_time_of(beats@, a, beats@.len() as int) is None,
        },
{
    let mut i: usize = 0;
    while i < beats.len()
        invariant
            i <= beats@.len(),
            score_time_of(beats@, a, i as int) is None,
        decreases beats.len() - i,
    {
        if beats[i].address == a {
            let r = Some((a.beat.bar, beats[i].onset));
            proof {
                lemma_score_time_of_stable(beats@, a, i + 1, beats@.len() as int);
            }
            return r;
        }
        i = i + 1;
    }
    None
}

proof fn lemma_score_time_of_stable(beats: Seq<ScoreBeatTime>, a: ScoreBeatAddress, k: int, n: int)
    requires
        0 <= k <= n,
        score_time_of(beats, a, k) is Some,
    ensures
        score_time_of(beats, a, n) == score_time_of(beats, a, k),
    decreases n - k,
{
    if k < n {
        lemma_score_time_of_stable(beats, a, k, n - 1);
    }
}

fn within(a: Option<(usize, u64)>, b: Option<(usize, u64)>, c: Option<(usize, u64)>) -> (r: bool)
    ensures
        r == between(
            match a { Some(t) => Some((t.0 as int, t.1 as int)), None => None },
            match b { Some(t) => Some((t.0 as int, t.1 as int)), None => None },
            match c { Some(t) => Some((t.0 as int, t.1 as int)), None => None },
        ),
{
    match (a, b, c) {
        (Some(a), Some(b), Some(c)) => {
            let a_first = a.0 < b.0 || (a.0 == b.0 && a.1 <= b.1);
            let (lo, hi) = if a_first {
                (a, b)
            } else {
                (b, a)
            };
            (lo.0 < c.0 || (lo.0 == c.0 && lo.1 <= c.1)) && (c.0 < hi.0 || (c.0 == hi.0 && c.1
                <= hi.1))
        },
        _ => false,
    }
}

impl Selection {
    /// Whether the beat at `address` lies within the selection's musical
    /// range: its bar and onset lie between those of the two endpoints, in
    /// either order. `beats` lists the laid-out beats; an address that is not
    /// laid out is in no range, and the first entry for an address counts.
    pub fn contains(self, beats: &Vec<BeatTime>, address: BeatAddress) -> (r: bool)
        ensures
            r == between(
                time_of(beats@, self.anchor, beats@.len() as int),
                time_of(beats@, self.end, beats@.len() as int),
                time_of(beats@, address, beats@.len() as int),
            ),
    {
        within(find_time(beats, self.anchor), find_time(beats, self.end), find_time(beats, address))
    }
}

impl ScoreSelection {
    /// Whether the score beat at `address` lies within the selection's
    /// musical range, across all tracks and voices; see [`Selection::contains`].
    pub fn contains(self, beats: &Vec<ScoreBeatTime>, address: ScoreBeatAddress) -> (r: bool)
        ensures
            r == between(
                score_time_of(beats@, self.anchor, beats@.len() as int),
                score_time_of(beats@, self.end, beats@.len() as int),
                score_time_of(beats@, address, beats@.len() as int),
            ),
    {
        within(
            find_score_time(beats, self.anchor),
            find_score_time(beats, self.end),
            find_score_time(beats, address),
        )
    }
}

/// A selection's range does not depend on which endpoint is the anchor, and
/// it holds both of its endpoints whenever they are laid out.
pub proof fn selection_range_is_symmetric(s: Selection, beats: Seq<BeatTime>, address: BeatAddress)
    ensures
        ({
            let n = beats.len() as int;
            between(time_of(beats, s.anchor, n), time_of(beats, s.end, n), time_of(beats, address, n))
                == between(
                time_of(beats, s.end, n),
                time_of(beats, s.anchor, n),
                time_of(beats, address, n),
            )
        }),
        ({
            let n = beats.len() as int;
            time_of(beats, s.anchor, n) is Some && time_of(beats, s.end, n) is Some ==> between(
                time_of(beats, s.anchor, n),
                time_of(beats, s.end, n),
                time_of(beats, s.anchor, n),
            ) && between(
                time_of(beats, s.anchor, n),
                time_of(beats, s.end, n),
                time_of(beats, s.end, n),
            )
        }),
{
}

} // verus!
