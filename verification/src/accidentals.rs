//! Which written notes of a measure need an explicit accidental.
//!
//! A measure's pitched notes are grouped into onsets (simultaneous notes, in
//! time order). Each staff position (step and octave) carries the accidental
//! currently in effect: the key signature's accidental until a note changes it.
//! A note shows its accidental when it differs from the one in effect, or when
//! simultaneous notes on the same staff position disagree. After an onset, every
//! untied note sets the accidental in effect for its staff position; a conflict
//! or a quarter-tone alteration leaves that position undetermined, so the next
//! note there always shows its accidental. Tied notes neither show nor change
//! accidentals.
use crate::notation::{key_accidental, spec_key_accidental, Pitch};
use vstd::prelude::*;

verus! {

/// One pitched, non-percussion note of a measure.
#[derive(Clone, Copy, Debug, PartialEq, Eq, Structural)]
pub struct PitchEvent {
    /// Voice index inside the measure.
    pub voice: usize,
    /// Beat index inside the voice.
    pub beat: usize,
    /// Note index inside the beat.
    pub note: usize,
    /// Written pitch.
    pub pitch: Pitch,
    /// Whether the note continues a tie.
    pub tied: bool,
    /// Quarter-tone offset: -1, 0 or 1.
    pub quarter_tone: i8,
}

/// The staff position of an event.
pub open spec fn position(e: PitchEvent) -> (u8, i8) {
    (e.pitch.step, e.pitch.octave)
}

/// Accidental in effect at every staff position that has been set so far;
/// `None` marks a position left undetermined by a conflict or a quarter tone.
pub type AccidentalState = Map<(u8, i8), Option<i8>>;

/// The accidental in effect for `e` before its onset.
pub open spec fn in_effect(state: AccidentalState, key: i8, e: PitchEvent) -> Option<i8> {
    if state.contains_key(position(e)) {
        state[position(e)]
    } else {
        Some(spec_key_accidental(key as int, e.pitch.step as int) as i8)
    }
}

/// Another untied note of the same onset on the same staff position has a
/// different accidental or quarter tone.
pub open spec fn in_conflict(group: Seq<PitchEvent>, e: PitchEvent) -> bool {
    exists|j: int|
        0 <= j < group.len() && !(#[trigger] group[j]).tied && position(group[j]) == position(e)
            && (group[j].pitch.accidental != e.pitch.accidental || group[j].quarter_tone
            != e.quarter_tone)
}

/// Whether `e` (a note of `group`) shows its accidental.
pub open spec fn is_marked(state: AccidentalState, key: i8, group: Seq<PitchEvent>, e: PitchEvent) -> bool {
    !e.tied && (in_effect(state, key, e) != Some(e.pitch.accidental) || in_conflict(group, e))
}

/// The accidental `e` leaves in effect after its onset.
pub open spec fn change_of(group: Seq<PitchEvent>, e: PitchEvent) -> Option<i8> {
    if in_conflict(group, e) || e.quarter_tone != 0 {
        None
    } else {
        Some(e.pitch.accidental)
    }
}

/// The state after applying the changes of the first `n` notes of `group`.
pub open spec fn apply_changes(state: AccidentalState, group: Seq<PitchEvent>, n: int) -> AccidentalState
    decreases n,
{
    if n <= 0 {
        state
    } else {
        let before = apply_changes(state, group, n - 1);
        let e = group[n - 1];
        if e.tied {
            before
        } else {
            before.insert(position(e), change_of(group, e))
        }
    }
}

/// The state after the first `n` onsets.
pub open spec fn state_after(groups: Seq<Seq<PitchEvent>>, n: int) -> AccidentalState
    decreases n,
{
    if n <= 0 {
        Map::empty()
    } else {
        let g = groups[n - 1];
        apply_changes(state_after(groups, n - 1), g, g.len() as int)
    }
}

/// Addresses `(voice, beat, note)` of the marked notes among the first `n`
/// notes of `group`, in order.
pub open spec fn group_marks(state: AccidentalState, key: i8, group: Seq<PitchEvent>, n: int) -> Seq<
    (usize, usize, usize),
>
    decreases n,
{
    if n <= 0 {
        Seq::empty()
    } else {
        let e = group[n - 1];
        let rest = group_marks(state, key, group, n - 1);
        if is_marked(state, key, group, e) {
            rest.push((e.voice, e.beat, e.note))
        } else {
            rest
        }
    }
}

/// Addresses of the marked notes of the first `n` onsets, in order.
pub open spec fn spec_marks(key: i8, groups: Seq<Seq<PitchEvent>>, n: int) -> Seq<(usize, usize, usize)>
    decreases n,
{
    if n <= 0 {
        Seq::empty()
    } else {
        let g = groups[n - 1];
        spec_marks(key, groups, n - 1) + group_marks(state_after(groups, n - 1), key, g, g.len() as int)
    }
}

/// The state held by a list of `(step, octave, accidental)` assignments, later
/// assignments overriding earlier ones.
pub open spec fn entries_map(entries: Seq<(u8, i8, Option<i8>)>) -> AccidentalState
    decreases entries.len(),
{
    if entries.len() == 0 {
        Map::empty()
    } else {
        let last = entries.last();
        entries_map(entries.drop_last()).insert((last.0, last.1), last.2)
    }
}

/// Assignments after `pos` that never touch `k` leave `k` as it was at `pos`.
proof fn lemma_entries_suffix(entries: Seq<(u8, i8, Option<i8>)>, pos: int, k: (u8, i8))
    requires
        0 <= pos <= entries.len(),
        forall|i: int| pos <= i < entries.len() ==> (entries[i].0, entries[i].1) != k,
    ensures
        entries_map(entries).contains_key(k) == entries_map(entries.take(pos)).contains_key(k),
        entries_map(entries).contains_key(k) ==> entries_map(entries)[k] == entries_map(
            entries.take(pos),
        )[k],
    decreases entries.len(),
{
    if entries.len() > pos {
        let shorter = entries.drop_last();
        assert(shorter.take(pos) == entries.take(pos));
        lemma_entries_suffix(shorter, pos, k);
    } else {
        assert(entries.take(pos) == entries);
    }
}

/// Looks up the assignment in effect for a staff position.
fn lookup(entries: &Vec<(u8, i8, Option<i8>)>, step: u8, octave: i8) -> (r: Option<Option<i8>>)
    ensures
        r is Some <==> entries_map(entries@).contains_key((step, octave)),
        r matches Some(v) ==> v == entries_map(entries@)[(step, octave)],
{
    let mut i: usize = entries.len();
    while i > 0
        invariant
            i <= entries@.len(),
            forall|j: int| i <= j < entries@.len() ==> (entries@[j].0, entries@[j].1) != (step, octave),
        decreases i,
    {
        let entry = entries[i - 1];
        if entry.0 == step && entry.1 == octave {
            proof {
                lemma_entries_suffix(entries@, i as int, (step, octave));
                assert(entries@.take(i as int).drop_last() == entries@.take(i - 1));
            }
            return Some(entry.2);
        }
        i = i - 1;
    }
    proof {
        lemma_entries_suffix(entries@, 0, (step, octave));
        assert(entries@.take(0) =~= Seq::<(u8, i8, Option<i8>)>::empty());
    }
    None
}

/// Whether `e` conflicts with another untied note of its onset.
fn conflicts(group: &Vec<PitchEvent>, e: PitchEvent) -> (r: bool)
    ensures
        r == in_conflict(group@, e),
{
    let mut j: usize = 0;
    while j < group.len()
        invariant
            j <= group@.len(),
            forall|k: int|
                0 <= k < j ==> !(!(#[trigger] group@[k]).tied && position(group@[k]) == position(e)
                    && (group@[k].pitch.accidental != e.pitch.accidental || group@[k].quarter_tone
                    != e.quarter_tone)),
        decreases group.len() - j,
    {
        let other = group[j];
        if !other.tied && other.pitch.step == e.pitch.step && other.pitch.octave == e.pitch.octave
            && (other.pitch.accidental != e.pitch.accidental || other.quarter_tone != e.quarter_tone) {
            assert(group@[j as int] == other);
            return true;
        }
        j = j + 1;
    }
    false
}

/// Addresses `(voice, beat, note)` of the notes that need an explicit
/// accidental, given the measure's onsets in time order and its key in fifths.
pub fn accidental_marks(key: i8, groups: &Vec<Vec<PitchEvent>>) -> (marks: Vec<(usize, usize, usize)>)
    ensures
        marks@ == spec_marks(key, groups@.map_values(|g: Vec<PitchEvent>| g@), groups@.len() as int),
{
    let ghost gs = groups@.map_values(|g: Vec<PitchEvent>| g@);
    let mut entries: Vec<(u8, i8, Option<i8>)> = Vec::new();
    let mut marks: Vec<(usize, usize, usize)> = Vec::new();
    let mut gi: usize = 0;
    while gi < groups.len()
        invariant
            gi <= groups@.len(),
            gs == groups@.map_values(|g: Vec<PitchEvent>| g@),
            entries_map(entries@) == state_after(gs, gi as int),
            marks@ == spec_marks(key, gs, gi as int),
        decreases groups.len() - gi,
    {
        let group = &groups[gi];
        assert(gs[gi as int] == group@);
        let ghost before = entries_map(entries@);
        let ghost marks_before = marks@;
        let mut ei: usize = 0;
        while ei < group.len()
            invariant
                ei <= group@.len(),
                gs[gi as int] == group@,
                entries_map(entries@) == before,
                marks@ == marks_before + group_marks(before, key, group@, ei as int),
            decreases group.len() - ei,
        {
            let e = group[ei];
            if !e.tied {
                let previous: Option<i8> = match lookup(&entries, e.pitch.step, e.pitch.octave) {
                    Some(v) => v,
                    None => Some(key_accidental(key, e.pitch.step)),
                };
                let differs = match previous {
                    Some(a) => a != e.pitch.accidental,
                    None => true,
                };
                if differs || conflicts(group, e) {
                    marks.push((e.voice, e.beat, e.note));
                }
            }
            proof {
                assert(group@[ei as int] == e);
            }
            ei = ei + 1;
            proof {
                assert(marks_before + group_marks(before, key, group@, ei as int) =~= marks@);
            }
        }
        let mut ci: usize = 0;
        while ci < group.len()
            invariant
                ci <= group@.len(),
                gs[gi as int] == group@,
                entries_map(entries@) == apply_changes(before, group@, ci as int),
            decreases group.len() - ci,
        {
            let e = group[ci];
            if !e.tied {
                let change: Option<i8> = if conflicts(group, e) || e.quarter_tone != 0 {
                    None
                } else {
                    Some(e.pitch.accidental)
                };
                let ghost old_entries = entries@;
                entries.push((e.pitch.step, e.pitch.octave, change));
                proof {
                    assert(entries@.drop_last() == old_entries);
                }
            }
            proof {
                assert(group@[ci as int] == e);
            }
            ci = ci + 1;
        }
        proof {
            assert(gs.take(gi + 1).len() == gi + 1);
        }
        gi = gi + 1;
    }
    marks
}

/// The address of a note.
pub open spec fn address_of(e: PitchEvent) -> (usize, usize, usize) {
    (e.voice, e.beat, e.note)
}

proof fn lemma_group_marks_contains(
    state: AccidentalState,
    key: i8,
    group: Seq<PitchEvent>,
    n: int,
    i: int,
)
    requires
        0 <= i < n <= group.len(),
        is_marked(state, key, group, group[i]),
    ensures
        group_marks(state, key, group, n).contains(address_of(group[i])),
    decreases n,
{
    if i < n - 1 {
        lemma_group_marks_contains(state, key, group, n - 1, i);
        let rest = group_marks(state, key, group, n - 1);
        let k = choose|k: int| 0 <= k < rest.len() && rest[k] == address_of(group[i]);
        if is_marked(state, key, group, group[n - 1]) {
            assert(group_marks(state, key, group, n)[k] == rest[k]);
        }
    } else {
        let rest = group_marks(state, key, group, n - 1);
        assert(group_marks(state, key, group, n)[rest.len() as int] == address_of(group[i]));
    }
}

proof fn lemma_spec_marks_contains(
    key: i8,
    groups: Seq<Seq<PitchEvent>>,
    n: int,
    g: int,
    a: (usize, usize, usize),
)
    requires
        0 <= g < n <= groups.len(),
        group_marks(state_after(groups, g), key, groups[g], groups[g].len() as int).contains(a),
    ensures
        spec_marks(key, groups, n).contains(a),
    decreases n,
{
    let before = spec_marks(key, groups, n - 1);
    let last = group_marks(state_after(groups, n - 1), key, groups[n - 1], groups[n - 1].len() as int);
    if g < n - 1 {
        lemma_spec_marks_contains(key, groups, n - 1, g, a);
        let k = choose|k: int| 0 <= k < before.len() && before[k] == a;
        assert(spec_marks(key, groups, n)[k] == a);
    } else {
        let k = choose|k: int| 0 <= k < last.len() && last[k] == a;
        assert(spec_marks(key, groups, n)[before.len() + k] == a);
    }
}

/// Simultaneous untied notes on one staff position with different accidentals
/// both show their accidentals.
pub proof fn conflicting_notes_both_show_accidentals(
    key: i8,
    groups: Seq<Seq<PitchEvent>>,
    g: int,
    i: int,
    j: int,
)
    requires
        0 <= g < groups.len(),
        0 <= i < groups[g].len(),
        0 <= j < groups[g].len(),
        !groups[g][i].tied,
        !groups[g][j].tied,
        position(groups[g][i]) == position(groups[g][j]),
        groups[g][i].pitch.accidental != groups[g][j].pitch.accidental,
    ensures
        spec_marks(key, groups, groups.len() as int).contains(address_of(groups[g][i])),
        spec_marks(key, groups, groups.len() as int).contains(address_of(groups[g][j])),
{
    let group = groups[g];
    let state = state_after(groups, g);
    assert(in_conflict(group, group[i]));
    assert(in_conflict(group, group[j]));
    lemma_group_marks_contains(state, key, group, group.len() as int, i);
    lemma_group_marks_contains(state, key, group, group.len() as int, j);
    lemma_spec_marks_contains(key, groups, groups.len() as int, g, address_of(group[i]));
    lemma_spec_marks_contains(key, groups, groups.len() as int, g, address_of(group[j]));
}

/// Within an onset whose notes at `pos` disagree, each untied note at `pos`
/// leaves the position undetermined; the first `n` notes leave it undetermined
/// once one of them is an untied note there.
proof fn lemma_conflict_leaves_undetermined(
    state: AccidentalState,
    group: Seq<PitchEvent>,
    pos: (u8, i8),
    n: int,
    i: int,
    j: int,
)
    requires
        0 <= i < group.len(),
        0 <= j < group.len(),
        !group[i].tied,
        !group[j].tied,
        position(group[i]) == pos,
        position(group[j]) == pos,
        group[i].pitch.accidental != group[j].pitch.accidental,
        0 <= n <= group.len(),
        exists|k: int| 0 <= k < n && !(#[trigger] group[k]).tied && position(group[k]) == pos,
    ensures
        apply_changes(state, group, n).contains_key(pos),
        apply_changes(state, group, n)[pos] is None,
    decreases n,
{
    let e = group[n - 1];
    if !e.tied && position(e) == pos {
        assert(in_conflict(group, e));
    } else {
        let k = choose|k: int| 0 <= k < n && !(#[trigger] group[k]).tied && position(group[k]) == pos;
        assert(k < n - 1);
        lemma_conflict_leaves_undetermined(state, group, pos, n - 1, i, j);
    }
}

/// After an onset in which notes on one staff position disagree, the next
/// untied note there shows its accidental, whatever it is.
pub proof fn note_after_conflict_shows_accidental(
    key: i8,
    groups: Seq<Seq<PitchEvent>>,
    g: int,
    i: int,
    j: int,
    k: int,
)
    requires
        0 <= g < groups.len() - 1,
        0 <= i < groups[g].len(),
        0 <= j < groups[g].len(),
        !groups[g][i].tied,
        !groups[g][j].tied,
        position(groups[g][i]) == position(groups[g][j]),
        groups[g][i].pitch.accidental != groups[g][j].pitch.accidental,
        0 <= k < groups[g + 1].len(),
        !groups[g + 1][k].tied,
        position(groups[g + 1][k]) == position(groups[g][i]),
    ensures
        spec_marks(key, groups, groups.len() as int).contains(address_of(groups[g + 1][k])),
{
    let group = groups[g];
    let pos = position(group[i]);
    lemma_conflict_leaves_undetermined(state_after(groups, g), group, pos, group.len() as int, i, j);
    assert(state_after(groups, g + 1) == apply_changes(state_after(groups, g), group, group.len() as int));
    let next = groups[g + 1];
    assert(in_effect(state_after(groups, g + 1), key, next[k]) is None);
    lemma_group_marks_contains(state_after(groups, g + 1), key, next, next.len() as int, k);
    lemma_spec_marks_contains(key, groups, groups.len() as int, g + 1, address_of(next[k]));
}

proof fn lemma_apply_changes_lacks(state: AccidentalState, group: Seq<PitchEvent>, n: int, p: (u8, i8))
    requires
        0 <= n <= group.len(),
        !state.contains_key(p),
        forall|j: int| 0 <= j < n ==> position(#[trigger] group[j]) != p,
    ensures
        !apply_changes(state, group, n).contains_key(p),
    decreases n,
{
    if n > 0 {
        lemma_apply_changes_lacks(state, group, n - 1, p);
        assert(position(group[n - 1]) != p);
    }
}

proof fn lemma_state_lacks(groups: Seq<Seq<PitchEvent>>, n: int, p: (u8, i8))
    requires
        0 <= n <= groups.len(),
        forall|h: int, j: int|
            0 <= h < n && 0 <= j < groups[h].len() ==> position(#[trigger] groups[h][j]) != p,
    ensures
        !state_after(groups, n).contains_key(p),
    decreases n,
{
    if n > 0 {
        lemma_state_lacks(groups, n - 1, p);
        let g = groups[n - 1];
        assert forall|j: int| 0 <= j < g.len() implies position(#[trigger] g[j]) != p by {
            assert(position(groups[n - 1][j]) != p);
        }
        lemma_apply_changes_lacks(state_after(groups, n - 1), g, g.len() as int, p);
    }
}

proof fn lemma_group_marks_source(
    state: AccidentalState,
    key: i8,
    group: Seq<PitchEvent>,
    n: int,
    a: (usize, usize, usize),
) -> (j: int)
    requires
        0 <= n <= group.len(),
        group_marks(state, key, group, n).contains(a),
    ensures
        0 <= j < n,
        is_marked(state, key, group, group[j]),
        address_of(group[j]) == a,
    decreases n,
{
    let rest = group_marks(state, key, group, n - 1);
    let e = group[n - 1];
    if is_marked(state, key, group, e) && address_of(e) == a {
        n - 1
    } else {
        let k = choose|k: int|
            0 <= k < group_marks(state, key, group, n).len() && group_marks(state, key, group, n)[k]
                == a;
        if is_marked(state, key, group, e) {
            assert(k < rest.len());
            assert(rest[k] == a);
        } else {
            assert(rest[k] == a);
        }
        lemma_group_marks_source(state, key, group, n - 1, a)
    }
}

proof fn lemma_spec_marks_source(key: i8, groups: Seq<Seq<PitchEvent>>, n: int, a: (usize, usize, usize)) -> (hj: (
    int,
    int,
))
    requires
        0 <= n <= groups.len(),
        spec_marks(key, groups, n).contains(a),
    ensures
        0 <= hj.0 < n,
        0 <= hj.1 < groups[hj.0].len(),
        is_marked(state_after(groups, hj.0), key, groups[hj.0], groups[hj.0][hj.1]),
        address_of(groups[hj.0][hj.1]) == a,
    decreases n,
{
    let before = spec_marks(key, groups, n - 1);
    let g = groups[n - 1];
    let last = group_marks(state_after(groups, n - 1), key, g, g.len() as int);
    let k = choose|k: int| 0 <= k < spec_marks(key, groups, n).len() && spec_marks(key, groups, n)[k] == a;
    if k < before.len() {
        assert(before[k] == a);
        lemma_spec_marks_source(key, groups, n - 1, a)
    } else {
        assert(last[k - before.len()] == a);
        let j = lemma_group_marks_source(state_after(groups, n - 1), key, g, g.len() as int, a);
        (n - 1, j)
    }
}

/// An accidental holds only for later notes of the same step in the same
/// octave. So the first note of a measure at a staff position (a step and an
/// octave that no earlier note of the measure, and no other note of its onset,
/// stands on) shows its accidental exactly when it differs from the key
/// signature's accidental for its step. Notes are told apart by their
/// addresses, which differ between notes.
pub proof fn first_note_at_a_position_follows_the_key(
    key: i8,
    groups: Seq<Seq<PitchEvent>>,
    g: int,
    i: int,
)
    requires
        0 <= g < groups.len(),
        0 <= i < groups[g].len(),
        !groups[g][i].tied,
        forall|h: int, j: int|
            0 <= h < g && 0 <= j < groups[h].len() ==> !((#[trigger] groups[h][j]).pitch.step
                == groups[g][i].pitch.step && groups[h][j].pitch.octave == groups[g][i].pitch.octave),
        forall|j: int|
            0 <= j < groups[g].len() && j != i ==> !((#[trigger] groups[g][j]).pitch.step
                == groups[g][i].pitch.step && groups[g][j].pitch.octave == groups[g][i].pitch.octave),
        forall|h: int, j: int|
            0 <= h < groups.len() && 0 <= j < groups[h].len() && (h != g || j != i) ==> ((
            #[trigger] groups[h][j]).voice, groups[h][j].beat, groups[h][j].note) != (
                groups[g][i].voice,
                groups[g][i].beat,
                groups[g][i].note,
            ),
    ensures
        spec_marks(key, groups, groups.len() as int).contains(
            (groups[g][i].voice, groups[g][i].beat, groups[g][i].note),
        ) <==> groups[g][i].pitch.accidental != spec_key_accidental(
            key as int,
            groups[g][i].pitch.step as int,
        ),
{
    let e = groups[g][i];
    let group = groups[g];
    let p = (e.pitch.step, e.pitch.octave);
    assert forall|h: int, j: int| 0 <= h < g && 0 <= j < groups[h].len() implies position(
        #[trigger] groups[h][j],
    ) != p by {
        assert(!(groups[h][j].pitch.step == e.pitch.step && groups[h][j].pitch.octave
            == e.pitch.octave));
    }
    lemma_state_lacks(groups, g, p);
    let state = state_after(groups, g);
    assert(position(e) == p);
    assert(in_effect(state, key, e) == Some(spec_key_accidental(key as int, e.pitch.step as int) as i8));
    assert(!in_conflict(group, e)) by {
        if in_conflict(group, e) {
            let j = choose|j: int|
                0 <= j < group.len() && !(#[trigger] group[j]).tied && position(group[j]) == position(e)
                    && (group[j].pitch.accidental != e.pitch.accidental || group[j].quarter_tone
                    != e.quarter_tone);
            if j != i {
                assert(!(groups[g][j].pitch.step == e.pitch.step && groups[g][j].pitch.octave
                    == e.pitch.octave));
            }
        }
    }
    let a = address_of(e);
    if e.pitch.accidental != spec_key_accidental(key as int, e.pitch.step as int) {
        assert(is_marked(state, key, group, e));
        lemma_group_marks_contains(state, key, group, group.len() as int, i);
        lemma_spec_marks_contains(key, groups, groups.len() as int, g, a);
    }
    if spec_marks(key, groups, groups.len() as int).contains(a) {
        let (h, j) = lemma_spec_marks_source(key, groups, groups.len() as int, a);
        if h != g || j != i {
            assert(address_of(groups[h][j]) != a);
        }
        assert(is_marked(state, key, group, e));
    }
}

} // verus!
