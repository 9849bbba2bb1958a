//! The structure of a native staff document: instruments flattened into staff
//! rows, each row's measures placed on the shared master-bar grid, span
//! endpoints moved to master bars, and rows grouped by instrument.
use crate::error::{ErrorKind, RenderError};
use crate::notation::Span;
use crate::score::{
    align_to_master_bars, is_master_slot, master_map_valid, InstrumentBracket, InstrumentGroup,
};
use crate::spans::checks::{first_some, lemma_first_some_none, lemma_first_some_stable};
use crate::spans::{copy_span, span_views, SpanView};
use vstd::prelude::*;

verus! {

/// One staff of an instrument, as the document structure reads it.
#[derive(Clone, Debug)]
pub struct DocumentStaff {
    /// Number of local measures of the staff.
    pub measure_count: usize,
    /// Spans of the staff, addressed by local measure.
    pub spans: Vec<Span>,
    /// Master bar of each local measure; empty means one-to-one indexing.
    pub master_bar_map: Vec<usize>,
}

/// An instrument: its name, its staves and its connector.
#[derive(Clone, Debug)]
pub struct DocumentInstrument {
    /// Name displayed beside the instrument's group.
    pub name: String,
    /// One or more staves, top to bottom.
    pub staves: Vec<DocumentStaff>,
    /// Connector placed beside the staves.
    pub bracket: InstrumentBracket,
}

/// One displayed staff row of a document.
#[derive(Clone, Debug)]
pub struct StaffRow {
    /// For each displayed bar, the local measure shown there, or `None` for an empty bar.
    pub measures: Vec<Option<usize>>,
    /// The staff's spans, addressed by displayed bar.
    pub spans: Vec<Span>,
}

/// Staff rows in display order and their instrument groups.
#[derive(Debug)]
pub struct DocumentPlan {
    /// One row per staff, instruments in order and staves in order within each.
    pub rows: Vec<StaffRow>,
    /// One group per instrument, over the rows of its staves.
    pub groups: Vec<InstrumentGroup>,
}

/// A staff is placed on the master-bar grid when the document has master bars
/// and the staff maps its measures to them.
pub open spec fn is_remapped(master_count: nat, staff: DocumentStaff) -> bool {
    master_count > 0 && staff.master_bar_map@.len() > 0
}

/// What is wrong with moving one span to master bars through `map`.
pub open spec fn span_remap_problem(map: Seq<usize>, s: Span) -> Option<Seq<char>> {
    if s.start.bar >= map.len() {
        Some("span start is outside the staff master-bar map"@)
    } else if s.end.bar >= map.len() {
        Some("span end is outside the staff master-bar map"@)
    } else {
        None
    }
}

/// What is wrong with one staff: a master-bar map that is not strictly
/// increasing, one entry per measure, below the master-bar count; or a span
/// outside the map.
pub open spec fn staff_problem(master_count: nat, staff: DocumentStaff) -> Option<Seq<char>> {
    let map = staff.master_bar_map@;
    if !is_remapped(master_count, staff) {
        None
    } else if !master_map_valid(master_count, map, staff.measure_count as nat) {
        Some("staff master-bar map must be ordered and match its measures"@)
    } else {
        first_some(staff.spans@, |s: Span| span_remap_problem(map, s), staff.spans@.len() as int)
    }
}

/// What is wrong with one instrument: no staves, or its first faulty staff.
pub open spec fn instrument_problem(master_count: nat, inst: DocumentInstrument) -> Option<
    Seq<char>,
> {
    if inst.staves@.len() == 0 {
        Some("an instrument needs at least one staff"@)
    } else {
        first_some(
            inst.staves@,
            |s: DocumentStaff| staff_problem(master_count, s),
            inst.staves@.len() as int,
        )
    }
}

/// Number of bars a staff row displays.
pub open spec fn row_bar_count(master_count: nat, staff: DocumentStaff) -> nat {
    if is_remapped(master_count, staff) {
        master_count
    } else {
        staff.measure_count as nat
    }
}

/// The first problem of a document, in the order the checks run: no
/// instruments; the first faulty instrument; a master-bar count that differs
/// from the first row's bar count.
pub open spec fn document_problem(master_count: nat, insts: Seq<DocumentInstrument>) -> Option<
    Seq<char>,
> {
    if insts.len() == 0 {
        Some("a score document needs at least one instrument"@)
    } else {
        match first_some(
            insts,
            |i: DocumentInstrument| instrument_problem(master_count, i),
            insts.len() as int,
        ) {
            Some(m) => Some(m),
            None => if master_count > 0 && master_count != row_bar_count(
                master_count,
                insts[0].staves@[0],
            ) {
                Some("master-bar count must match each staff's measure count"@)
            } else {
                None
            },
        }
    }
}

/// The staves of the first `k` instruments, in display order.
pub open spec fn flat_staves(insts: Seq<DocumentInstrument>, k: int) -> Seq<DocumentStaff>
    decreases k,
{
    if k <= 0 {
        Seq::empty()
    } else {
        flat_staves(insts, k - 1) + insts[k - 1].staves@
    }
}

/// A span view with both endpoints moved to their master bars.
pub open spec fn remapped_view(map: Seq<usize>, s: SpanView) -> SpanView {
    SpanView {
        start: crate::track::BeatAddress { bar: map[s.start.bar as int], ..s.start },
        end: crate::track::BeatAddress { bar: map[s.end.bar as int], ..s.end },
        ..s
    }
}

/// `row` displays `staff`: on the master-bar grid with moved spans when the
/// staff is remapped, else every local measure in order with its spans as they are.
pub open spec fn row_displays(master_count: nat, staff: DocumentStaff, row: StaffRow) -> bool {
    let map = staff.master_bar_map@;
    if is_remapped(master_count, staff) {
        &&& row.measures@.len() == master_count
        &&& forall|m: int|
            0 <= m < master_count ==> is_master_slot(map, m, #[trigger] row.measures@[m])
        &&& span_views(row.spans@) == span_views(staff.spans@).map_values(
            |s: SpanView| remapped_view(map, s),
        )
    } else {
        &&& row.measures@.len() == staff.measure_count
        &&& forall|m: int|
            0 <= m < staff.measure_count ==> #[trigger] row.measures@[m] == Some(m as usize)
        &&& span_views(row.spans@) == span_views(staff.spans@)
    }
}

fn invalid(message: &str) -> (e: RenderError)
    ensures
        e.kind == ErrorKind::InvalidInput,
        e.message@ == message@,
{
    RenderError::invalid_input(String::from_str(message))
}

fn identity_measures(count: usize) -> (r: Vec<Option<usize>>)
    ensures
        r@.len() == count,
        forall|m: int| 0 <= m < count ==> #[trigger] r@[m] == Some(m as usize),
{
    let mut r: Vec<Option<usize>> = Vec::new();
    let mut m: usize = 0;
    while m < count
        invariant
            m <= count,
            r@.len() == m,
            forall|j: int| 0 <= j < m ==> #[trigger] r@[j] == Some(j as usize),
        decreases count - m,
    {
        r.push(Some(m));
        m = m + 1;
    }
    r
}

fn remap_spans(map: &Vec<usize>, spans: &Vec<Span>) -> (r: Result<Vec<Span>, RenderError>)
    ensures
        r is Ok <==> first_some(
            spans@,
            |s: Span| span_remap_problem(map@, s),
            spans@.len() as int,
        ) is None,
        r matches Err(e) ==> e.kind == ErrorKind::InvalidInput && first_some(
            spans@,
            |s: Span| span_remap_problem(map@, s),
            spans@.len() as int,
        ) == Some(e.message@),
        r matches Ok(moved) ==> span_views(moved@) == span_views(spans@).map_values(
            |s: SpanView| remapped_view(map@, s),
        ),
{
    let ghost f = |s: Span| span_remap_problem(map@, s);
    let mut moved: Vec<Span> = Vec::new();
    let mut i: usize = 0;
    while i < spans.len()
        invariant
            i <= spans@.len(),
            f == (|s: Span| span_remap_problem(map@, s)),
            first_some(spans@, f, i as int) is None,
            moved@.len() == i,
            forall|j: int|
                0 <= j < i ==> (#[trigger] moved@[j])@ == remapped_view(map@, spans@[j]@),
        decreases spans.len() - i,
    {
        let span = &spans[i];
        if span.start.bar >= map.len() {
            proof {
                lemma_first_some_stable(spans@, f, i + 1, spans@.len() as int);
            }
            return Err(invalid("span start is outside the staff master-bar map"));
        }
        if span.end.bar >= map.len() {
            proof {
                lemma_first_some_stable(spans@, f, i + 1, spans@.len() as int);
            }
            return Err(invalid("span end is outside the staff master-bar map"));
        }
        let mut copy = copy_span(span);
        copy.start.bar = map[span.start.bar];
        copy.end.bar = map[span.end.bar];
        moved.push(copy);
        i = i + 1;
    }
    assert(span_views(moved@) =~= span_views(spans@).map_values(
        |s: SpanView| remapped_view(map@, s),
    ));
    Ok(moved)
}

fn staff_row(master_count: usize, staff: &DocumentStaff) -> (r: Result<StaffRow, RenderError>)
    ensures
        r is Ok <==> staff_problem(master_count as nat, *staff) is None,
        r matches Err(e) ==> e.kind == ErrorKind::InvalidInput && staff_problem(
            master_count as nat,
            *staff,
        ) == Some(e.message@),
        r matches Ok(row) ==> row_displays(master_count as nat, *staff, row),
{
    if master_count > 0 && staff.master_bar_map.len() > 0 {
        let measures = match align_to_master_bars(
            master_count,
            &staff.master_bar_map,
            staff.measure_count,
        ) {
            Ok(m) => m,
            Err(_) => {
                return Err(invalid("staff master-bar map must be ordered and match its measures"));
            },
        };
        let spans = match remap_spans(&staff.master_bar_map, &staff.spans) {
            Ok(s) => s,
            Err(e) => return Err(e),
        };
        Ok(StaffRow { measures, spans })
    } else {
        let mut spans: Vec<Span> = Vec::new();
        let mut i: usize = 0;
        while i < staff.spans.len()
            invariant
                i <= staff.spans@.len(),
                spans@.len() == i,
                forall|j: int| 0 <= j < i ==> (#[trigger] spans@[j])@ == staff.spans@[j]@,
            decreases staff.spans.len() - i,
        {
            spans.push(copy_span(&staff.spans[i]));
            i = i + 1;
        }
        assert(span_views(spans@) =~= span_views(staff.spans@));
        Ok(StaffRow { measures: identity_measures(staff.measure_count), spans })
    }
}

/// Lays a native staff document out on its master-bar grid: flattens the
/// instruments into staff rows, places each remapped staff's measures at their
/// master bars and moves its span endpoints with them, and groups the rows of
/// each instrument. `master_bar_count` is the number of master bars; zero
/// means the document has none.
pub fn layout_document(master_bar_count: usize, instruments: &Vec<DocumentInstrument>) -> (r:
    Result<DocumentPlan, RenderError>)
    ensures
        r is Ok <==> document_problem(master_bar_count as nat, instruments@) is None,
        r matches Err(e) ==> e.kind == ErrorKind::InvalidInput && document_problem(
            master_bar_count as nat,
            instruments@,
        ) == Some(e.message@),
        r matches Ok(plan) ==> ({
            let staves = flat_staves(instruments@, instruments@.len() as int);
            &&& plan.rows@.len() == staves.len()
            &&& forall|i: int|
                0 <= i < staves.len() ==> row_displays(
                    master_bar_count as nat,
                    staves[i],
                    #[trigger] plan.rows@[i],
                )
            &&& plan.groups@.len() == instruments@.len()
            &&& forall|i: int|
                0 <= i < instruments@.len() ==> {
                    &&& (#[trigger] plan.groups@[i]).tracks.start == flat_staves(instruments@, i).len()
                    &&& plan.groups@[i].tracks.end == flat_staves(instruments@, i + 1).len()
                    &&& plan.groups@[i].name@ == instruments@[i].name@
                    &&& plan.groups@[i].bracket == instruments@[i].bracket
                }
        }),
{
    let ghost mc = master_bar_count as nat;
    if instruments.len() == 0 {
        return Err(invalid("a score document needs at least one instrument"));
    }
    let ghost f = |i: DocumentInstrument| instrument_problem(mc, i);
    let mut rows: Vec<StaffRow> = Vec::new();
    let mut groups: Vec<InstrumentGroup> = Vec::new();
    let mut k: usize = 0;
    while k < instruments.len()
        invariant
            mc == master_bar_count as nat,
            0 < instruments@.len(),
            k <= instruments@.len(),
            f == (|i: DocumentInstrument| instrument_problem(mc, i)),
            first_some(instruments@, f, k as int) is None,
            rows@.len() == flat_staves(instruments@, k as int).len(),
            forall|i: int|
                0 <= i < rows@.len() ==> row_displays(
                    mc,
                    flat_staves(instruments@, k as int)[i],
                    #[trigger] rows@[i],
                ),
            groups@.len() == k,
            forall|i: int|
                0 <= i < k ==> {
                    &&& (#[trigger] groups@[i]).tracks.start == flat_staves(instruments@, i).len()
                    &&& groups@[i].tracks.end == flat_staves(instruments@, i + 1).len()
                    &&& groups@[i].name@ == instruments@[i].name@
                    &&& groups@[i].bracket == instruments@[i].bracket
                },
        decreases instruments.len() - k,
    {
        let inst = &instruments[k];
        if inst.staves.len() == 0 {
            proof {
                lemma_first_some_stable(instruments@, f, k + 1, instruments@.len() as int);
            }
            return Err(invalid("an instrument needs at least one staff"));
        }
        let ghost g = |s: DocumentStaff| staff_problem(mc, s);
        let ghost before = flat_staves(instruments@, k as int);
        let start = rows.len();
        let mut j: usize = 0;
        while j < inst.staves.len()
            invariant
                mc == master_bar_count as nat,
                k < instruments@.len(),
                *inst == instruments@[k as int],
                f == (|i: DocumentInstrument| instrument_problem(mc, i)),
                first_some(instruments@, f, k as int) is None,
                inst.staves@.len() > 0,
                j <= inst.staves@.len(),
                g == (|s: DocumentStaff| staff_problem(mc, s)),
                first_some(inst.staves@, g, j as int) is None,
                before == flat_staves(instruments@, k as int),
                start == before.len(),
                rows@.len() == before.len() + j,
                forall|i: int|
                    0 <= i < rows@.len() ==> row_displays(
                        mc,
                        (before + inst.staves@)[i],
                        #[trigger] rows@[i],
                    ),
            decreases inst.staves.len() - j,
        {
            match staff_row(master_bar_count, &inst.staves[j]) {
                Ok(row) => {
                    rows.push(row);
                },
                Err(e) => {
                    proof {
                        lemma_first_some_stable(inst.staves@, g, j + 1, inst.staves@.len() as int);
                        assert(instrument_problem(mc, instruments@[k as int]) == Some(e.message@));
                        lemma_first_some_stable(instruments@, f, k + 1, instruments@.len() as int);
                    }
                    return Err(e);
                },
            }
            j = j + 1;
        }
        assert(flat_staves(instruments@, k + 1) == before + inst.staves@);
        groups.push(
            InstrumentGroup { name: inst.name.clone(), tracks: start..rows.len(), bracket: inst.bracket },
        );
        k = k + 1;
    }
    proof {
        lemma_first_some_none(instruments@, f, instruments@.len() as int, 0);
    }
    let first = &instruments[0].staves[0];
    let first_count = if master_bar_count > 0 && first.master_bar_map.len() > 0 {
        master_bar_count
    } else {
        first.measure_count
    };
    if master_bar_count > 0 && master_bar_count != first_count {
        return Err(invalid("master-bar count must match each staff's measure count"));
    }
    Ok(DocumentPlan { rows, groups })
}

/// The instrument groups of a valid document cut its staff rows into
/// consecutive, nonempty ranges: the first starts at row zero and each
/// ends where the next begins.
pub proof fn instrument_groups_partition_rows(master_count: nat, insts: Seq<DocumentInstrument>)
    requires
        document_problem(master_count, insts) is None,
    ensures
        flat_staves(insts, 0).len() == 0,
        forall|i: int|
            0 <= i < insts.len() ==> flat_staves(insts, i).len() < (#[trigger] flat_staves(
                insts,
                i + 1,
            )).len(),
{
    let f = |i: DocumentInstrument| instrument_problem(master_count, i);
    assert forall|i: int| 0 <= i < insts.len() implies flat_staves(insts, i).len() < (
    #[trigger] flat_staves(insts, i + 1)).len() by {
        lemma_first_some_none(insts, f, insts.len() as int, i);
        assert(insts[i].staves@.len() > 0);
    }
}

} // verus!
