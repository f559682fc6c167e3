//! OTX layout scanning: the run of OTX witnesses after an OTX-start witness,
//! and the ranges of transaction entities each OTX and each append segment covers.

use vstd::prelude::*;

use crate::error::CoreError;
use crate::protocol::{
    spec_bit_set, AppendPermissions, SegmentFlags, APPEND_PERMISSION_CELL_DEPS_BIT,
    APPEND_PERMISSION_HEADER_DEPS_BIT, APPEND_PERMISSION_INPUTS_BIT, APPEND_PERMISSION_OUTPUTS_BIT,
};
use crate::view::{
    spec_mask_valid, spec_otx, spec_otx_start, spec_segment_views, CobuildWitnessLayoutView,
    OtxModel, OtxStartModel, OtxStartView, OtxView, SegmentModel, WitnessLayoutModel,
};

verus! {

/// A run of `count` consecutive entity indexes starting at `start`.
#[derive(Clone, Copy, Debug, PartialEq, Eq, Structural)]
pub struct Range {
    pub start: usize,
    pub count: usize,
}

/// The range starts at `start` and holds `count` indexes.
pub open spec fn spec_range_is(r: Range, start: int, count: int) -> bool {
    r.start as int == start && r.count as int == count
}

impl Range {
    /// `index` lies in the range (a range whose end overflows holds nothing).
    pub open spec fn spec_contains(self, index: int) -> bool {
        self.start + self.count <= usize::MAX && self.start <= index < self.start + self.count
    }

    /// One past the last index.
    pub fn end(&self) -> (res: usize)
        requires
            self.start + self.count <= usize::MAX,
        ensures
            res == self.start + self.count,
    {
        self.start + self.count
    }

    pub fn is_empty(&self) -> (res: bool)
        ensures
            res == (self.count == 0),
    {
        self.count == 0
    }

    pub fn contains(&self, index: usize) -> (res: bool)
        ensures
            res == self.spec_contains(index as int),
    {
        if self.start > usize::MAX - self.count {
            return false;
        }
        let end = self.start + self.count;
        index >= self.start && index < end
    }

    /// The position of `index` within the range, if it lies there.
    pub fn local_index(&self, index: usize) -> (res: Option<usize>)
        ensures
            res is Some <==> self.spec_contains(index as int),
            res matches Some(i) ==> i == index - self.start,
    {
        if self.contains(index) {
            Some(index - self.start)
        } else {
            None
        }
    }

    /// The indexes of the range as a half-open interval.
    pub fn indexes(&self) -> (res: IndexRange)
        requires
            self.start + self.count <= usize::MAX,
        ensures
            res.start == self.start,
            res.end == self.start + self.count,
    {
        IndexRange { start: self.start, end: self.end() }
    }
}

/// The half-open interval `[start, end)` of entity indexes.
#[derive(Clone, Copy, Debug, PartialEq, Eq, Structural)]
pub struct IndexRange {
    pub start: usize,
    pub end: usize,
}

impl IndexRange {
    /// The indexes in order.
    pub fn to_vec(&self) -> (res: Vec<usize>)
        ensures
            res@.len() == if self.start <= self.end { self.end - self.start } else { 0 },
            forall|i: int| 0 <= i < res@.len() ==> res@[i] == self.start + i,
    {
        let mut out: Vec<usize> = Vec::new();
        let mut i = self.start;
        while i < self.end
            invariant
                self.start <= i <= self.end || (self.start > self.end && i == self.start),
                out@.len() == if i >= self.start { i - self.start } else { 0 },
                forall|j: int| 0 <= j < out@.len() ==> out@[j] == self.start + j,
            decreases self.end - i,
        {
            out.push(i);
            i = i + 1;
        }
        out
    }
}

/// The ranges one append segment of an OTX covers.
#[derive(Clone, Copy, Debug, PartialEq, Eq, Structural)]
pub struct OtxAppendSegmentLayout {
    pub segment_index: usize,
    pub flags: SegmentFlags,
    pub inputs: Range,
    pub outputs: Range,
    pub cell_deps: Range,
    pub header_deps: Range,
}

/// The abstract value of an OTX layout.
pub struct OtxLayoutModel {
    pub witness_index: int,
    pub base_inputs: Range,
    pub append_inputs: Range,
    pub base_outputs: Range,
    pub append_outputs: Range,
    pub base_cell_deps: Range,
    pub append_cell_deps: Range,
    pub base_header_deps: Range,
    pub append_header_deps: Range,
    pub append_segments: Seq<OtxAppendSegmentLayout>,
}

/// The entity ranges one OTX covers: its base entities, all its appended
/// entities, and each append segment.
#[derive(Clone, Debug)]
pub struct OtxLayout {
    pub witness_index: usize,
    pub base_inputs: Range,
    pub append_inputs: Range,
    pub base_outputs: Range,
    pub append_outputs: Range,
    pub base_cell_deps: Range,
    pub append_cell_deps: Range,
    pub base_header_deps: Range,
    pub append_header_deps: Range,
    pub append_segments: Vec<OtxAppendSegmentLayout>,
}

impl View for OtxLayout {
    type V = OtxLayoutModel;

    open spec fn view(&self) -> OtxLayoutModel {
        OtxLayoutModel {
            witness_index: self.witness_index as int,
            base_inputs: self.base_inputs,
            append_inputs: self.append_inputs,
            base_outputs: self.base_outputs,
            append_outputs: self.append_outputs,
            base_cell_deps: self.base_cell_deps,
            append_cell_deps: self.append_cell_deps,
            base_header_deps: self.base_header_deps,
            append_header_deps: self.append_header_deps,
            append_segments: self.append_segments@,
        }
    }
}

/// An OTX witness together with the entity ranges it covers.
#[derive(Clone, Debug)]
pub struct OtxLayoutEntry {
    pub layout: OtxLayout,
    pub witness: OtxView,
}

/// The OTX run of a transaction: the aggregate input and output ranges it
/// covers, and each OTX in witness order.
#[derive(Clone, Debug)]
pub struct BuiltLayout {
    pub input_range: Range,
    pub output_range: Range,
    pub otx_entries: Vec<OtxLayoutEntry>,
}

/// The transaction has no OTX run, or a complete one.
#[derive(Clone, Debug)]
pub enum OtxLayouts {
    Absent,
    Complete(BuiltLayout),
}

// ---------------------------------------------------------------------------
// Entity positions
// ---------------------------------------------------------------------------

/// The next unassigned input, output, cell-dep and header-dep indexes.
pub struct NextModel {
    pub input: int,
    pub output: int,
    pub cell_dep: int,
    pub header_dep: int,
}

/// The positions after the OTX start.
pub open spec fn spec_start_next(s: OtxStartModel) -> NextModel {
    NextModel {
        input: s.start_input_cell,
        output: s.start_output_cell,
        cell_dep: s.start_cell_deps,
        header_dep: s.start_header_deps,
    }
}

/// The positions after an OTX's base entities.
pub open spec fn spec_after_base(n: NextModel, o: OtxModel) -> NextModel {
    NextModel {
        input: n.input + o.base_input_cells,
        output: n.output + o.base_output_cells,
        cell_dep: n.cell_dep + o.base_cell_deps,
        header_dep: n.header_dep + o.base_header_deps,
    }
}

/// The positions after one append segment.
pub open spec fn spec_add_segment(n: NextModel, s: SegmentModel) -> NextModel {
    NextModel {
        input: n.input + s.input_cells,
        output: n.output + s.output_cells,
        cell_dep: n.cell_dep + s.cell_deps,
        header_dep: n.header_dep + s.header_deps,
    }
}

/// The positions after the first `j` append segments.
pub open spec fn spec_after_segments(n: NextModel, segs: Seq<SegmentModel>, j: nat) -> NextModel
    decreases j,
{
    if j == 0 {
        n
    } else {
        spec_add_segment(spec_after_segments(n, segs, (j - 1) as nat), segs[j - 1])
    }
}

/// The positions after a whole OTX.
pub open spec fn spec_otx_end(n: NextModel, o: OtxModel) -> NextModel {
    spec_after_segments(spec_after_base(n, o), o.append_segments, o.append_segments.len())
}

/// Every position of `a` is at most the one of `b`.
pub open spec fn spec_next_le(a: NextModel, b: NextModel) -> bool {
    a.input <= b.input && a.output <= b.output && a.cell_dep <= b.cell_dep && a.header_dep <= b.header_dep
}

/// All positions fit in a `usize`.
pub open spec fn spec_next_fits(n: NextModel) -> bool {
    0 <= n.input <= usize::MAX && 0 <= n.output <= usize::MAX && 0 <= n.cell_dep <= usize::MAX
        && 0 <= n.header_dep <= usize::MAX
}

/// Entity counts are never negative.
pub open spec fn spec_segment_counts_nonneg(s: SegmentModel) -> bool {
    s.input_cells >= 0 && s.output_cells >= 0 && s.cell_deps >= 0 && s.header_deps >= 0
}

pub open spec fn spec_otx_counts_nonneg(o: OtxModel) -> bool {
    &&& o.base_input_cells >= 0
    &&& o.base_output_cells >= 0
    &&& o.base_cell_deps >= 0
    &&& o.base_header_deps >= 0
    &&& forall|j: int| 0 <= j < o.append_segments.len() ==> spec_segment_counts_nonneg(#[trigger] o.append_segments[j])
}

/// Positions only grow while segments are added.
pub proof fn lemma_after_segments_monotone(n: NextModel, segs: Seq<SegmentModel>, i: nat, j: nat)
    requires
        i <= j <= segs.len(),
        forall|k: int| 0 <= k < segs.len() ==> spec_segment_counts_nonneg(#[trigger] segs[k]),
    ensures
        spec_next_le(spec_after_segments(n, segs, i), spec_after_segments(n, segs, j)),
    decreases j - i,
{
    if i < j {
        lemma_after_segments_monotone(n, segs, i, (j - 1) as nat);
        assert(spec_segment_counts_nonneg(segs[j - 1]));
    }
}

/// The layout of an OTX whose entities start at `n`.
pub open spec fn spec_layout_is(l: OtxLayoutModel, witness_index: int, n: NextModel, o: OtxModel) -> bool {
    let b = spec_after_base(n, o);
    let e = spec_otx_end(n, o);
    &&& l.witness_index == witness_index
    &&& spec_range_is(l.base_inputs, n.input, o.base_input_cells)
    &&& spec_range_is(l.base_outputs, n.output, o.base_output_cells)
    &&& spec_range_is(l.base_cell_deps, n.cell_dep, o.base_cell_deps)
    &&& spec_range_is(l.base_header_deps, n.header_dep, o.base_header_deps)
    &&& spec_range_is(l.append_inputs, b.input, e.input - b.input)
    &&& spec_range_is(l.append_outputs, b.output, e.output - b.output)
    &&& spec_range_is(l.append_cell_deps, b.cell_dep, e.cell_dep - b.cell_dep)
    &&& spec_range_is(l.append_header_deps, b.header_dep, e.header_dep - b.header_dep)
    &&& l.append_segments.len() == o.append_segments.len()
    &&& forall|j: int|
        0 <= j < o.append_segments.len() ==> spec_segment_layout_is(
            #[trigger] l.append_segments[j],
            j,
            spec_after_segments(b, o.append_segments, j as nat),
            o.append_segments[j],
        )
}

/// The layout of append segment `j`, whose entities start at `n`.
pub open spec fn spec_segment_layout_is(sl: OtxAppendSegmentLayout, j: int, n: NextModel, s: SegmentModel) -> bool {
    &&& sl.segment_index as int == j
    &&& sl.flags.spec_raw() == s.segment_flags
    &&& spec_range_is(sl.inputs, n.input, s.input_cells)
    &&& spec_range_is(sl.outputs, n.output, s.output_cells)
    &&& spec_range_is(sl.cell_deps, n.cell_dep, s.cell_deps)
    &&& spec_range_is(sl.header_deps, n.header_dep, s.header_deps)
}

// ---------------------------------------------------------------------------
// OTX validity
// ---------------------------------------------------------------------------

/// The rules every OTX witness in a run must meet: at least one base input,
/// no reserved permission or segment-flag bits, only the last segment closes
/// the OTX, appended entities need the matching permission, and each base
/// mask holds exactly the bits of its entities.
pub open spec fn spec_otx_valid(o: OtxModel) -> bool {
    let ap = o.append_permissions;
    let segs = o.append_segments;
    &&& o.base_input_cells != 0
    &&& ap & !0x0fu8 == 0
    &&& forall|j: int|
        0 <= j < segs.len() ==> {
            let s = #[trigger] segs[j];
            &&& s.segment_flags & !0x03u8 == 0
            &&& (j + 1 != segs.len() ==> spec_bit_set(s.segment_flags, 0))
            &&& (s.input_cells > 0 ==> spec_bit_set(ap, 0))
            &&& (s.output_cells > 0 ==> spec_bit_set(ap, 1))
            &&& (s.cell_deps > 0 ==> spec_bit_set(ap, 2))
            &&& (s.header_deps > 0 ==> spec_bit_set(ap, 3))
        }
    &&& o.base_input_cells * 2 <= usize::MAX
    &&& spec_mask_valid(o.base_input_masks, o.base_input_cells * 2)
    &&& o.base_output_cells * 4 <= usize::MAX
    &&& spec_mask_valid(o.base_output_masks, o.base_output_cells * 4)
    &&& spec_mask_valid(o.base_cell_dep_masks, o.base_cell_deps)
    &&& spec_mask_valid(o.base_header_dep_masks, o.base_header_deps)
}

/// Checks the rules of [`spec_otx_valid`].
pub fn validate_otx_view(data: &OtxView) -> (res: Result<(), CoreError>)
    ensures
        res is Ok <==> spec_otx_valid(data@),
        res matches Err(e) ==> e == CoreError::InvalidOtxLayout,
{
    if data.base_input_cells == 0 {
        return Err(CoreError::InvalidOtxLayout);
    }
    let append_permissions = AppendPermissions::try_from(data.append_permissions)?;
    let ghost o = data@;
    let n = data.append_segments.len();
    let mut index: usize = 0;
    while index < n
        invariant
            o == data@,
            n == o.append_segments.len(),
            append_permissions.spec_raw() == o.append_permissions,
            0 <= index <= n,
            forall|j: int|
                0 <= j < index ==> {
                    let s = #[trigger] o.append_segments[j];
                    &&& s.segment_flags & !0x03u8 == 0
                    &&& (j + 1 != n ==> spec_bit_set(s.segment_flags, 0))
                    &&& (s.input_cells > 0 ==> spec_bit_set(o.append_permissions, 0))
                    &&& (s.output_cells > 0 ==> spec_bit_set(o.append_permissions, 1))
                    &&& (s.cell_deps > 0 ==> spec_bit_set(o.append_permissions, 2))
                    &&& (s.header_deps > 0 ==> spec_bit_set(o.append_permissions, 3))
                },
        decreases n - index,
    {
        let segment = &data.append_segments[index];
        proof {
            assert(o.append_segments[index as int] == segment@);
        }
        let flags = SegmentFlags::try_from(segment.segment_flags)?;
        if index + 1 != n && !flags.allow_more_segments_after() {
            return Err(CoreError::InvalidOtxLayout);
        }
        append_permissions.require_allowed(APPEND_PERMISSION_INPUTS_BIT, segment.input_cells)?;
        append_permissions.require_allowed(APPEND_PERMISSION_OUTPUTS_BIT, segment.output_cells)?;
        append_permissions.require_allowed(APPEND_PERMISSION_CELL_DEPS_BIT, segment.cell_deps)?;
        append_permissions.require_allowed(APPEND_PERMISSION_HEADER_DEPS_BIT, segment.header_deps)?;
        index = index + 1;
    }
    if data.base_input_cells > usize::MAX / 2 {
        return Err(CoreError::InvalidOtxLayout);
    }
    data.base_input_masks.validate(data.base_input_cells * 2)?;
    if data.base_output_cells > usize::MAX / 4 {
        return Err(CoreError::InvalidOtxLayout);
    }
    data.base_output_masks.validate(data.base_output_cells * 4)?;
    data.base_cell_dep_masks.validate(data.base_cell_deps)?;
    data.base_header_dep_masks.validate(data.base_header_deps)?;
    Ok(())
}

// ---------------------------------------------------------------------------
// Collecting the OTX run
// ---------------------------------------------------------------------------

/// The abstract state of the OTX-run collector.
pub struct CollectorModel {
    pub start: Option<(int, OtxStartModel)>,
    pub last_layout_witness_index: Option<int>,
    pub entries: Seq<(int, OtxModel)>,
}

/// A collector that has seen no OTX witness yet.
pub open spec fn spec_collector_empty() -> CollectorModel {
    CollectorModel { start: None, last_layout_witness_index: None, entries: Seq::empty() }
}

/// Records the checked Cobuild witness at `index`: an OTX start opens the
/// run (only once), an OTX must directly follow the start or another OTX,
/// other layouts are ignored.
pub open spec fn spec_record_layout(state: CollectorModel, index: int, w: WitnessLayoutModel) -> Result<CollectorModel, CoreError> {
    if w.item_id == 0xff00_0004 {
        match spec_otx_start(w.item) {
            None => Err(CoreError::MalformedCobuild),
            Some(s) => if state.start is Some {
                Err(CoreError::InvalidOtxLayout)
            } else {
                Ok(CollectorModel { start: Some((index, s)), last_layout_witness_index: Some(index), ..state })
            },
        }
    } else if w.item_id == 0xff00_0003 {
        match spec_otx(w.item) {
            None => Err(CoreError::MalformedCobuild),
            Some(o) => match state.last_layout_witness_index {
                None => Err(CoreError::InvalidOtxLayout),
                Some(last) => if last + 1 != index {
                    Err(CoreError::InvalidOtxLayout)
                } else {
                    Ok(
                        CollectorModel {
                            last_layout_witness_index: Some(index),
                            entries: state.entries.push((index, o)),
                            ..state
                        },
                    )
                },
            },
        }
    } else {
        Ok(state)
    }
}

/// The positions after the first `k` OTXs of the run.
pub open spec fn spec_entries_end(start: NextModel, entries: Seq<(int, OtxModel)>, k: nat) -> NextModel
    decreases k,
{
    if k == 0 {
        start
    } else {
        spec_otx_end(spec_entries_end(start, entries, (k - 1) as nat), entries[k - 1].1)
    }
}

/// The entity counts of the transaction.
pub open spec fn spec_counts(input_count: int, output_count: int, cell_dep_count: int, header_dep_count: int) -> NextModel {
    NextModel { input: input_count, output: output_count, cell_dep: cell_dep_count, header_dep: header_dep_count }
}

/// A started OTX run is complete: at least one OTX follows the start, every
/// OTX is valid, and all entities they cover exist in the transaction.
pub open spec fn spec_run_complete(state: CollectorModel, counts: NextModel) -> bool {
    let (start_index, start) = state.start->0;
    let entries = state.entries;
    &&& state.last_layout_witness_index != Some(start_index)
    &&& entries.len() > 0
    &&& forall|k: int| 0 <= k < entries.len() ==> spec_otx_valid(#[trigger] entries[k].1)
    &&& spec_next_le(spec_entries_end(spec_start_next(start), entries, entries.len()), counts)
}

/// The built run matches the collected OTXs.
pub open spec fn spec_built_layout_is(b: BuiltLayoutModel, state: CollectorModel) -> bool {
    let start = spec_start_next((state.start->0).1);
    let entries = state.entries;
    let end = spec_entries_end(start, entries, entries.len());
    &&& spec_range_is(b.input_range, start.input, end.input - start.input)
    &&& spec_range_is(b.output_range, start.output, end.output - start.output)
    &&& b.entries.len() == entries.len()
    &&& forall|k: int|
        0 <= k < entries.len() ==> {
            &&& (#[trigger] b.entries[k]).1 == entries[k].1
            &&& spec_layout_is(b.entries[k].0, entries[k].0, spec_entries_end(start, entries, k as nat), entries[k].1)
        }
}

/// The abstract value of a built OTX run.
pub struct BuiltLayoutModel {
    pub input_range: Range,
    pub output_range: Range,
    pub entries: Seq<(OtxLayoutModel, OtxModel)>,
}

impl View for BuiltLayout {
    type V = BuiltLayoutModel;

    open spec fn view(&self) -> BuiltLayoutModel {
        BuiltLayoutModel {
            input_range: self.input_range,
            output_range: self.output_range,
            entries: self.otx_entries@.map_values(|e: OtxLayoutEntry| (e.layout@, e.witness@)),
        }
    }
}

/// The abstract values of collected OTX witnesses with their witness indexes.
pub open spec fn spec_entry_models(v: Seq<(usize, OtxView)>) -> Seq<(int, OtxModel)> {
    v.map_values(|e: (usize, OtxView)| (e.0 as int, e.1@))
}

/// Collects the OTX run while the witnesses are scanned.
pub struct OtxLayoutCollector {
    start: Option<(usize, OtxStartView)>,
    last_layout_witness_index: Option<usize>,
    otx_entries: Vec<(usize, OtxView)>,
}

impl View for OtxLayoutCollector {
    type V = CollectorModel;

    closed spec fn view(&self) -> CollectorModel {
        CollectorModel {
            start: match self.start {
                Some((i, s)) => Some((i as int, s@)),
                None => None,
            },
            last_layout_witness_index: match self.last_layout_witness_index {
                Some(i) => Some(i as int),
                None => None,
            },
            entries: spec_entry_models(self.otx_entries@),
        }
    }
}

/// OTX counts and positions decoded from molecule fit in 32 bits.
pub open spec fn spec_otx_counts_fit(o: OtxModel) -> bool {
    &&& 0 <= o.base_input_cells <= 0xffff_ffff
    &&& 0 <= o.base_output_cells <= 0xffff_ffff
    &&& 0 <= o.base_cell_deps <= 0xffff_ffff
    &&& 0 <= o.base_header_deps <= 0xffff_ffff
    &&& forall|j: int| 0 <= j < o.append_segments.len() ==> spec_segment_counts_nonneg(#[trigger] o.append_segments[j])
}

impl OtxLayoutCollector {
    pub closed spec fn spec_entries_nonneg(&self) -> bool {
        forall|k: int| 0 <= k < self@.entries.len() ==> spec_otx_counts_nonneg(#[trigger] self@.entries[k].1)
    }

    pub fn new() -> (res: OtxLayoutCollector)
        ensures
            res@ == spec_collector_empty(),
            res.spec_entries_nonneg(),
    {
        let res = OtxLayoutCollector { start: None, last_layout_witness_index: None, otx_entries: Vec::new() };
        proof {
            assert(res@.entries =~= Seq::<(int, OtxModel)>::empty());
        }
        res
    }

    /// Records the checked Cobuild witness at `index`.
    pub fn record_cobuild_layout(&mut self, index: usize, view: &CobuildWitnessLayoutView) -> (res: Result<(), CoreError>)
        requires
            old(self).spec_entries_nonneg(),
        ensures
            res is Ok <==> spec_record_layout(old(self)@, index as int, view@) is Ok,
            res matches Ok(()) ==> spec_record_layout(old(self)@, index as int, view@) == Ok::<
                CollectorModel,
                CoreError,
            >(final(self)@),
            res matches Err(e) ==> spec_record_layout(old(self)@, index as int, view@) == Err::<
                CollectorModel,
                CoreError,
            >(e),
            res is Err ==> final(self)@ == old(self)@,
            final(self).spec_entries_nonneg(),
    {
        match view.otx_start()? {
            Some(start) => return self.push_otx_start(index, start),
            None => {},
        }
        match view.otx()? {
            Some(otx) => self.push_otx(index, otx),
            None => Ok(()),
        }
    }

    fn push_otx_start(&mut self, index: usize, view: OtxStartView) -> (res: Result<(), CoreError>)
        requires
            old(self).spec_entries_nonneg(),
        ensures
            old(self)@.start is Some ==> res == Err::<(), CoreError>(CoreError::InvalidOtxLayout),
            res is Err ==> final(self)@ == old(self)@,
            old(self)@.start is None ==> res is Ok && final(self)@ == (CollectorModel {
                start: Some((index as int, view@)),
                last_layout_witness_index: Some(index as int),
                ..old(self)@
            }),
            final(self).spec_entries_nonneg(),
    {
        if self.start.is_some() {
            return Err(CoreError::InvalidOtxLayout);
        }
        self.start = Some((index, view));
        self.last_layout_witness_index = Some(index);
        Ok(())
    }

    fn push_otx(&mut self, index: usize, view: OtxView) -> (res: Result<(), CoreError>)
        requires
            old(self).spec_entries_nonneg(),
            spec_otx_counts_nonneg(view@),
        ensures
            old(self)@.last_layout_witness_index is None ==> res == Err::<(), CoreError>(
                CoreError::InvalidOtxLayout,
            ),
            res is Err ==> final(self)@ == old(self)@,
            old(self)@.last_layout_witness_index matches Some(last) ==> {
                &&& last + 1 != index ==> res == Err::<(), CoreError>(CoreError::InvalidOtxLayout)
                &&& last + 1 == index ==> res is Ok && final(self)@ == (CollectorModel {
                    last_layout_witness_index: Some(index as int),
                    entries: old(self)@.entries.push((index as int, view@)),
                    ..old(self)@
                })
            },
            final(self).spec_entries_nonneg(),
    {
        let last_index = match self.last_layout_witness_index {
            Some(l) => l,
            None => return Err(CoreError::InvalidOtxLayout),
        };
        if index == 0 || last_index != index - 1 {
            return Err(CoreError::InvalidOtxLayout);
        }
        self.last_layout_witness_index = Some(index);
        let ghost old_entries = self@.entries;
        let ghost vm = view@;
        self.otx_entries.push((index, view));
        proof {
            assert(self@.entries =~= old_entries.push((index as int, vm)));
        }
        Ok(())
    }
}


/// A whole OTX only moves positions forward.
pub proof fn lemma_otx_end_grows(n: NextModel, o: OtxModel)
    requires
        spec_otx_counts_nonneg(o),
    ensures
        spec_next_le(n, spec_after_base(n, o)),
        spec_next_le(spec_after_base(n, o), spec_otx_end(n, o)),
        spec_next_le(n, spec_otx_end(n, o)),
{
    lemma_after_segments_monotone(spec_after_base(n, o), o.append_segments, 0, o.append_segments.len());
}

/// Positions only grow from one OTX of the run to the next.
pub proof fn lemma_entries_end_monotone(start: NextModel, entries: Seq<(int, OtxModel)>, i: nat, j: nat)
    requires
        i <= j <= entries.len(),
        forall|k: int| 0 <= k < entries.len() ==> spec_otx_counts_nonneg(#[trigger] entries[k].1),
    ensures
        spec_next_le(spec_entries_end(start, entries, i), spec_entries_end(start, entries, j)),
    decreases j - i,
{
    if i < j {
        lemma_entries_end_monotone(start, entries, i, (j - 1) as nat);
        assert(spec_otx_counts_nonneg(entries[j - 1].1));
        lemma_otx_end_grows(spec_entries_end(start, entries, (j - 1) as nat), entries[j - 1].1);
    }
}

/// The OTXs of a built run tile its aggregate ranges in witness order: the
/// first OTX's base inputs and outputs start the run, each OTX's base inputs
/// and outputs begin where the previous OTX's appended ones end, and the last
/// OTX's appended inputs and outputs end the run.
pub proof fn built_run_tiles_its_ranges(b: BuiltLayoutModel, state: CollectorModel)
    requires
        state.start is Some,
        state.entries.len() > 0,
        spec_built_layout_is(b, state),
    ensures
        b.entries[0].0.base_inputs.start == b.input_range.start,
        b.entries[0].0.base_outputs.start == b.output_range.start,
        forall|k: int|
            0 <= k < b.entries.len() - 1 ==> {
                &&& (#[trigger] b.entries[k + 1]).0.base_inputs.start == b.entries[k].0.append_inputs.start
                    + b.entries[k].0.append_inputs.count
                &&& b.entries[k + 1].0.base_outputs.start == b.entries[k].0.append_outputs.start
                    + b.entries[k].0.append_outputs.count
            },
        ({
            let last = b.entries[b.entries.len() - 1].0;
            &&& last.append_inputs.start + last.append_inputs.count == b.input_range.start + b.input_range.count
            &&& last.append_outputs.start + last.append_outputs.count == b.output_range.start + b.output_range.count
        }),
{
    let start = spec_start_next((state.start->0).1);
    let entries = state.entries;
    let n = entries.len();
    assert(spec_entries_end(start, entries, 0) == start);
    assert(b.entries[0].0 == b.entries[0].0);
    assert forall|k: int| 0 <= k < b.entries.len() - 1 implies {
        &&& (#[trigger] b.entries[k + 1]).0.base_inputs.start == b.entries[k].0.append_inputs.start
            + b.entries[k].0.append_inputs.count
        &&& b.entries[k + 1].0.base_outputs.start == b.entries[k].0.append_outputs.start
            + b.entries[k].0.append_outputs.count
    } by {
        assert(b.entries[k].1 == entries[k].1);
        assert(b.entries[k + 1].1 == entries[k + 1].1);
        assert(spec_entries_end(start, entries, (k + 1) as nat) == spec_otx_end(spec_entries_end(start, entries, k as nat), entries[k].1));
    }
    assert(b.entries[n - 1].1 == entries[n - 1].1);
    assert(spec_entries_end(start, entries, n) == spec_otx_end(spec_entries_end(start, entries, (n - 1) as nat), entries[n - 1].1));
}

struct LayoutRangeCursor {
    next_input: usize,
    next_output: usize,
    next_cell_dep: usize,
    next_header_dep: usize,
}

impl View for LayoutRangeCursor {
    type V = NextModel;

    closed spec fn view(&self) -> NextModel {
        NextModel {
            input: self.next_input as int,
            output: self.next_output as int,
            cell_dep: self.next_cell_dep as int,
            header_dep: self.next_header_dep as int,
        }
    }
}

/// The range of `count` indexes from `next`, and the index after it.
fn take_range(next: usize, count: usize) -> (res: Result<(Range, usize), CoreError>)
    ensures
        res is Ok <==> next + count <= usize::MAX,
        res matches Ok((r, n)) ==> r == (Range { start: next, count }) && n == next + count,
        res matches Err(e) ==> e == CoreError::InvalidOtxLayout,
{
    if next > usize::MAX - count {
        return Err(CoreError::InvalidOtxLayout);
    }
    Ok((Range { start: next, count }, next + count))
}

impl LayoutRangeCursor {
    fn from_start(start: &OtxStartView) -> (res: LayoutRangeCursor)
        ensures
            res@ == spec_start_next(start@),
    {
        LayoutRangeCursor {
            next_input: start.start_input_cell,
            next_output: start.start_output_cell,
            next_cell_dep: start.start_cell_deps,
            next_header_dep: start.start_header_deps,
        }
    }

    /// Assigns the OTX's base and appended entities the next positions.
    fn take_layout(&mut self, witness_index: usize, otx_view: &OtxView) -> (res: Result<OtxLayout, CoreError>)
        requires
            spec_otx_valid(otx_view@),
        ensures
            res is Ok <==> spec_next_fits(spec_otx_end(old(self)@, otx_view@)),
            res matches Ok(l) ==> spec_layout_is(l@, witness_index as int, old(self)@, otx_view@)
                && final(self)@ == spec_otx_end(old(self)@, otx_view@),
            res matches Err(e) ==> e == CoreError::InvalidOtxLayout,
    {
        let ghost n0 = self@;
        let ghost o = otx_view@;
        proof {
            lemma_otx_end_grows(n0, o);
        }
        let (base_inputs, ni) = take_range(self.next_input, otx_view.base_input_cells)?;
        let (base_outputs, no) = take_range(self.next_output, otx_view.base_output_cells)?;
        let (base_cell_deps, nc) = take_range(self.next_cell_dep, otx_view.base_cell_deps)?;
        let (base_header_deps, nh) = take_range(self.next_header_dep, otx_view.base_header_deps)?;
        self.next_input = ni;
        self.next_output = no;
        self.next_cell_dep = nc;
        self.next_header_dep = nh;
        let ghost b = self@;
        assert(b == spec_after_base(n0, o));

        let append_input_start = self.next_input;
        let append_output_start = self.next_output;
        let append_cell_dep_start = self.next_cell_dep;
        let append_header_dep_start = self.next_header_dep;
        let segs = &otx_view.append_segments;
        let count = segs.len();
        let mut append_segments: Vec<OtxAppendSegmentLayout> = Vec::with_capacity(count);
        let mut segment_index: usize = 0;
        #[verifier::loop_isolation(false)]
        while segment_index < count
            invariant
                o == otx_view@,
                spec_otx_valid(o),
                count == o.append_segments.len(),
                count == segs@.len(),
                o.append_segments == spec_segment_views(segs@),
                b == spec_after_base(n0, o),
                spec_otx_counts_nonneg(o),
                0 <= segment_index <= count,
                self@ == spec_after_segments(b, o.append_segments, segment_index as nat),
                append_segments@.len() == segment_index,
                forall|j: int|
                    0 <= j < segment_index ==> spec_segment_layout_is(
                        #[trigger] append_segments@[j],
                        j,
                        spec_after_segments(b, o.append_segments, j as nat),
                        o.append_segments[j],
                    ),
            decreases count - segment_index,
        {
            let segment = &segs[segment_index];
            proof {
                assert(o.append_segments[segment_index as int] == segment@);
                assert(spec_segment_counts_nonneg(o.append_segments[segment_index as int]));
                lemma_after_segments_monotone(b, o.append_segments, (segment_index + 1) as nat, count as nat);
                assert(spec_after_segments(b, o.append_segments, (segment_index + 1) as nat) == spec_add_segment(
                    spec_after_segments(b, o.append_segments, segment_index as nat),
                    o.append_segments[segment_index as int],
                ));
            }
            let flags = SegmentFlags::try_from(segment.segment_flags)?;
            let (inputs, ni) = take_range(self.next_input, segment.input_cells)?;
            let (outputs, no) = take_range(self.next_output, segment.output_cells)?;
            let (cell_deps, nc) = take_range(self.next_cell_dep, segment.cell_deps)?;
            let (header_deps, nh) = take_range(self.next_header_dep, segment.header_deps)?;
            self.next_input = ni;
            self.next_output = no;
            self.next_cell_dep = nc;
            self.next_header_dep = nh;
            append_segments.push(OtxAppendSegmentLayout { segment_index, flags, inputs, outputs, cell_deps, header_deps });
            segment_index = segment_index + 1;
        }
        Ok(OtxLayout {
            witness_index,
            base_inputs,
            append_inputs: Range { start: append_input_start, count: self.next_input - append_input_start },
            base_outputs,
            append_outputs: Range { start: append_output_start, count: self.next_output - append_output_start },
            base_cell_deps,
            append_cell_deps: Range { start: append_cell_dep_start, count: self.next_cell_dep - append_cell_dep_start },
            base_header_deps,
            append_header_deps: Range {
                start: append_header_dep_start,
                count: self.next_header_dep - append_header_dep_start,
            },
            append_segments,
        })
    }

    fn ensure_within(&self, input_count: usize, output_count: usize, cell_dep_count: usize, header_dep_count: usize) -> (res: Result<(), CoreError>)
        ensures
            res is Ok <==> spec_next_le(self@, spec_counts(input_count as int, output_count as int, cell_dep_count as int, header_dep_count as int)),
            res matches Err(e) ==> e == CoreError::InvalidOtxLayout,
    {
        ensure_within(self.next_input, input_count)?;
        ensure_within(self.next_output, output_count)?;
        ensure_within(self.next_cell_dep, cell_dep_count)?;
        ensure_within(self.next_header_dep, header_dep_count)?;
        Ok(())
    }
}

fn ensure_within(value: usize, max: usize) -> (res: Result<(), CoreError>)
    ensures
        res is Ok <==> value <= max,
        res matches Err(e) ==> e == CoreError::InvalidOtxLayout,
{
    if value <= max {
        Ok(())
    } else {
        Err(CoreError::InvalidOtxLayout)
    }
}

impl OtxLayoutCollector {
    /// Ends the scan: no OTX start means no run; a started run must be complete.
    pub fn finish(self, input_count: usize, output_count: usize, cell_dep_count: usize, header_dep_count: usize) -> (res: Result<OtxLayouts, CoreError>)
        requires
            self.spec_entries_nonneg(),
        ensures
            self@.start is None ==> res matches Ok(OtxLayouts::Absent),
            self@.start is Some ==> {
                let counts = spec_counts(input_count as int, output_count as int, cell_dep_count as int, header_dep_count as int);
                &&& res is Ok <==> spec_run_complete(self@, counts)
                &&& res matches Ok(l) ==> (l matches OtxLayouts::Complete(b) && spec_built_layout_is(b@, self@))
                &&& res matches Err(e) ==> e == CoreError::InvalidOtxLayout
            },
    {
        let ghost state = self@;
        let OtxLayoutCollector { start, last_layout_witness_index, otx_entries } = self;
        let (start_witness_index, start_data) = match start {
            Some(s) => s,
            None => return Ok(OtxLayouts::Absent),
        };
        match last_layout_witness_index {
            Some(l) => if l == start_witness_index {
                return Err(CoreError::InvalidOtxLayout);
            },
            None => {},
        }
        let ghost entries = state.entries;
        proof {
            assert(state.start == Some((start_witness_index as int, start_data@)));
        }
        let ghost start_next = spec_start_next(start_data@);
        let ghost counts = spec_counts(input_count as int, output_count as int, cell_dep_count as int, header_dep_count as int);
        let mut ranges = LayoutRangeCursor::from_start(&start_data);
        let mut remaining = otx_entries;
        let total = remaining.len();
        let mut built: Vec<OtxLayoutEntry> = Vec::with_capacity(total);
        let mut i: usize = 0;
        proof {
            assert(spec_entry_models(remaining@) == entries.skip(0));
        }
        #[verifier::loop_isolation(false)]
        while i < total
            invariant
                total == entries.len(),
                forall|k: int| 0 <= k < entries.len() ==> spec_otx_counts_nonneg(#[trigger] entries[k].1),
                0 <= i <= total,
                remaining@.len() == total - i,
                spec_entry_models(remaining@) == entries.skip(i as int),
                ranges@ == spec_entries_end(start_next, entries, i as nat),
                forall|k: int| 0 <= k < i ==> spec_otx_valid(#[trigger] entries[k].1),
                built@.len() == i,
                forall|k: int|
                    0 <= k < i ==> {
                        &&& (#[trigger] built@[k]).witness@ == entries[k].1
                        &&& spec_layout_is(built@[k].layout@, entries[k].0, spec_entries_end(start_next, entries, k as nat), entries[k].1)
                    },
            decreases total - i,
        {
            proof {
                assert(remaining@.len() > 0);
                assert(entries.skip(i as int)[0] == entries[i as int]);
            }
            let ghost old_rem = remaining@;
            let (witness_index, otx_view) = remaining.remove(0);
            proof {
                assert(spec_entry_models(old_rem)[0] == entries[i as int]);
                assert forall|j: int| 0 <= j < remaining@.len() implies #[trigger] remaining@[j] == old_rem[j + 1] by {}
                assert(spec_entry_models(remaining@) =~= entries.skip(i + 1)) by {
                    assert forall|j: int| 0 <= j < remaining@.len() implies
                        #[trigger] spec_entry_models(remaining@)[j] == entries.skip(i + 1)[j] by {
                        assert(spec_entry_models(old_rem)[j + 1] == entries.skip(i as int)[j + 1]);
                    }
                }
            }
            proof {
                assert(otx_view@ == entries[i as int].1);
                assert(spec_entries_end(start_next, entries, (i + 1) as nat) == spec_otx_end(
                    spec_entries_end(start_next, entries, i as nat),
                    entries[i as int].1,
                ));
            }
            match validate_otx_view(&otx_view) {
                Ok(()) => {},
                Err(e) => {
                    proof {
                        assert(!spec_otx_valid(entries[i as int].1));
                    }
                    return Err(e);
                },
            }
            let layout = match ranges.take_layout(witness_index, &otx_view) {
                Ok(l) => l,
                Err(e) => {
                    proof {
                        lemma_entries_end_monotone(start_next, entries, (i + 1) as nat, total as nat);
                        lemma_entries_end_monotone(start_next, entries, 0, (i + 1) as nat);
                        assert(!spec_next_le(spec_entries_end(start_next, entries, total as nat), counts));
                    }
                    return Err(e);
                },
            };
            built.push(OtxLayoutEntry { layout, witness: otx_view });
            i = i + 1;
        }
        if built.len() == 0 {
            return Err(CoreError::InvalidOtxLayout);
        }
        ranges.ensure_within(input_count, output_count, cell_dep_count, header_dep_count)?;
        proof {
            lemma_entries_end_monotone(start_next, entries, 0, total as nat);
        }
        let input_range = Range { start: start_data.start_input_cell, count: ranges.next_input - start_data.start_input_cell };
        let output_range = Range { start: start_data.start_output_cell, count: ranges.next_output - start_data.start_output_cell };
        let res = BuiltLayout { input_range, output_range, otx_entries: built };
        proof {
            lemma_entries_end_monotone(start_next, entries, 0, total as nat);
            assert forall|k: int| 0 <= k < entries.len() implies {
                &&& (#[trigger] res@.entries[k]).1 == entries[k].1
                &&& spec_layout_is(res@.entries[k].0, entries[k].0, spec_entries_end(start_next, entries, k as nat), entries[k].1)
            } by {
                assert(res@.entries[k] == (built@[k].layout@, built@[k].witness@));
            }
        }
        Ok(OtxLayouts::Complete(res))
    }
}


/// A malformed OTX run: the first input and output its OTX start put the run
/// at, when a start was seen, and why the run is malformed.
#[derive(Clone, Copy, Debug, PartialEq, Eq, Structural)]
pub struct InvalidOtxRun {
    pub anchor: Option<RunAnchor>,
    pub error: CoreError,
}

/// The first input and output an OTX start puts a run at.
#[derive(Clone, Copy, Debug, PartialEq, Eq, Structural)]
pub struct RunAnchor {
    pub start_input_cell: usize,
    pub start_output_cell: usize,
}

/// Where a collector's OTX start puts the run: its first input and output.
pub open spec fn spec_run_anchor(state: CollectorModel) -> Option<(int, int)> {
    match state.start {
        Some((_, s)) => Some((s.start_input_cell, s.start_output_cell)),
        None => None,
    }
}

/// An anchor by its integer values.
pub open spec fn spec_anchor_view(a: Option<RunAnchor>) -> Option<(int, int)> {
    match a {
        Some(r) => Some((r.start_input_cell as int, r.start_output_cell as int)),
        None => None,
    }
}

impl OtxLayoutCollector {
    /// The first input and output the OTX start puts the run at, if one was seen.
    pub fn anchor(&self) -> (res: Option<RunAnchor>)
        ensures
            spec_anchor_view(res) == spec_run_anchor(self@),
    {
        match &self.start {
            Some((_, s)) => Some(RunAnchor { start_input_cell: s.start_input_cell, start_output_cell: s.start_output_cell }),
            None => None,
        }
    }
}

} // verus!
