//! The Cobuild context of one script run: the scanned witnesses, the OTX
//! run and the current script, and the validation plans built from them.

use vstd::prelude::*;

use crate::context::{spec_context_for, CurrentScript, CurrentScriptContext};
use crate::error::CoreError;
use crate::layout::{
    spec_anchor_view, spec_built_layout_is, spec_counts, spec_run_anchor, spec_run_complete, BuiltLayoutModel,
    InvalidOtxRun, NextModel, OtxLayoutEntry, OtxLayoutModel, OtxLayouts,
};
use crate::lazy_reader::support::{Cursor, CursorView};
use crate::context::{any_in_range, any_outside_range, spec_any_in, spec_any_outside};
use crate::hash::{
    blake2b_personal_digest, otx_append_segment_hash, otx_base_hash, spec_append_preimage, spec_chunk, spec_otx_base_preimage,
    spec_tx_preimage, tx_with_message_hash, tx_without_message_hash, OTX_APPEND_PERSONAL, OTX_BASE_PERSONAL,
    TX_WITHOUT_MESSAGE_PERSONAL, TX_WITH_MESSAGE_PERSONAL,
};
use crate::layout::{OtxAppendSegmentLayout, Range};
use crate::context::spec_covered_from;
use crate::plan::{
    OtxTypeRelation, TypeActionOtxScope, TypePlanModel, TypeRelatedAction, TypeRelatedActionModel, TypeValidationPlan,
};
use crate::plan::{
    ActionOrigin, ActionRef, LockPlanModel, LockValidationPlan, OtxMessageLayout, RelatedAction, RelatedActionModel,
    RequirementModel, SignatureOrigin, SigningRequirement,
};
use crate::reader::cursor_bytes;
use crate::seal::{spec_unique_lock_seal, unique_lock_seal};
use crate::view::{filter_actions, spec_action_matches, spec_filter_actions, spec_mask_bit, LockSealView};
use crate::witness::{
    spec_any_cobuild, spec_witness_empty_or_carrier, unique_sighash_all_counts_messages, TxLevelCarrierView,
};
use crate::protocol::ScriptRole;
use crate::reader::cursor_from_slice;
use crate::source::{spec_bytes_cursor, InMemorySource};
use crate::view::{
    lemma_message_action_of_actions, spec_action_views, spec_message_action, spec_message_actions, ActionModel, ActionView, MessageView, OtxModel,
};
use crate::witness::{
    lemma_scan_tolerant_err_stays, spec_push_witness_tolerant, spec_scan_tolerant, spec_unique_sighash_all,
    spec_witness_summary, CobuildWitnessScanner, SummaryModel, TolerantScanModel, WitnessScan,
};

verus! {

/// The witnesses of a transaction as cursor views.
pub open spec fn spec_witness_cursors(s: InMemorySource) -> Seq<CursorView> {
    s.witnesses@.map_values(|w: Vec<u8>| spec_bytes_cursor(w@))
}

/// The built OTX run, if there is one.
pub open spec fn spec_layouts_model(l: OtxLayouts) -> Option<BuiltLayoutModel> {
    match l {
        OtxLayouts::Absent => None,
        OtxLayouts::Complete(b) => Some(b@),
    }
}

/// The counts an OTX hash works with stay within machine limits.
pub open spec fn spec_entry_bounded(e: (OtxLayoutModel, OtxModel)) -> bool {
    &&& e.1.base_input_cells * 2 <= usize::MAX
    &&& e.1.base_output_cells * 4 <= usize::MAX
    &&& e.0.base_outputs.count * 4 <= usize::MAX
}

/// The message layout of an OTX: its base and appended ranges.
pub open spec fn spec_otx_message_layout(l: OtxLayoutModel) -> OtxMessageLayout {
    OtxMessageLayout {
        base_inputs: l.base_inputs,
        append_inputs: l.append_inputs,
        base_outputs: l.base_outputs,
        append_outputs: l.append_outputs,
        base_cell_deps: l.base_cell_deps,
        append_cell_deps: l.append_cell_deps,
        base_header_deps: l.base_header_deps,
        append_header_deps: l.append_header_deps,
    }
}

/// The origin of the actions of OTX `otx_index` with layout `l`.
pub open spec fn spec_otx_origin(otx_index: int, l: OtxLayoutModel) -> ActionOrigin {
    ActionOrigin::Otx {
        witness_index: l.witness_index as usize,
        otx_index: otx_index as usize,
        layout: spec_otx_message_layout(l),
    }
}

/// Actions tagged with one origin.
pub open spec fn spec_with_origin(origin: ActionOrigin, actions: Seq<ActionModel>) -> Seq<RelatedActionModel> {
    actions.map_values(|a: ActionModel| RelatedActionModel { origin, action: a })
}

/// The views of related actions.
pub open spec fn spec_related_views(v: Seq<RelatedAction>) -> Seq<RelatedActionModel> {
    v.map_values(|r: RelatedAction| r@)
}

/// What building the context of `current_script` from `source` gives: an
/// inconsistent source is refused, then a witness that cannot be summarized;
/// otherwise the context of the scanned witnesses, in which a malformed OTX
/// run is recorded rather than raised.
pub open spec fn spec_build_result(
    current_script: CurrentScript,
    source: InMemorySource,
    res: Result<CobuildContext, CoreError>,
) -> bool {
    let ic = source.raw_inputs@.len() as int;
    let oc = source.raw_outputs@.len() as int;
    let counts = spec_counts(ic, oc, source.raw_cell_deps@.len() as int, source.raw_header_deps@.len() as int);
    let lists_ok = ic <= source.input_locks@.len() && ic <= source.input_types@.len() && oc <= source.output_types@.len();
    &&& !lists_ok ==> res == Err::<CobuildContext, CoreError>(CoreError::InvalidContextInput)
    &&& lists_ok ==> match spec_scan_tolerant(spec_witness_cursors(source)) {
        Err(e) => res == Err::<CobuildContext, CoreError>(e),
        Ok(m) => res matches Ok(c) && spec_built_context(c, current_script, source, m, counts),
    }
}

/// The malformed run recorded in a context: its error, anchored where the
/// collector's OTX start put the run.
pub open spec fn spec_invalid_run_is(r: Option<InvalidOtxRun>, e: CoreError, state: crate::layout::CollectorModel) -> bool {
    r matches Some(run) && run.error == e && spec_anchor_view(run.anchor) == spec_run_anchor(state)
}

/// A context built for `current_script` from `source`, whose witnesses scanned
/// to `m`: no OTX run, a complete one, or a malformed one recorded with its error.
pub open spec fn spec_built_context(
    c: CobuildContext,
    current_script: CurrentScript,
    source: InMemorySource,
    m: TolerantScanModel,
    counts: NextModel,
) -> bool {
    &&& c.wf()
    &&& c.spec_source() == source
    &&& spec_context_for(
        c.spec_script_context(),
        current_script,
        source.raw_inputs@.len() as int,
        source.raw_outputs@.len() as int,
        source.input_locks@,
        source.input_types@,
        source.output_types@,
    )
    &&& c.spec_summaries() == m.summaries
    &&& match m.failure {
        Some(e) => c.spec_layouts() is None && spec_invalid_run_is(c.spec_invalid_run(), e, m.collector),
        None => if m.collector.start is None {
            c.spec_layouts() is None && c.spec_invalid_run() is None
        } else if spec_run_complete(m.collector, counts) {
            &&& c.spec_layouts() matches Some(b) && spec_built_layout_is(b, m.collector)
            &&& c.spec_invalid_run() is None
        } else {
            c.spec_layouts() is None && spec_invalid_run_is(c.spec_invalid_run(), CoreError::InvalidOtxLayout, m.collector)
        },
    }
}

/// Some listed index lies at or after `start`.
pub open spec fn spec_any_from(v: Seq<usize>, start: int) -> bool {
    exists|k: int| 0 <= k < v.len() && #[trigger] v[k] >= start
}

/// A malformed OTX run reaches the given inputs and outputs: one of them lies
/// at or after where its OTX start put the run. A run that went wrong before
/// any start reaches nothing.
pub open spec fn spec_run_reaches(run: InvalidOtxRun, inputs: Seq<usize>, outputs: Seq<usize>) -> bool {
    match run.anchor {
        Some(a) => spec_any_from(inputs, a.start_input_cell as int) || spec_any_from(outputs, a.start_output_cell as int),
        None => false,
    }
}

/// Whether some listed index lies at or after `start`.
fn any_from(v: &[usize], start: usize) -> (res: bool)
    ensures
        res == spec_any_from(v@, start as int),
{
    let mut i: usize = 0;
    while i < v.len()
        invariant
            0 <= i <= v@.len(),
            forall|k: int| 0 <= k < i ==> v@[k] < start,
        decreases v@.len() - i,
    {
        if v[i] >= start {
            return true;
        }
        i = i + 1;
    }
    false
}

/// Whether a malformed OTX run reaches the given inputs and outputs.
pub fn run_reaches(run: &InvalidOtxRun, inputs: &[usize], outputs: &[usize]) -> (res: bool)
    ensures
        res == spec_run_reaches(*run, inputs@, outputs@),
{
    match run.anchor {
        Some(a) => any_from(inputs, a.start_input_cell) || any_from(outputs, a.start_output_cell),
        None => false,
    }
}

/// The Cobuild context of one script run.
pub struct CobuildContext {
    tx: InMemorySource,
    script_context: CurrentScriptContext,
    witnesses: WitnessScan,
    otx_layouts: OtxLayouts,
    invalid_run: Option<InvalidOtxRun>,
}

impl CobuildContext {
    /// The malformed OTX run of the transaction, if it has one.
    pub closed spec fn spec_invalid_run(&self) -> Option<InvalidOtxRun> {
        self.invalid_run
    }

    /// The transaction data the context was built from.
    pub closed spec fn spec_source(&self) -> InMemorySource {
        self.tx
    }

    /// The current script and its cells.
    pub closed spec fn spec_script_context(&self) -> CurrentScriptContext {
        self.script_context
    }

    /// The summaries of the witnesses, in order.
    pub closed spec fn spec_summaries(&self) -> Seq<SummaryModel> {
        self.witnesses@
    }

    /// The OTX run, if the transaction has one.
    pub closed spec fn spec_layouts(&self) -> Option<BuiltLayoutModel> {
        spec_layouts_model(self.otx_layouts)
    }

    /// The parts of the context agree with each other.
    pub closed spec fn wf(&self) -> bool {
        &&& self.script_context.wf()
        &&& self.witnesses.wf()
        &&& self.invalid_run is Some ==> spec_layouts_model(self.otx_layouts) is None
        &&& spec_layouts_model(self.otx_layouts) matches Some(b) ==> forall|k: int|
            0 <= k < b.entries.len() ==> spec_entry_bounded(#[trigger] b.entries[k])
    }

    /// Builds the context of `current_script` from the transaction data:
    /// the script's cells, then the scan of every witness, then the OTX run.
    pub fn build(current_script: CurrentScript, source: InMemorySource) -> (res: Result<CobuildContext, CoreError>)
        ensures
            spec_build_result(current_script, source, res),
    {
        let input_count = source.raw_inputs.len();
        let output_count = source.raw_outputs.len();
        let script_context = CurrentScriptContext::from_script_hashes(
            current_script,
            input_count,
            output_count,
            source.input_locks.as_slice(),
            source.input_types.as_slice(),
            source.output_types.as_slice(),
        )?;
        let ghost cursors = spec_witness_cursors(source);
        let mut scanner = CobuildWitnessScanner::with_capacity(source.witnesses.len());
        let mut failure: Option<CoreError> = None;
        let mut index: usize = 0;
        proof {
            assert(cursors.take(0) =~= Seq::<CursorView>::empty());
        }
        while index < source.witnesses.len()
            invariant
                cursors == spec_witness_cursors(source),
                input_count == source.raw_inputs@.len(),
                output_count == source.raw_outputs@.len(),
                input_count <= source.input_locks@.len(),
                input_count <= source.input_types@.len(),
                output_count <= source.output_types@.len(),
                0 <= index <= source.witnesses@.len(),
                scanner.wf(),
                scanner@.summaries.len() == index,
                spec_scan_tolerant(cursors.take(index as int)) == Ok::<TolerantScanModel, CoreError>(
                    TolerantScanModel { summaries: scanner@.summaries, collector: scanner@.collector, failure },
                ),
            decreases source.witnesses@.len() - index,
        {
            let witness = cursor_from_slice(source.witnesses[index].as_slice());
            proof {
                assert(cursors.take(index + 1).drop_last() =~= cursors.take(index as int));
                assert(cursors.take(index + 1).last() == witness@);
            }
            let ghost before = scanner@;
            let ghost wv = witness@;
            let ghost tm = TolerantScanModel { summaries: before.summaries, collector: before.collector, failure };
            proof {
                assert(spec_scan_tolerant(cursors.take(index + 1)) == spec_push_witness_tolerant(tm, wv));
            }
            if failure.is_some() {
                match scanner.push_summary_only(witness) {
                    Ok(()) => {},
                    Err(e) => {
                        proof {
                            lemma_scan_tolerant_err_stays(cursors, (index + 1) as nat);
                        }
                        return Err(e);
                    },
                }
            } else {
                match scanner.push_witness(witness) {
                    Ok(()) => {},
                    Err(e) => {
                        if scanner.summary_count() == index {
                            proof {
                                assert(spec_witness_summary(wv) is Err);
                                lemma_scan_tolerant_err_stays(cursors, (index + 1) as nat);
                            }
                            return Err(e);
                        }
                        failure = Some(e);
                    },
                }
            }
            index = index + 1;
        }
        proof {
            assert(cursors.take(source.witnesses@.len() as int) =~= cursors);
        }
        let ghost m = scanner@;
        let (tx_level, collector) = scanner.into_parts();
        let anchor = collector.anchor();
        let (otx_layouts, invalid_run) = match failure {
            Some(e) => (OtxLayouts::Absent, Some(InvalidOtxRun { anchor, error: e })),
            None => match collector.finish(input_count, output_count, source.raw_cell_deps.len(), source.raw_header_deps.len()) {
                Ok(l) => (l, None),
                Err(e) => (OtxLayouts::Absent, Some(InvalidOtxRun { anchor, error: e })),
            },
        };
        let res = CobuildContext { tx: source, script_context, witnesses: tx_level, otx_layouts, invalid_run };
        proof {
            if res.otx_layouts is Complete {
                let b = res.otx_layouts->Complete_0;
                {
                    let start = crate::layout::spec_start_next((m.collector.start->0).1);
                    assert forall|k: int| 0 <= k < b@.entries.len() implies spec_entry_bounded(#[trigger] b@.entries[k]) by {
                        assert(crate::layout::spec_otx_valid(m.collector.entries[k].1));
                        assert(crate::layout::spec_layout_is(
                            b@.entries[k].0,
                            m.collector.entries[k].0,
                            crate::layout::spec_entries_end(start, m.collector.entries, k as nat),
                            m.collector.entries[k].1,
                        ));
                    }
                }
            }
        }
        Ok(res)
    }

    /// Assembles a context from parts already built.
    pub fn from_parts(
        tx: InMemorySource,
        script_context: CurrentScriptContext,
        witnesses: WitnessScan,
        otx_layouts: OtxLayouts,
    ) -> (res: CobuildContext)
        requires
            script_context.wf(),
            witnesses.wf(),
            spec_layouts_model(otx_layouts) matches Some(b) ==> forall|k: int|
                0 <= k < b.entries.len() ==> spec_entry_bounded(#[trigger] b.entries[k]),
        ensures
            res.wf(),
            res.spec_source() == tx,
            res.spec_script_context() == script_context,
            res.spec_summaries() == witnesses@,
            res.spec_layouts() == spec_layouts_model(otx_layouts),
            res.spec_invalid_run() is None,
    {
        CobuildContext { tx, script_context, witnesses, otx_layouts, invalid_run: None }
    }

    /// The number of inputs, outputs, cell deps, header deps and witnesses of the transaction.
    pub fn counts(&self) -> (res: (usize, usize, usize, usize, usize))
        ensures
            res.0 == self.spec_source().raw_inputs@.len(),
            res.1 == self.spec_source().raw_outputs@.len(),
            res.2 == self.spec_source().raw_cell_deps@.len(),
            res.3 == self.spec_source().raw_header_deps@.len(),
            res.4 == self.spec_source().witnesses@.len(),
    {
        (
            self.tx.raw_inputs.len(),
            self.tx.raw_outputs.len(),
            self.tx.raw_cell_deps.len(),
            self.tx.raw_header_deps.len(),
            self.tx.witnesses.len(),
        )
    }

    /// The current script and its cells.
    pub fn script_context(&self) -> (res: &CurrentScriptContext)
        ensures
            *res == self.spec_script_context(),
    {
        &self.script_context
    }

    /// How many witnesses the context scanned: one summary per witness.
    pub fn scanned_witness_count(&self) -> (res: usize)
        requires
            self.wf(),
        ensures
            res == self.spec_summaries().len(),
    {
        self.witnesses.len()
    }

    /// The malformed OTX run of the transaction, if it has one.
    pub fn invalid_otx_run(&self) -> (res: Option<InvalidOtxRun>)
        ensures
            res == self.spec_invalid_run(),
    {
        self.invalid_run
    }

    /// The OTX run of the transaction.
    pub fn otx_layouts(&self) -> (res: &OtxLayouts)
        ensures
            spec_layouts_model(*res) == self.spec_layouts(),
    {
        &self.otx_layouts
    }
}

/// Every action names a script the transaction holds in the action's role.
pub open spec fn spec_targets_ok(sc: CurrentScriptContext, actions: Seq<ActionModel>) -> bool {
    forall|k: int| 0 <= k < actions.len() ==> sc.spec_target_listed((#[trigger] actions[k]).script_role, actions[k].script_hash)
}

/// The actions of a message, each checked to name a script of the transaction.
pub open spec fn spec_checked_actions(sc: CurrentScriptContext, m: CursorView) -> Result<Seq<ActionModel>, CoreError> {
    match spec_message_actions(m) {
        Err(e) => Err(e),
        Ok(a) => if spec_targets_ok(sc, a) {
            Ok(a)
        } else {
            Err(CoreError::InvalidMessageTarget)
        },
    }
}

impl CobuildContext {
    /// The related actions of OTX `otx_index`.
    pub open spec fn spec_otx_actions(&self, otx_index: int) -> Result<Seq<RelatedActionModel>, CoreError> {
        match self.spec_layouts() {
            None => Err(CoreError::InvalidOtxLayout),
            Some(b) => if otx_index < 0 || otx_index >= b.entries.len() {
                Err(CoreError::InvalidOtxLayout)
            } else {
                let (l, o) = b.entries[otx_index];
                match spec_checked_actions(self.spec_script_context(), o.message) {
                    Err(e) => Err(e),
                    Ok(a) => Ok(spec_with_origin(spec_otx_origin(otx_index, l), a)),
                }
            },
        }
    }

    /// The related actions of the transaction-level message, if there is one.
    pub open spec fn spec_tx_level_actions(&self) -> Result<Option<Seq<RelatedActionModel>>, CoreError> {
        match spec_unique_sighash_all(self.spec_summaries()) {
            Err(e) => Err(e),
            Ok(None) => Ok(None),
            Ok(Some((wi, m))) => match spec_checked_actions(self.spec_script_context(), m) {
                Err(e) => Err(e),
                Ok(a) => Ok(Some(spec_with_origin(ActionOrigin::TxLevel { witness_index: wi as usize }, a))),
            },
        }
    }

    /// The related actions of the first `n` OTXs, in order.
    pub open spec fn spec_otx_actions_prefix(&self, n: nat) -> Result<Seq<RelatedActionModel>, CoreError>
        decreases n,
    {
        if n == 0 {
            Ok(Seq::empty())
        } else {
            match self.spec_otx_actions_prefix((n - 1) as nat) {
                Err(e) => Err(e),
                Ok(p) => match self.spec_otx_actions(n - 1) {
                    Err(e) => Err(e),
                    Ok(a) => Ok(p + a),
                },
            }
        }
    }

    /// Every related action: the transaction-level ones, then each OTX's.
    pub open spec fn spec_all_actions(&self) -> Result<Seq<RelatedActionModel>, CoreError> {
        match self.spec_tx_level_actions() {
            Err(e) => Err(e),
            Ok(t) => {
                let tv = match t {
                    Some(v) => v,
                    None => Seq::empty(),
                };
                match self.spec_layouts() {
                    None => Ok(tv),
                    Some(b) => match self.spec_otx_actions_prefix(b.entries.len()) {
                        Err(e) => Err(e),
                        Ok(ov) => Ok(tv + ov),
                    },
                }
            },
        }
    }

    /// The action a reference names; a reference that names nothing is not found.
    pub open spec fn spec_find_action(&self, r: ActionRef) -> Result<RelatedActionModel, CoreError> {
        match r {
            ActionRef::TxLevel { witness_index, action_index } => match spec_unique_sighash_all(self.spec_summaries()) {
                Err(e) => Err(e),
                Ok(None) => Err(CoreError::ActionNotFound),
                Ok(Some((w, m))) => if w != witness_index {
                    Err(CoreError::ActionNotFound)
                } else {
                    match spec_message_action(m, action_index as int) {
                        Err(e) => Err(e),
                        Ok(None) => Err(CoreError::ActionNotFound),
                        Ok(Some(a)) => Ok(RelatedActionModel { origin: ActionOrigin::TxLevel { witness_index }, action: a }),
                    }
                },
            },
            ActionRef::Otx { witness_index, otx_index, action_index } => match self.spec_layouts() {
                None => Err(CoreError::ActionNotFound),
                Some(b) => if otx_index >= b.entries.len() {
                    Err(CoreError::ActionNotFound)
                } else {
                    let (l, o) = b.entries[otx_index as int];
                    if l.witness_index != witness_index {
                        Err(CoreError::ActionNotFound)
                    } else {
                        match spec_message_action(o.message, action_index as int) {
                            Err(e) => Err(e),
                            Ok(None) => Err(CoreError::ActionNotFound),
                            Ok(Some(a)) => Ok(RelatedActionModel { origin: spec_otx_origin(otx_index as int, l), action: a }),
                        }
                    }
                },
            },
        }
    }
}

fn otx_origin(otx_index: usize, otx: &OtxLayoutEntry) -> (res: ActionOrigin)
    ensures
        res == spec_otx_origin(otx_index as int, otx.layout@),
{
    ActionOrigin::Otx {
        witness_index: otx.layout.witness_index,
        otx_index,
        layout: OtxMessageLayout {
            base_inputs: otx.layout.base_inputs,
            append_inputs: otx.layout.append_inputs,
            base_outputs: otx.layout.base_outputs,
            append_outputs: otx.layout.append_outputs,
            base_cell_deps: otx.layout.base_cell_deps,
            append_cell_deps: otx.layout.append_cell_deps,
            base_header_deps: otx.layout.base_header_deps,
            append_header_deps: otx.layout.append_header_deps,
        },
    }
}

/// Tags an action with the transaction-level witness it came from.
pub fn related_tx_action(witness_index: usize, action: ActionView) -> (res: RelatedAction)
    ensures
        res@ == (RelatedActionModel { origin: ActionOrigin::TxLevel { witness_index }, action: action@ }),
{
    RelatedAction { origin: ActionOrigin::TxLevel { witness_index }, action }
}

/// Tags an action with the OTX it came from.
pub fn related_otx_action(otx_index: usize, otx: &OtxLayoutEntry, action: ActionView) -> (res: RelatedAction)
    ensures
        res@ == (RelatedActionModel { origin: spec_otx_origin(otx_index as int, otx.layout@), action: action@ }),
{
    RelatedAction { origin: otx_origin(otx_index, otx), action }
}

fn tag_actions(origin: ActionOrigin, actions: Vec<ActionView>) -> (res: Vec<RelatedAction>)
    ensures
        spec_related_views(res@) == spec_with_origin(origin, spec_action_views(actions@)),
{
    let mut out: Vec<RelatedAction> = Vec::new();
    let mut i: usize = 0;
    while i < actions.len()
        invariant
            0 <= i <= actions@.len(),
            spec_related_views(out@) == spec_with_origin(origin, spec_action_views(actions@)).take(i as int),
        decreases actions@.len() - i,
    {
        let ghost prev = out@;
        let item = RelatedAction { origin, action: actions[i].duplicate() };
        let ghost iv = item@;
        out.push(item);
        proof {
            let all = spec_with_origin(origin, spec_action_views(actions@));
            assert(iv == all[i as int]);
            assert(spec_related_views(out@) =~= spec_related_views(prev).push(iv));
            assert(all.take(i + 1) =~= all.take(i as int).push(all[i as int]));
        }
        i = i + 1;
    }
    proof {
        assert(spec_with_origin(origin, spec_action_views(actions@)).take(actions@.len() as int) =~= spec_with_origin(
            origin,
            spec_action_views(actions@),
        ));
    }
    out
}

fn message_actions(message: &Cursor) -> (res: Result<Vec<ActionView>, CoreError>)
    ensures
        match spec_message_actions(message@) {
            Ok(a) => res matches Ok(v) && spec_action_views(v@) == a,
            Err(e) => res == Err::<Vec<ActionView>, CoreError>(e),
        },
{
    MessageView::new(message.duplicate()).actions_from_verified_message()
}

fn message_action(message: &Cursor, action_index: usize) -> (res: Result<ActionView, CoreError>)
    ensures
        match spec_message_action(message@, action_index as int) {
            Ok(Some(a)) => res matches Ok(v) && v@ == a,
            Ok(None) => res == Err::<ActionView, CoreError>(CoreError::ActionNotFound),
            Err(e) => res == Err::<ActionView, CoreError>(e),
        },
{
    match MessageView::new(message.duplicate()).action_from_verified_message(action_index)? {
        Some(a) => Ok(a),
        None => Err(CoreError::ActionNotFound),
    }
}

impl CobuildContext {
    fn checked_message_actions(&self, message: &Cursor) -> (res: Result<Vec<ActionView>, CoreError>)
        ensures
            match spec_checked_actions(self.spec_script_context(), message@) {
                Ok(a) => res matches Ok(v) && spec_action_views(v@) == a,
                Err(e) => res == Err::<Vec<ActionView>, CoreError>(e),
            },
    {
        let actions = message_actions(message)?;
        let ghost views = spec_action_views(actions@);
        match self.script_context.validate_action_targets(actions.as_slice()) {
            Ok(()) => {
                proof {
                    assert forall|k: int| 0 <= k < views.len() implies self.spec_script_context().spec_target_listed(
                        (#[trigger] views[k]).script_role,
                        views[k].script_hash,
                    ) by {
                        assert(views[k] == actions@[k]@);
                    }
                }
                Ok(actions)
            },
            Err(e) => {
                proof {
                    let k = choose|k: int|
                        0 <= k < actions@.len() && !self.spec_script_context().spec_target_listed(
                            (#[trigger] actions@[k]).script_role,
                            actions@[k].script_hash@,
                        );
                    assert(views[k] == actions@[k]@);
                }
                Err(e)
            },
        }
    }

    fn otx_entry(&self, otx_index: usize, missing: CoreError) -> (res: Result<&OtxLayoutEntry, CoreError>)
        ensures
            match self.spec_layouts() {
                None => res == Err::<&OtxLayoutEntry, CoreError>(missing),
                Some(b) => if otx_index >= b.entries.len() {
                    res == Err::<&OtxLayoutEntry, CoreError>(missing)
                } else {
                    res matches Ok(e) && (e.layout@, e.witness@) == b.entries[otx_index as int]
                },
            },
    {
        match &self.otx_layouts {
            OtxLayouts::Complete(layout) => {
                if otx_index >= layout.otx_entries.len() {
                    return Err(missing);
                }
                Ok(&layout.otx_entries[otx_index])
            },
            OtxLayouts::Absent => Err(missing),
        }
    }

    /// The related actions of OTX `otx_index`, each checked to name a script of the transaction.
    pub fn otx_actions(&self, otx_index: usize) -> (res: Result<Vec<RelatedAction>, CoreError>)
        ensures
            match self.spec_otx_actions(otx_index as int) {
                Ok(v) => res matches Ok(r) && spec_related_views(r@) == v,
                Err(e) => res == Err::<Vec<RelatedAction>, CoreError>(e),
            },
    {
        let otx = self.otx_entry(otx_index, CoreError::InvalidOtxLayout)?;
        let actions = self.checked_message_actions(&otx.witness.message)?;
        Ok(tag_actions(otx_origin(otx_index, otx), actions))
    }

    /// The related actions of the transaction-level message, if there is one.
    pub fn tx_level_actions(&self) -> (res: Result<Option<Vec<RelatedAction>>, CoreError>)
        ensures
            match self.spec_tx_level_actions() {
                Ok(None) => res matches Ok(None),
                Ok(Some(v)) => res matches Ok(Some(r)) && spec_related_views(r@) == v,
                Err(e) => res == Err::<Option<Vec<RelatedAction>>, CoreError>(e),
            },
    {
        let (witness_index, message) = match self.witnesses.unique_sighash_all_message_with_index()? {
            Some(found) => found,
            None => return Ok(None),
        };
        let actions = self.checked_message_actions(&message)?;
        Ok(Some(tag_actions(ActionOrigin::TxLevel { witness_index }, actions)))
    }

    /// The action a reference names. The action's target is not checked.
    pub fn find_action(&self, action_ref: ActionRef) -> (res: Result<RelatedAction, CoreError>)
        ensures
            match self.spec_find_action(action_ref) {
                Ok(v) => res matches Ok(r) && r@ == v,
                Err(e) => res == Err::<RelatedAction, CoreError>(e),
            },
    {
        match action_ref {
            ActionRef::TxLevel { witness_index, action_index } => {
                let (actual_witness_index, message) = match self.witnesses.unique_sighash_all_message_with_index()? {
                    Some(found) => found,
                    None => return Err(CoreError::ActionNotFound),
                };
                if actual_witness_index != witness_index {
                    return Err(CoreError::ActionNotFound);
                }
                let action = message_action(&message, action_index)?;
                Ok(related_tx_action(witness_index, action))
            },
            ActionRef::Otx { witness_index, otx_index, action_index } => {
                let otx = self.otx_entry(otx_index, CoreError::ActionNotFound)?;
                if otx.layout.witness_index != witness_index {
                    return Err(CoreError::ActionNotFound);
                }
                let action = message_action(&otx.witness.message, action_index)?;
                Ok(related_otx_action(otx_index, otx, action))
            },
        }
    }

    /// Every related action: the transaction-level ones, then each OTX's, in order.
    pub fn all_actions(&self) -> (res: Result<Vec<RelatedAction>, CoreError>)
        ensures
            match self.spec_all_actions() {
                Ok(v) => res matches Ok(r) && spec_related_views(r@) == v,
                Err(e) => res == Err::<Vec<RelatedAction>, CoreError>(e),
            },
    {
        let mut actions: Vec<RelatedAction> = Vec::new();
        match self.tx_level_actions()? {
            Some(mut tx_level) => actions.append(&mut tx_level),
            None => {},
        }
        proof {
            assert(spec_related_views(actions@) =~= match self.spec_tx_level_actions()->Ok_0 {
                Some(v) => v,
                None => Seq::empty(),
            });
        }
        let n = match &self.otx_layouts {
            OtxLayouts::Complete(layout) => layout.otx_entries.len(),
            OtxLayouts::Absent => return Ok(actions),
        };
        let ghost tv = spec_related_views(actions@);
        let mut otx_index: usize = 0;
        proof {
            assert(spec_related_views(actions@) =~= tv + Seq::<RelatedActionModel>::empty());
        }
        while otx_index < n
            invariant
                self.spec_tx_level_actions() is Ok,
                tv == match self.spec_tx_level_actions()->Ok_0 {
                    Some(v) => v,
                    None => Seq::empty(),
                },
                self.spec_layouts() matches Some(b) && b.entries.len() == n,
                0 <= otx_index <= n,
                self.spec_otx_actions_prefix(otx_index as nat) matches Ok(p) && spec_related_views(actions@) == tv + p,
            decreases n - otx_index,
        {
            let ghost before = spec_related_views(actions@);
            let mut more = match self.otx_actions(otx_index) {
                Ok(v) => v,
                Err(e) => {
                    proof {
                        lemma_otx_actions_prefix_err_stays(self, (otx_index + 1) as nat, n as nat);
                    }
                    return Err(e);
                },
            };
            let ghost mv = spec_related_views(more@);
            actions.append(&mut more);
            proof {
                assert(spec_related_views(actions@) =~= before + mv);
                let p = self.spec_otx_actions_prefix(otx_index as nat)->Ok_0;
                assert(before == tv + p);
                assert(tv + (p + mv) =~= (tv + p) + mv);
            }
            otx_index = otx_index + 1;
        }
        Ok(actions)
    }
}

/// An error among the first OTXs' actions is the error of all of them.
pub proof fn lemma_otx_actions_prefix_err_stays(c: &CobuildContext, k: nat, n: nat)
    requires
        k <= n,
        c.spec_otx_actions_prefix(k) is Err,
    ensures
        c.spec_otx_actions_prefix(n) == c.spec_otx_actions_prefix(k),
    decreases n - k,
{
    if k < n {
        lemma_otx_actions_prefix_err_stays(c, k, (n - 1) as nat);
    }
}


// ---------------------------------------------------------------------------
// Lock validation planning
// ---------------------------------------------------------------------------

/// The current lock needs a transaction-level signature: it guards some input,
/// and not all of them lie in the OTX run.
pub open spec fn spec_needs_tx_signature(lock_inputs: Seq<usize>, layouts: Option<BuiltLayoutModel>) -> bool {
    lock_inputs.len() > 0 && match layouts {
        None => true,
        Some(b) => spec_any_outside(lock_inputs, b.input_range),
    }
}

/// The transaction-level signing hash: over the message (whose actions must
/// name scripts of the transaction) when there is one, without it otherwise.
pub open spec fn spec_tx_signing_hash(sc: CurrentScriptContext, s: InMemorySource, message: Option<CursorView>) -> Result<Seq<u8>, CoreError> {
    match message {
        Some(m) => match spec_checked_actions(sc, m) {
            Err(e) => Err(e),
            Ok(_) => match spec_tx_preimage(Some(m), s) {
                Err(e) => Err(e),
                Ok(p) => Ok(blake2b_personal_digest(TX_WITH_MESSAGE_PERSONAL@, p)),
            },
        },
        None => match spec_tx_preimage(None, s) {
            Err(e) => Err(e),
            Ok(p) => Ok(blake2b_personal_digest(TX_WITHOUT_MESSAGE_PERSONAL@, p)),
        },
    }
}

/// The indexes of the append segments among the first `n` whose inputs hold an input of the lock.
pub open spec fn spec_required_segments(lock_inputs: Seq<usize>, segments: Seq<OtxAppendSegmentLayout>, n: nat) -> Seq<usize>
    decreases n,
{
    if n == 0 {
        Seq::empty()
    } else {
        let prev = spec_required_segments(lock_inputs, segments, (n - 1) as nat);
        if spec_any_in(lock_inputs, segments[n - 1].inputs) {
            prev.push((n - 1) as usize)
        } else {
            prev
        }
    }
}

/// The signature for append segment `j`: the lock's seal in the segment and
/// the segment's append hash.
pub open spec fn spec_segment_requirement(
    s: InMemorySource,
    lock: Seq<u8>,
    l: OtxLayoutModel,
    o: OtxModel,
    base_hash: Seq<u8>,
    j: int,
) -> Result<RequirementModel, CoreError> {
    if j < 0 || j >= o.append_segments.len() {
        Err(CoreError::InvalidOtxLayout)
    } else {
        match spec_unique_lock_seal(o.append_segments[j].seals, lock) {
            Err(e) => Err(e),
            Ok(seal) => if j >= l.append_segments.len() {
                Err(CoreError::InvalidOtxLayout)
            } else {
                let seg = l.append_segments[j];
                match spec_append_preimage(o.message, base_hash, seg.inputs, seg.outputs, seg.cell_deps, seg.header_deps, s) {
                    Err(e) => Err(e),
                    Ok(p) => Ok(
                        RequirementModel {
                            origin: SignatureOrigin::OtxAppend,
                            carrier_witness_index: l.witness_index,
                            seal,
                            signing_message_hash: blake2b_personal_digest(OTX_APPEND_PERSONAL@, p),
                        },
                    ),
                }
            },
        }
    }
}

/// The append-segment signatures for the first `n` required segments, in order.
pub open spec fn spec_segment_requirements(
    s: InMemorySource,
    lock: Seq<u8>,
    l: OtxLayoutModel,
    o: OtxModel,
    base_hash: Seq<u8>,
    segments: Seq<usize>,
    n: nat,
) -> Result<Seq<RequirementModel>, CoreError>
    decreases n,
{
    if n == 0 {
        Ok(Seq::empty())
    } else {
        match spec_segment_requirements(s, lock, l, o, base_hash, segments, (n - 1) as nat) {
            Err(e) => Err(e),
            Ok(prev) => match spec_segment_requirement(s, lock, l, o, base_hash, segments[n - 1] as int) {
                Err(e) => Err(e),
                Ok(r) => Ok(prev.push(r)),
            },
        }
    }
}

/// The OTX signatures of the lock: the base one when the base inputs hold the
/// lock, then one per required append segment.
pub open spec fn spec_otx_signatures(
    s: InMemorySource,
    lock: Seq<u8>,
    l: OtxLayoutModel,
    o: OtxModel,
    base_signature: bool,
    segments: Seq<usize>,
) -> Result<Seq<RequirementModel>, CoreError> {
    match spec_otx_base_preimage(o, l, s) {
        Err(e) => Err(e),
        Ok(bp) => {
            let base_hash = blake2b_personal_digest(OTX_BASE_PERSONAL@, bp);
            let base = if base_signature {
                match spec_unique_lock_seal(o.base_seals, lock) {
                    Err(e) => Err(e),
                    Ok(seal) => Ok(
                        seq![
                            RequirementModel {
                                origin: SignatureOrigin::OtxBase,
                                carrier_witness_index: l.witness_index,
                                seal,
                                signing_message_hash: base_hash,
                            },
                        ],
                    ),
                }
            } else {
                Ok(Seq::empty())
            };
            match base {
                Err(e) => Err(e),
                Ok(br) => match spec_segment_requirements(s, lock, l, o, base_hash, segments, segments.len()) {
                    Err(e) => Err(e),
                    Ok(sr) => Ok(br + sr),
                },
            }
        },
    }
}

/// The related actions of the transaction-level message for the lock, and
/// whether their targets are checked.
pub open spec fn spec_lock_tx_actions(sc: CurrentScriptContext, summaries: Seq<SummaryModel>, lock: Seq<u8>) -> Result<Seq<RelatedActionModel>, CoreError> {
    match spec_unique_sighash_all(summaries) {
        Err(e) => Err(e),
        Ok(None) => Ok(Seq::empty()),
        Ok(Some((wi, m))) => match spec_message_actions(m) {
            Err(e) => Err(e),
            Ok(all) => {
                let la = spec_filter_actions(all, ScriptRole::InputLock, lock);
                if la.len() == 0 {
                    Ok(Seq::empty())
                } else if !spec_targets_ok(sc, all) {
                    Err(CoreError::InvalidMessageTarget)
                } else {
                    Ok(spec_with_origin(ActionOrigin::TxLevel { witness_index: wi as usize }, la))
                }
            },
        },
    }
}

/// The witness leading a lock group is a legacy witness, which a lock that
/// needs a transaction-level signature cannot read one from.
pub open spec fn spec_leads_with_legacy(summaries: Seq<SummaryModel>, lock_inputs: Seq<usize>) -> bool {
    lock_inputs.len() > 0 && lock_inputs[0] < summaries.len() && summaries[lock_inputs[0] as int] is Legacy
}

/// The witness leading a lock group is a transaction-level carrier.
pub open spec fn spec_leads_with_carrier(summaries: Seq<SummaryModel>, lock_inputs: Seq<usize>) -> bool {
    lock_inputs.len() > 0 && lock_inputs[0] < summaries.len() && summaries[lock_inputs[0] as int].is_carrier()
}

impl CobuildContext {
    /// The transaction-level signature of the lock, if it needs one and the
    /// witness leading its group carries one.
    pub open spec fn spec_tx_requirement(&self, lock: Seq<u8>, lock_inputs: Seq<usize>) -> Result<Option<RequirementModel>, CoreError> {
        let summaries = self.spec_summaries();
        if spec_needs_tx_signature(lock_inputs, self.spec_layouts()) && spec_leads_with_legacy(summaries, lock_inputs) {
            Err(CoreError::MalformedCobuild)
        } else if !spec_any_cobuild(summaries) || !spec_needs_tx_signature(lock_inputs, self.spec_layouts()) {
            Ok(None)
        } else {
            let carrier = lock_inputs[0] as int;
            if !(forall|k: int| 0 <= k < lock_inputs.len() ==> spec_witness_empty_or_carrier(summaries, #[trigger] lock_inputs[k] as int, carrier)) {
                Err(CoreError::InvalidLockGroupWitness)
            } else {
                match spec_unique_sighash_all(summaries) {
                    Err(e) => Err(e),
                    Ok(unique) => if !(carrier < summaries.len() && summaries[carrier].is_carrier()) {
                        Ok(None)
                    } else {
                        let unique_message = match unique {
                            Some((_, m)) => Some(m),
                            None => None,
                        };
                        let (seal, message) = match summaries[carrier] {
                            SummaryModel::SighashAll { seal, message } => (seal, Some(match unique_message {
                                Some(m) => m,
                                None => message,
                            })),
                            SummaryModel::SighashAllOnly { seal } => (seal, unique_message),
                            _ => (summaries[carrier]->SighashAllOnly_seal, None),
                        };
                        match spec_tx_signing_hash(self.spec_script_context(), self.spec_source(), message) {
                            Err(e) => Err(e),
                            Ok(hash) => match spec_chunk(seal, CoreError::MalformedCobuild) {
                                Err(e) => Err(e),
                                Ok(sb) => Ok(
                                    Some(
                                        RequirementModel {
                                            origin: SignatureOrigin::TxLevel,
                                            carrier_witness_index: carrier,
                                            seal: sb,
                                            signing_message_hash: hash,
                                        },
                                    ),
                                ),
                            },
                        }
                    },
                }
            }
        }
    }

    /// What OTX `j` adds to the lock's plan: its signatures and related actions.
    #[verifier::opaque]
    pub open spec fn spec_otx_lock_contribution(&self, lock: Seq<u8>, lock_inputs: Seq<usize>, j: int) -> Result<
        (Seq<RequirementModel>, Seq<RelatedActionModel>),
        CoreError,
    > {
        let (l, o) = self.spec_layouts()->Some_0.entries[j];
        let base_signature = spec_any_in(lock_inputs, l.base_inputs);
        let segments = spec_required_segments(lock_inputs, l.append_segments, l.append_segments.len());
        match spec_message_actions(o.message) {
            Err(e) => Err(e),
            Ok(all) => {
                let la = spec_filter_actions(all, ScriptRole::InputLock, lock);
                let needs = base_signature || segments.len() > 0;
                if !needs && la.len() == 0 {
                    Ok((Seq::empty(), Seq::empty()))
                } else if !spec_targets_ok(self.spec_script_context(), all) {
                    Err(CoreError::InvalidMessageTarget)
                } else {
                    let acts = spec_with_origin(spec_otx_origin(j, l), la);
                    if !needs {
                        Ok((Seq::empty(), acts))
                    } else {
                        match spec_otx_signatures(self.spec_source(), lock, l, o, base_signature, segments) {
                            Err(e) => Err(e),
                            Ok(r) => Ok((r, acts)),
                        }
                    }
                }
            },
        }
    }

    /// What the first `n` OTXs add to the lock's plan.
    pub open spec fn spec_otx_lock_contributions(&self, lock: Seq<u8>, lock_inputs: Seq<usize>, n: nat) -> Result<
        (Seq<RequirementModel>, Seq<RelatedActionModel>),
        CoreError,
    >
        decreases n,
    {
        if n == 0 {
            Ok((Seq::empty(), Seq::empty()))
        } else {
            match self.spec_otx_lock_contributions(lock, lock_inputs, (n - 1) as nat) {
                Err(e) => Err(e),
                Ok((r, a)) => match self.spec_otx_lock_contribution(lock, lock_inputs, n - 1) {
                    Err(e) => Err(e),
                    Ok((r2, a2)) => Ok((r + r2, a + a2)),
                },
            }
        }
    }

    /// The lock's validation plan: the transaction-level signature, the
    /// transaction-level actions, then each OTX's signatures and actions; a
    /// lock with OTX signatures only must have all its inputs in the OTX run.
    /// A malformed OTX run that reaches an input of the lock fails it with the
    /// run's error; one that does not is no concern of the lock.
    pub open spec fn spec_lock_plan(&self) -> Result<LockPlanModel, CoreError> {
        let sc = self.spec_script_context();
        match sc.spec_script() {
            CurrentScript::Type(_) => Err(CoreError::InvalidContextInput),
            CurrentScript::InputLock(lock_hash) => {
                let lock = lock_hash@;
                let lock_inputs = sc.spec_lock_inputs()->Some_0;
                if self.spec_invalid_run() is Some && spec_run_reaches(self.spec_invalid_run()->Some_0, lock_inputs, Seq::empty()) {
                    Err(self.spec_invalid_run()->Some_0.error)
                } else {
                match self.spec_tx_requirement(lock, lock_inputs) {
                    Err(e) => Err(e),
                    Ok(tr) => match spec_lock_tx_actions(sc, self.spec_summaries(), lock) {
                        Err(e) => Err(e),
                        Ok(ta) => {
                            let contributions = match self.spec_layouts() {
                                None => Ok((Seq::empty(), Seq::empty())),
                                Some(b) => self.spec_otx_lock_contributions(lock, lock_inputs, b.entries.len()),
                            };
                            match contributions {
                                Err(e) => Err(e),
                                Ok((otx_reqs, otx_acts)) => {
                                    let uncovered = match self.spec_layouts() {
                                        Some(b) => otx_reqs.len() > 0 && tr is None && spec_any_outside(lock_inputs, b.input_range),
                                        None => false,
                                    };
                                    if uncovered {
                                        Err(CoreError::MissingLockGroupCoverage)
                                    } else {
                                        Ok(
                                            LockPlanModel {
                                                lock_script_hash: lock,
                                                required_signatures: match tr {
                                                    Some(r) => seq![r],
                                                    None => Seq::empty(),
                                                } + otx_reqs,
                                                related_actions: ta + otx_acts,
                                            },
                                        )
                                    }
                                },
                            }
                        },
                    },
                }
                }
            },
        }
    }
}

/// A copy of each action.
pub fn duplicate_actions(actions: &[ActionView]) -> (res: Vec<ActionView>)
    ensures
        spec_action_views(res@) == spec_action_views(actions@),
{
    let mut out: Vec<ActionView> = Vec::new();
    let mut i: usize = 0;
    while i < actions.len()
        invariant
            0 <= i <= actions@.len(),
            spec_action_views(out@) == spec_action_views(actions@).take(i as int),
        decreases actions@.len() - i,
    {
        let ghost prev = out@;
        let a = actions[i].duplicate();
        out.push(a);
        proof {
            assert(spec_action_views(out@) =~= spec_action_views(prev).push(actions@[i as int]@));
            assert(spec_action_views(actions@).take(i + 1) =~= spec_action_views(actions@).take(i as int).push(actions@[i as int]@));
        }
        i = i + 1;
    }
    proof {
        assert(spec_action_views(actions@).take(actions@.len() as int) =~= spec_action_views(actions@));
    }
    out
}

/// The views of signing requirements.
pub open spec fn spec_requirement_views(v: Seq<SigningRequirement>) -> Seq<RequirementModel> {
    v.map_values(|r: SigningRequirement| r@)
}

fn lock_actions_from_actions(all: &Vec<ActionView>, lock: &[u8; 32]) -> (res: Vec<ActionView>)
    ensures
        spec_action_views(res@) == spec_filter_actions(spec_action_views(all@), ScriptRole::InputLock, lock@),
{
    filter_actions(duplicate_actions(all.as_slice()), ScriptRole::InputLock, *lock)
}

/// The indexes of the append segments of an OTX whose inputs hold an input of the lock.
pub fn required_append_segment_indices(lock_inputs: &[usize], otx: &OtxLayoutEntry) -> (res: Vec<usize>)
    ensures
        res@ == spec_required_segments(lock_inputs@, otx.layout@.append_segments, otx.layout@.append_segments.len()),
{
    let mut out: Vec<usize> = Vec::new();
    let n = otx.layout.append_segments.len();
    let mut j: usize = 0;
    while j < n
        invariant
            n == otx.layout@.append_segments.len(),
            0 <= j <= n,
            out@ == spec_required_segments(lock_inputs@, otx.layout@.append_segments, j as nat),
        decreases n - j,
    {
        if any_in_range(lock_inputs, otx.layout.append_segments[j].inputs) {
            out.push(j);
        }
        j = j + 1;
    }
    out
}

/// An error among the first required segments is the error of all of them.
pub proof fn lemma_segment_requirements_err_stays(
    s: InMemorySource,
    lock: Seq<u8>,
    l: OtxLayoutModel,
    o: OtxModel,
    base_hash: Seq<u8>,
    segments: Seq<usize>,
    k: nat,
    n: nat,
)
    requires
        k <= n,
        spec_segment_requirements(s, lock, l, o, base_hash, segments, k) is Err,
    ensures
        spec_segment_requirements(s, lock, l, o, base_hash, segments, n) == spec_segment_requirements(s, lock, l, o, base_hash, segments, k),
    decreases n - k,
{
    if k < n {
        lemma_segment_requirements_err_stays(s, lock, l, o, base_hash, segments, k, (n - 1) as nat);
    }
}

impl CobuildContext {
    /// The transaction-level signing hash, with the message when there is one
    /// (whose action targets must be listed) or without.
    fn tx_signing_hash(&self, message: Option<&Cursor>) -> (res: Result<[u8; 32], CoreError>)
        ensures
            match spec_tx_signing_hash(
                self.spec_script_context(),
                self.spec_source(),
                match message {
                    Some(m) => Some(m@),
                    None => None,
                },
            ) {
                Ok(h) => res matches Ok(r) && r@ == h,
                Err(e) => res == Err::<[u8; 32], CoreError>(e),
            },
    {
        match message {
            Some(m) => {
                let _ = self.checked_message_actions(m)?;
                tx_with_message_hash(m, &self.tx)
            },
            None => tx_without_message_hash(&self.tx),
        }
    }

    /// The transaction-level signature the lock group needs, if any: when a
    /// Cobuild witness is present, the group has an input outside the OTX
    /// input range and its leading witness is a carrier, the seal of that
    /// witness over the transaction hash. A group that needs one but leads
    /// with a legacy witness is malformed; one whose other witnesses are not
    /// all empty is refused before the leading witness is looked at.
    fn tx_level_requirement(&self, lock: [u8; 32], lock_inputs: &[usize]) -> (res: Result<Option<SigningRequirement>, CoreError>)
        requires
            self.wf(),
        ensures
            match self.spec_tx_requirement(lock@, lock_inputs@) {
                Ok(None) => res matches Ok(None),
                Ok(Some(r)) => res matches Ok(Some(v)) && v@ == r,
                Err(e) => res == Err::<Option<SigningRequirement>, CoreError>(e),
            },
    {
        let needs = if lock_inputs.len() == 0 {
            false
        } else {
            match &self.otx_layouts {
                OtxLayouts::Absent => true,
                OtxLayouts::Complete(layout) => any_outside_range(lock_inputs, layout.input_range),
            }
        };
        if needs && self.witnesses.is_legacy(lock_inputs[0]) {
            return Err(CoreError::MalformedCobuild);
        }
        if !self.witnesses.has_cobuild_witness_layout() || !needs {
            return Ok(None);
        }
        let carrier = lock_inputs[0];
        self.witnesses.ensure_non_carrier_witnesses_empty(lock_inputs, carrier)?;
        let carrier_view = self.witnesses.tx_level_carrier_view(carrier)?;
        let tx_message = self.witnesses.unique_sighash_all_message_with_index()?;
        let carrier_view = match carrier_view {
            Some(c) => c,
            None => return Ok(None),
        };
        let (seal, hash) = match carrier_view {
            TxLevelCarrierView::WithMessage { seal, message } => {
                let msg = match &tx_message {
                    Some((_, m)) => m.duplicate(),
                    None => message,
                };
                let h = self.tx_signing_hash(Some(&msg))?;
                (seal, h)
            },
            TxLevelCarrierView::SealOnly { seal } => {
                let h = match &tx_message {
                    Some((_, m)) => self.tx_signing_hash(Some(m))?,
                    None => self.tx_signing_hash(None)?,
                };
                (seal, h)
            },
        };
        let seal_bytes = cursor_bytes(&seal)?;
        Ok(Some(SigningRequirement {
            origin: SignatureOrigin::TxLevel,
            carrier_witness_index: carrier,
            seal: seal_bytes,
            signing_message_hash: hash,
        }))
    }

    /// The actions of the unique SighashAll message that concern the lock.
    fn tx_level_lock_actions(&self, lock: [u8; 32]) -> (res: Result<Vec<RelatedAction>, CoreError>)
        ensures
            match spec_lock_tx_actions(self.spec_script_context(), self.spec_summaries(), lock@) {
                Ok(v) => res matches Ok(r) && spec_related_views(r@) == v,
                Err(e) => res == Err::<Vec<RelatedAction>, CoreError>(e),
            },
    {
        let (witness_index, message) = match self.witnesses.unique_sighash_all_message_with_index()? {
            Some(found) => found,
            None => {
                proof {
                    assert(spec_related_views(Seq::<RelatedAction>::empty()) =~= Seq::<RelatedActionModel>::empty());
                }
                return Ok(Vec::new());
            },
        };
        let all = message_actions(&message)?;
        let actions = lock_actions_from_actions(&all, &lock);
        if actions.len() == 0 {
            proof {
                assert(spec_related_views(Seq::<RelatedAction>::empty()) =~= Seq::<RelatedActionModel>::empty());
            }
            return Ok(Vec::new());
        }
        let _ = self.checked_message_actions(&message)?;
        Ok(tag_actions(ActionOrigin::TxLevel { witness_index }, actions))
    }

    /// The signature an append segment of an OTX needs from the lock.
    fn segment_requirement(
        &self,
        lock: [u8; 32],
        otx: &OtxLayoutEntry,
        base_hash: [u8; 32],
        j: usize,
    ) -> (res: Result<SigningRequirement, CoreError>)
        ensures
            match spec_segment_requirement(self.spec_source(), lock@, otx.layout@, otx.witness@, base_hash@, j as int) {
                Ok(v) => res matches Ok(r) && r@ == v,
                Err(e) => res == Err::<SigningRequirement, CoreError>(e),
            },
    {
        if j >= otx.witness.append_segments.len() {
            return Err(CoreError::InvalidOtxLayout);
        }
        proof {
            assert(otx.witness@.append_segments[j as int] == otx.witness.append_segments@[j as int]@);
            assert(otx.witness@.append_segments[j as int].seals == otx.witness.append_segments@[j as int].seals@.map_values(
                |s: LockSealView| s@,
            ));
        }
        let seal = unique_lock_seal(lock, otx.witness.append_segments[j].seals.as_slice())?;
        let hash = otx_append_segment_hash(&otx.witness, &otx.layout, j, &self.tx, base_hash)?;
        Ok(SigningRequirement {
            origin: SignatureOrigin::OtxAppend,
            carrier_witness_index: otx.layout.witness_index,
            seal,
            signing_message_hash: hash,
        })
    }

    /// The signatures the given append segments of an OTX need from the lock, in order.
    fn segment_requirements(
        &self,
        lock: [u8; 32],
        otx: &OtxLayoutEntry,
        base_hash: [u8; 32],
        segments: &[usize],
    ) -> (res: Result<Vec<SigningRequirement>, CoreError>)
        ensures
            match spec_segment_requirements(self.spec_source(), lock@, otx.layout@, otx.witness@, base_hash@, segments@, segments@.len()) {
                Ok(v) => res matches Ok(r) && spec_requirement_views(r@) == v,
                Err(e) => res == Err::<Vec<SigningRequirement>, CoreError>(e),
            },
    {
        let ghost l = otx.layout@;
        let ghost o = otx.witness@;
        let mut out: Vec<SigningRequirement> = Vec::new();
        let mut k: usize = 0;
        proof {
            assert(spec_requirement_views(out@) =~= Seq::<RequirementModel>::empty());
        }
        while k < segments.len()
            invariant
                l == otx.layout@,
                o == otx.witness@,
                0 <= k <= segments@.len(),
                spec_segment_requirements(self.spec_source(), lock@, l, o, base_hash@, segments@, k as nat) == Ok::<
                    Seq<RequirementModel>,
                    CoreError,
                >(spec_requirement_views(out@)),
            decreases segments@.len() - k,
        {
            let r = match self.segment_requirement(lock, otx, base_hash, segments[k]) {
                Ok(r) => r,
                Err(e) => {
                    proof {
                        lemma_segment_requirements_err_stays(self.spec_source(), lock@, l, o, base_hash@, segments@, (k + 1) as nat, segments@.len());
                    }
                    return Err(e);
                },
            };
            let ghost prev = out@;
            let ghost rv = r@;
            out.push(r);
            proof {
                assert(spec_requirement_views(out@) =~= spec_requirement_views(prev).push(rv));
            }
            k = k + 1;
        }
        Ok(out)
    }

    /// The signatures an OTX needs from the lock: over its base when its base
    /// inputs hold a lock input, then over each given append segment.
    fn otx_signatures(
        &self,
        lock: [u8; 32],
        otx: &OtxLayoutEntry,
        base_signature: bool,
        segments: &[usize],
    ) -> (res: Result<Vec<SigningRequirement>, CoreError>)
        requires
            spec_entry_bounded((otx.layout@, otx.witness@)),
        ensures
            match spec_otx_signatures(self.spec_source(), lock@, otx.layout@, otx.witness@, base_signature, segments@) {
                Ok(v) => res matches Ok(r) && spec_requirement_views(r@) == v,
                Err(e) => res == Err::<Vec<SigningRequirement>, CoreError>(e),
            },
    {
        let base_hash = otx_base_hash(&otx.witness, &otx.layout, &self.tx)?;
        let mut out: Vec<SigningRequirement> = Vec::new();
        if base_signature {
            proof {
                assert(otx.witness@.base_seals == otx.witness.base_seals@.map_values(|s: LockSealView| s@));
            }
            let seal = unique_lock_seal(lock, otx.witness.base_seals.as_slice())?;
            out.push(SigningRequirement {
                origin: SignatureOrigin::OtxBase,
                carrier_witness_index: otx.layout.witness_index,
                seal,
                signing_message_hash: base_hash,
            });
        }
        let ghost br = spec_requirement_views(out@);
        let mut more = self.segment_requirements(lock, otx, base_hash, segments)?;
        let ghost sr = spec_requirement_views(more@);
        out.append(&mut more);
        proof {
            assert(spec_requirement_views(out@) =~= br + sr);
            if base_signature {
                assert(br =~= seq![spec_requirement_views(out@)[0]]);
            } else {
                assert(br =~= Seq::<RequirementModel>::empty());
            }
        }
        Ok(out)
    }

    /// What an OTX contributes to the lock's plan: its signatures and the
    /// actions of its message that concern the lock.
    fn otx_requirement(
        &self,
        lock: [u8; 32],
        lock_inputs: &[usize],
        j: usize,
        otx: &OtxLayoutEntry,
    ) -> (res: Result<(Vec<SigningRequirement>, Vec<RelatedAction>), CoreError>)
        requires
            self.spec_layouts() matches Some(b) && 0 <= j < b.entries.len() && b.entries[j as int] == (otx.layout@, otx.witness@),
            spec_entry_bounded((otx.layout@, otx.witness@)),
        ensures
            match self.spec_otx_lock_contribution(lock@, lock_inputs@, j as int) {
                Ok((r, a)) => res matches Ok((rv, av)) && spec_requirement_views(rv@) == r && spec_related_views(av@) == a,
                Err(e) => res == Err::<(Vec<SigningRequirement>, Vec<RelatedAction>), CoreError>(e),
            },
    {
        reveal(CobuildContext::spec_otx_lock_contribution);
        let base_signature = any_in_range(lock_inputs, otx.layout.base_inputs);
        let segments = required_append_segment_indices(lock_inputs, otx);
        let all = message_actions(&otx.witness.message)?;
        let actions = lock_actions_from_actions(&all, &lock);
        let needs = base_signature || segments.len() != 0;
        if !needs && actions.len() == 0 {
            proof {
                assert(spec_requirement_views(Seq::<SigningRequirement>::empty()) =~= Seq::<RequirementModel>::empty());
                assert(spec_related_views(Seq::<RelatedAction>::empty()) =~= Seq::<RelatedActionModel>::empty());
            }
            return Ok((Vec::new(), Vec::new()));
        }
        let ghost views = spec_action_views(all@);
        match self.script_context.validate_action_targets(all.as_slice()) {
            Ok(()) => {
                proof {
                    assert forall|k: int| 0 <= k < views.len() implies self.spec_script_context().spec_target_listed(
                        (#[trigger] views[k]).script_role,
                        views[k].script_hash,
                    ) by {
                        assert(views[k] == all@[k]@);
                    }
                }
            },
            Err(e) => {
                proof {
                    let k = choose|k: int|
                        0 <= k < all@.len() && !self.spec_script_context().spec_target_listed(
                            (#[trigger] all@[k]).script_role,
                            all@[k].script_hash@,
                        );
                    assert(views[k] == all@[k]@);
                }
                return Err(e);
            },
        }
        let related = tag_actions(otx_origin(j, otx), actions);
        if !needs {
            proof {
                assert(spec_requirement_views(Seq::<SigningRequirement>::empty()) =~= Seq::<RequirementModel>::empty());
            }
            return Ok((Vec::new(), related));
        }
        let requirements = self.otx_signatures(lock, otx, base_signature, segments.as_slice())?;
        Ok((requirements, related))
    }

    /// The lock's validation plan: the signatures it must check and the
    /// actions that concern it.
    #[verifier::rlimit(40)]
    pub fn plan_lock_validation(&self) -> (res: Result<LockValidationPlan, CoreError>)
        requires
            self.wf(),
        ensures
            match self.spec_lock_plan() {
                Ok(p) => res matches Ok(v) && v@ == p,
                Err(e) => res == Err::<LockValidationPlan, CoreError>(e),
            },
    {
        let lock = self.script_context.current_lock_hash()?;
        let lock_inputs = self.script_context.current_lock_inputs()?;
        match &self.invalid_run {
            Some(run) => if run_reaches(run, lock_inputs, &[]) {
                return Err(run.error);
            },
            None => {},
        }
        let tr = self.tx_level_requirement(lock, lock_inputs)?;
        let tx_actions = self.tx_level_lock_actions(lock)?;
        let mut otx_reqs: Vec<SigningRequirement> = Vec::new();
        let mut otx_acts: Vec<RelatedAction> = Vec::new();
        proof {
            assert(spec_requirement_views(otx_reqs@) =~= Seq::<RequirementModel>::empty());
            assert(spec_related_views(otx_acts@) =~= Seq::<RelatedActionModel>::empty());
        }
        match &self.otx_layouts {
            OtxLayouts::Complete(layout) => {
                let n = layout.otx_entries.len();
                let mut j: usize = 0;
                while j < n
                    invariant
                        self.wf(),
                        self.spec_script_context().spec_script() == CurrentScript::InputLock(lock),
                        self.spec_script_context().spec_lock_inputs() == Some(lock_inputs@),
                        self.spec_tx_requirement(lock@, lock_inputs@) is Ok,
                        spec_lock_tx_actions(self.spec_script_context(), self.spec_summaries(), lock@) is Ok,
                        self.spec_layouts() == Some(layout@),
                        n == layout@.entries.len(),
                        0 <= j <= n,
                        self.spec_otx_lock_contributions(lock@, lock_inputs@, j as nat) == Ok::<
                            (Seq<RequirementModel>, Seq<RelatedActionModel>),
                            CoreError,
                        >((spec_requirement_views(otx_reqs@), spec_related_views(otx_acts@))),
                    decreases n - j,
                {
                    let entry = &layout.otx_entries[j];
                    proof {
                        assert(layout@.entries[j as int] == (entry.layout@, entry.witness@));
                    }
                    let (mut r, mut a) = match self.otx_requirement(lock, lock_inputs, j, entry) {
                        Ok(c) => c,
                        Err(e) => {
                            proof {
                                lemma_otx_lock_contributions_err_stays(self, lock@, lock_inputs@, (j + 1) as nat, n as nat);
                            }
                            return Err(e);
                        },
                    };
                    let ghost pr = spec_requirement_views(otx_reqs@);
                    let ghost pa = spec_related_views(otx_acts@);
                    let ghost rv = spec_requirement_views(r@);
                    let ghost av = spec_related_views(a@);
                    otx_reqs.append(&mut r);
                    otx_acts.append(&mut a);
                    proof {
                        assert(spec_requirement_views(otx_reqs@) =~= pr + rv);
                        assert(spec_related_views(otx_acts@) =~= pa + av);
                    }
                    j = j + 1;
                }
                if otx_reqs.len() != 0 && tr.is_none() && any_outside_range(lock_inputs, layout.input_range) {
                    return Err(CoreError::MissingLockGroupCoverage);
                }
            },
            OtxLayouts::Absent => {},
        }
        let mut required_signatures: Vec<SigningRequirement> = Vec::new();
        let ghost tr_view = match &tr {
            Some(r) => seq![r@],
            None => Seq::<RequirementModel>::empty(),
        };
        match tr {
            Some(r) => required_signatures.push(r),
            None => {},
        }
        proof {
            assert(spec_requirement_views(required_signatures@) =~= tr_view);
        }
        let ghost orv = spec_requirement_views(otx_reqs@);
        required_signatures.append(&mut otx_reqs);
        let mut related_actions = tx_actions;
        let ghost tav = spec_related_views(related_actions@);
        let ghost oav = spec_related_views(otx_acts@);
        related_actions.append(&mut otx_acts);
        proof {
            assert(spec_requirement_views(required_signatures@) =~= tr_view + orv);
            assert(spec_related_views(related_actions@) =~= tav + oav);
        }
        Ok(LockValidationPlan { lock_script_hash: lock, required_signatures, related_actions })
    }
}

/// An error among the first OTXs' lock contributions is the error of all of them.
pub proof fn lemma_otx_lock_contributions_err_stays(c: &CobuildContext, lock: Seq<u8>, lock_inputs: Seq<usize>, k: nat, n: nat)
    requires
        k <= n,
        c.spec_otx_lock_contributions(lock, lock_inputs, k) is Err,
    ensures
        c.spec_otx_lock_contributions(lock, lock_inputs, n) == c.spec_otx_lock_contributions(lock, lock_inputs, k),
    decreases n - k,
{
    if k < n {
        lemma_otx_lock_contributions_err_stays(c, lock, lock_inputs, k, (n - 1) as nat);
    }
}


// ---------------------------------------------------------------------------
// Type validation planning
// ---------------------------------------------------------------------------

/// The action targets the type `h` as an input or an output type.
pub open spec fn spec_targets_type(a: ActionModel, h: Seq<u8>) -> bool {
    (a.script_role == ScriptRole::InputType || a.script_role == ScriptRole::OutputType) && a.script_hash == h
}

/// The actions that target the type `h`, in order.
pub open spec fn spec_type_actions(all: Seq<ActionModel>, h: Seq<u8>) -> Seq<ActionModel> {
    all.filter(|a: ActionModel| spec_targets_type(a, h))
}

/// Cells of the type lie among the OTX's inputs or outputs.
pub open spec fn spec_mentions_type(r: OtxTypeRelation) -> bool {
    r.input_type_in_base || r.input_type_in_append || r.output_type_in_base || r.output_type_in_append
}

/// The scope of a type action from an OTX with relation `r`.
pub open spec fn spec_type_scope(r: OtxTypeRelation) -> TypeActionOtxScope {
    if spec_mentions_type(r) {
        TypeActionOtxScope::InOtxScope(r)
    } else {
        TypeActionOtxScope::TargetOnly
    }
}

/// Where the current type's cells lie within an OTX.
pub open spec fn spec_type_relation(sc: CurrentScriptContext, l: OtxLayoutModel, o: OtxModel) -> Result<OtxTypeRelation, CoreError> {
    match sc.spec_type_cells() {
        None => Err(CoreError::InvalidContextInput),
        Some((i, out)) => match spec_covered_from(out, l.base_outputs, o.base_output_masks, 0) {
            Err(e) => Err(e),
            Ok(covered) => Ok(
                OtxTypeRelation {
                    input_type_in_base: spec_any_in(i, l.base_inputs),
                    input_type_in_append: spec_any_in(i, l.append_inputs),
                    output_type_in_base: spec_any_in(out, l.base_outputs),
                    output_type_in_base_covered: covered,
                    output_type_in_append: spec_any_in(out, l.append_outputs),
                },
            ),
        },
    }
}

/// Type actions tagged with one origin and one scope.
pub open spec fn spec_with_scope(origin: ActionOrigin, scope: TypeActionOtxScope, actions: Seq<ActionModel>) -> Seq<TypeRelatedActionModel> {
    actions.map_values(|a: ActionModel| TypeRelatedActionModel { action: RelatedActionModel { origin, action: a }, otx_type_scope: scope })
}

/// The views of type-related actions.
pub open spec fn spec_type_related_views(v: Seq<TypeRelatedAction>) -> Seq<TypeRelatedActionModel> {
    v.map_values(|r: TypeRelatedAction| r@)
}

impl CobuildContext {
    /// What OTX `j` adds to the type's plan: its type actions, when the OTX
    /// holds cells of the type or has actions for it.
    #[verifier::opaque]
    pub open spec fn spec_otx_type_contribution(&self, h: Seq<u8>, j: int) -> Result<Seq<TypeRelatedActionModel>, CoreError> {
        let sc = self.spec_script_context();
        let (l, o) = self.spec_layouts()->Some_0.entries[j];
        match spec_type_relation(sc, l, o) {
            Err(e) => Err(e),
            Ok(rel) => match spec_message_actions(o.message) {
                Err(e) => Err(e),
                Ok(all) => {
                    let ta = spec_type_actions(all, h);
                    if !spec_mentions_type(rel) && ta.len() == 0 {
                        Ok(Seq::empty())
                    } else if !spec_targets_ok(sc, all) {
                        Err(CoreError::InvalidMessageTarget)
                    } else {
                        Ok(spec_with_scope(spec_otx_origin(j, l), spec_type_scope(rel), ta))
                    }
                },
            },
        }
    }

    /// What the first `n` OTXs add to the type's plan.
    pub open spec fn spec_otx_type_contributions(&self, h: Seq<u8>, n: nat) -> Result<Seq<TypeRelatedActionModel>, CoreError>
        decreases n,
    {
        if n == 0 {
            Ok(Seq::empty())
        } else {
            match self.spec_otx_type_contributions(h, (n - 1) as nat) {
                Err(e) => Err(e),
                Ok(p) => match self.spec_otx_type_contribution(h, n - 1) {
                    Err(e) => Err(e),
                    Ok(a) => Ok(p + a),
                },
            }
        }
    }

    /// What the transaction-level message adds to the type's plan: its type
    /// actions, when cells of the type lie outside the OTX run or it has
    /// actions for the type. Duplicate `SighashAll` witnesses do not concern a
    /// type no cell of the transaction carries.
    pub open spec fn spec_tx_type_contribution(&self, h: Seq<u8>) -> Result<Seq<TypeRelatedActionModel>, CoreError> {
        let sc = self.spec_script_context();
        match spec_unique_sighash_all(self.spec_summaries()) {
            Err(e) => match sc.spec_type_cells() {
                Some((i, o)) => if i.len() == 0 && o.len() == 0 {
                    Ok(Seq::empty())
                } else {
                    Err(e)
                },
                None => Err(e),
            },
            Ok(None) => Ok(Seq::empty()),
            Ok(Some((wi, m))) => {
                let scope_related = match sc.spec_type_cells() {
                    None => Err(CoreError::InvalidContextInput),
                    Some((i, o)) => match self.spec_layouts() {
                        Some(b) => Ok(spec_any_outside(i, b.input_range) || spec_any_outside(o, b.output_range)),
                        None => Ok(i.len() > 0 || o.len() > 0),
                    },
                };
                match scope_related {
                    Err(e) => Err(e),
                    Ok(related) => match spec_message_actions(m) {
                        Err(e) => Err(e),
                        Ok(all) => {
                            let ta = spec_type_actions(all, h);
                            if !related && ta.len() == 0 {
                                Ok(Seq::empty())
                            } else if !spec_targets_ok(sc, all) {
                                Err(CoreError::InvalidMessageTarget)
                            } else {
                                Ok(spec_with_scope(ActionOrigin::TxLevel { witness_index: wi as usize }, TypeActionOtxScope::TargetOnly, ta))
                            }
                        },
                    },
                }
            },
        }
    }

    /// The type's validation plan: each OTX's type actions, then the
    /// transaction-level ones. A malformed OTX run that reaches a cell of the
    /// type fails it with the run's error.
    pub open spec fn spec_type_plan(&self) -> Result<TypePlanModel, CoreError> {
        match self.spec_script_context().spec_script() {
            CurrentScript::InputLock(_) => Err(CoreError::InvalidContextInput),
            CurrentScript::Type(type_hash) => {
                let h = type_hash@;
                let reached = match self.spec_script_context().spec_type_cells() {
                    Some((i, o)) => self.spec_invalid_run() is Some && spec_run_reaches(self.spec_invalid_run()->Some_0, i, o),
                    None => false,
                };
                let otx_part = match self.spec_layouts() {
                    None => Ok(Seq::empty()),
                    Some(b) => self.spec_otx_type_contributions(h, b.entries.len()),
                };
                if reached {
                    Err(self.spec_invalid_run()->Some_0.error)
                } else {
                    match otx_part {
                        Err(e) => Err(e),
                        Ok(oa) => match self.spec_tx_type_contribution(h) {
                            Err(e) => Err(e),
                            Ok(ta) => Ok(TypePlanModel { type_script_hash: h, related_actions: oa + ta }),
                        },
                    }
                }
            },
        }
    }
}

/// Keeps, in order, the actions that target the type `h`.
pub fn type_actions_from_actions(actions: &Vec<ActionView>, h: &[u8; 32]) -> (res: Vec<ActionView>)
    ensures
        spec_action_views(res@) == spec_type_actions(spec_action_views(actions@), h@),
{
    let ghost all = spec_action_views(actions@);
    let mut out: Vec<ActionView> = Vec::new();
    let mut i: usize = 0;
    while i < actions.len()
        invariant
            all == spec_action_views(actions@),
            0 <= i <= actions@.len(),
            spec_action_views(out@) == spec_type_actions(all.take(i as int), h@),
        decreases actions@.len() - i,
    {
        let a = &actions[i];
        let ghost prev = out@;
        let role_ok = match a.script_role {
            ScriptRole::InputType | ScriptRole::OutputType => true,
            ScriptRole::InputLock => false,
        };
        let keep = role_ok && crate::reader::hash32_eq(&a.script_hash, h);
        if keep {
            out.push(a.duplicate());
        }
        proof {
            assert(all.take(i + 1).drop_last() =~= all.take(i as int));
            assert(all.take(i + 1).last() == a@);
            assert(spec_targets_type(a@, h@) == keep);
            reveal(Seq::filter);
            if keep {
                assert(spec_action_views(out@) =~= spec_action_views(prev).push(a@));
            } else {
                assert(spec_action_views(out@) =~= spec_action_views(prev));
            }
        }
        i = i + 1;
    }
    proof {
        assert(all.take(actions@.len() as int) =~= all);
    }
    out
}

fn tag_type_actions(origin: ActionOrigin, scope: TypeActionOtxScope, actions: Vec<ActionView>) -> (res: Vec<TypeRelatedAction>)
    ensures
        spec_type_related_views(res@) == spec_with_scope(origin, scope, spec_action_views(actions@)),
{
    let mut out: Vec<TypeRelatedAction> = Vec::new();
    let mut i: usize = 0;
    while i < actions.len()
        invariant
            0 <= i <= actions@.len(),
            spec_type_related_views(out@) == spec_with_scope(origin, scope, spec_action_views(actions@)).take(i as int),
        decreases actions@.len() - i,
    {
        let ghost prev = out@;
        let item = TypeRelatedAction { action: RelatedAction { origin, action: actions[i].duplicate() }, otx_type_scope: scope };
        let ghost iv = item@;
        out.push(item);
        proof {
            let all = spec_with_scope(origin, scope, spec_action_views(actions@));
            assert(iv == all[i as int]);
            assert(spec_type_related_views(out@) =~= spec_type_related_views(prev).push(iv));
            assert(all.take(i + 1) =~= all.take(i as int).push(all[i as int]));
        }
        i = i + 1;
    }
    proof {
        assert(spec_with_scope(origin, scope, spec_action_views(actions@)).take(actions@.len() as int) =~= spec_with_scope(
            origin,
            scope,
            spec_action_views(actions@),
        ));
    }
    out
}

/// How a type action relates to its OTX: in scope when the OTX holds a cell of
/// the type, a target only otherwise.
pub fn type_action_otx_scope(relation: OtxTypeRelation) -> (res: TypeActionOtxScope)
    ensures
        res == spec_type_scope(relation),
{
    if relation.input_type_in_base || relation.input_type_in_append || relation.output_type_in_base
        || relation.output_type_in_append {
        TypeActionOtxScope::InOtxScope(relation)
    } else {
        TypeActionOtxScope::TargetOnly
    }
}

/// An error among the first OTXs' type contributions is the error of all of them.
pub proof fn lemma_otx_type_contributions_err_stays(c: &CobuildContext, h: Seq<u8>, k: nat, n: nat)
    requires
        k <= n,
        c.spec_otx_type_contributions(h, k) is Err,
    ensures
        c.spec_otx_type_contributions(h, n) == c.spec_otx_type_contributions(h, k),
    decreases n - k,
{
    if k < n {
        lemma_otx_type_contributions_err_stays(c, h, k, (n - 1) as nat);
    }
}

impl CobuildContext {
    fn validated_targets(&self, all: &Vec<ActionView>) -> (res: Result<(), CoreError>)
        ensures
            spec_targets_ok(self.spec_script_context(), spec_action_views(all@)) ==> res is Ok,
            !spec_targets_ok(self.spec_script_context(), spec_action_views(all@)) ==> res == Err::<(), CoreError>(
                CoreError::InvalidMessageTarget,
            ),
    {
        let ghost views = spec_action_views(all@);
        match self.script_context.validate_action_targets(all.as_slice()) {
            Ok(()) => {
                proof {
                    assert forall|k: int| 0 <= k < views.len() implies self.spec_script_context().spec_target_listed(
                        (#[trigger] views[k]).script_role,
                        views[k].script_hash,
                    ) by {
                        assert(views[k] == all@[k]@);
                    }
                }
                Ok(())
            },
            Err(e) => {
                proof {
                    let k = choose|k: int|
                        0 <= k < all@.len() && !self.spec_script_context().spec_target_listed(
                            (#[trigger] all@[k]).script_role,
                            all@[k].script_hash@,
                        );
                    assert(views[k] == all@[k]@);
                }
                Err(e)
            },
        }
    }

    fn otx_type_contribution(&self, h: [u8; 32], j: usize, otx: &OtxLayoutEntry) -> (res: Result<Vec<TypeRelatedAction>, CoreError>)
        requires
            self.spec_layouts() matches Some(b) && 0 <= j < b.entries.len() && b.entries[j as int] == (otx.layout@, otx.witness@),
            spec_entry_bounded((otx.layout@, otx.witness@)),
        ensures
            match self.spec_otx_type_contribution(h@, j as int) {
                Ok(v) => res matches Ok(r) && spec_type_related_views(r@) == v,
                Err(e) => res == Err::<Vec<TypeRelatedAction>, CoreError>(e),
            },
    {
        reveal(CobuildContext::spec_otx_type_contribution);
        let relation = self.script_context.type_relation_for_otx(otx)?;
        let all = message_actions(&otx.witness.message)?;
        let actions = type_actions_from_actions(&all, &h);
        let scope_related = relation.input_type_in_base || relation.input_type_in_append || relation.output_type_in_base
            || relation.output_type_in_append;
        if !scope_related && actions.len() == 0 {
            proof {
                assert(spec_type_related_views(Seq::<TypeRelatedAction>::empty()) =~= Seq::<TypeRelatedActionModel>::empty());
            }
            return Ok(Vec::new());
        }
        self.validated_targets(&all)?;
        Ok(tag_type_actions(otx_origin(j, otx), type_action_otx_scope(relation), actions))
    }

    fn tx_type_contribution(&self, h: [u8; 32]) -> (res: Result<Vec<TypeRelatedAction>, CoreError>)
        requires
            self.wf(),
        ensures
            match self.spec_tx_type_contribution(h@) {
                Ok(v) => res matches Ok(r) && spec_type_related_views(r@) == v,
                Err(e) => res == Err::<Vec<TypeRelatedAction>, CoreError>(e),
            },
    {
        let (witness_index, message) = match self.witnesses.unique_sighash_all_message_with_index() {
            Ok(Some(found)) => found,
            Ok(None) => {
                proof {
                    assert(spec_type_related_views(Seq::<TypeRelatedAction>::empty()) =~= Seq::<TypeRelatedActionModel>::empty());
                }
                return Ok(Vec::new());
            },
            Err(e) => {
                match self.script_context.current_type_present() {
                    Ok(false) => {
                        proof {
                            assert(spec_type_related_views(Seq::<TypeRelatedAction>::empty()) =~= Seq::<TypeRelatedActionModel>::empty());
                        }
                        return Ok(Vec::new());
                    },
                    _ => return Err(e),
                }
            },
        };
        let scope_related = match &self.otx_layouts {
            OtxLayouts::Complete(layout) => self.script_context.current_type_outside_ranges(layout.input_range, layout.output_range)?,
            OtxLayouts::Absent => self.script_context.current_type_present()?,
        };
        let all = message_actions(&message)?;
        let actions = type_actions_from_actions(&all, &h);
        if !scope_related && actions.len() == 0 {
            proof {
                assert(spec_type_related_views(Seq::<TypeRelatedAction>::empty()) =~= Seq::<TypeRelatedActionModel>::empty());
            }
            return Ok(Vec::new());
        }
        self.validated_targets(&all)?;
        Ok(tag_type_actions(ActionOrigin::TxLevel { witness_index }, TypeActionOtxScope::TargetOnly, actions))
    }

    /// The type's validation plan: the actions that concern it, with how its
    /// cells relate to each OTX.
    pub fn plan_type_validation(&self) -> (res: Result<TypeValidationPlan, CoreError>)
        requires
            self.wf(),
        ensures
            match self.spec_type_plan() {
                Ok(p) => res matches Ok(v) && v@ == p,
                Err(e) => res == Err::<TypeValidationPlan, CoreError>(e),
            },
    {
        let h = self.script_context.current_type_hash()?;
        match &self.invalid_run {
            Some(run) => match (self.script_context.type_input_indices(), self.script_context.type_output_indices()) {
                (Ok(inputs), Ok(outputs)) => if run_reaches(run, inputs, outputs) {
                    return Err(run.error);
                },
                _ => {},
            },
            None => {},
        }
        let mut related: Vec<TypeRelatedAction> = Vec::new();
        proof {
            assert(spec_type_related_views(related@) =~= Seq::<TypeRelatedActionModel>::empty());
        }
        match &self.otx_layouts {
            OtxLayouts::Complete(layout) => {
                let n = layout.otx_entries.len();
                let mut j: usize = 0;
                while j < n
                    invariant
                        self.wf(),
                        self.spec_script_context().spec_script() == CurrentScript::Type(h),
                        self.spec_layouts() == Some(layout@),
                        n == layout@.entries.len(),
                        0 <= j <= n,
                        self.spec_otx_type_contributions(h@, j as nat) == Ok::<Seq<TypeRelatedActionModel>, CoreError>(
                            spec_type_related_views(related@),
                        ),
                    decreases n - j,
                {
                    let entry = &layout.otx_entries[j];
                    proof {
                        assert(layout@.entries[j as int] == (entry.layout@, entry.witness@));
                    }
                    let mut more = match self.otx_type_contribution(h, j, entry) {
                        Ok(v) => v,
                        Err(e) => {
                            proof {
                                lemma_otx_type_contributions_err_stays(self, h@, (j + 1) as nat, n as nat);
                            }
                            return Err(e);
                        },
                    };
                    let ghost pv = spec_type_related_views(related@);
                    let ghost mv = spec_type_related_views(more@);
                    related.append(&mut more);
                    proof {
                        assert(spec_type_related_views(related@) =~= pv + mv);
                    }
                    j = j + 1;
                }
            },
            OtxLayouts::Absent => {},
        }
        let ghost ov = spec_type_related_views(related@);
        let mut tx_part = self.tx_type_contribution(h)?;
        let ghost tv = spec_type_related_views(tx_part@);
        related.append(&mut tx_part);
        proof {
            assert(spec_type_related_views(related@) =~= ov + tv);
        }
        Ok(TypeValidationPlan { type_script_hash: h, related_actions: related })
    }
}


// ---------------------------------------------------------------------------
// Laws of the lock plan
// ---------------------------------------------------------------------------

/// Every append-segment signature is an append signature.
proof fn lemma_segment_requirements_are_append(
    s: InMemorySource,
    lock: Seq<u8>,
    l: OtxLayoutModel,
    o: OtxModel,
    base_hash: Seq<u8>,
    segments: Seq<usize>,
    n: nat,
)
    ensures
        spec_segment_requirements(s, lock, l, o, base_hash, segments, n) matches Ok(r) ==> forall|i: int|
            0 <= i < r.len() ==> (#[trigger] r[i]).origin == SignatureOrigin::OtxAppend,
    decreases n,
{
    if n > 0 {
        lemma_segment_requirements_are_append(s, lock, l, o, base_hash, segments, (n - 1) as nat);
    }
}

/// What one OTX adds to a lock plan asks for OTX signatures only.
proof fn lemma_otx_contribution_is_otx(c: &CobuildContext, lock: Seq<u8>, lock_inputs: Seq<usize>, j: int)
    ensures
        c.spec_otx_lock_contribution(lock, lock_inputs, j) matches Ok((r, _a)) ==> forall|i: int|
            0 <= i < r.len() ==> (#[trigger] r[i]).origin != SignatureOrigin::TxLevel,
{
    reveal(CobuildContext::spec_otx_lock_contribution);
    let (l, o) = c.spec_layouts()->Some_0.entries[j];
    let segments = spec_required_segments(lock_inputs, l.append_segments, l.append_segments.len());
    match spec_otx_base_preimage(o, l, c.spec_source()) {
        Ok(bp) => {
            let base_hash = blake2b_personal_digest(OTX_BASE_PERSONAL@, bp);
            lemma_segment_requirements_are_append(c.spec_source(), lock, l, o, base_hash, segments, segments.len());
        },
        Err(_) => {},
    }
}

/// What the first `n` OTXs add to a lock plan asks for OTX signatures only.
proof fn lemma_otx_contributions_are_otx(c: &CobuildContext, lock: Seq<u8>, lock_inputs: Seq<usize>, n: nat)
    ensures
        c.spec_otx_lock_contributions(lock, lock_inputs, n) matches Ok((r, _a)) ==> forall|i: int|
            0 <= i < r.len() ==> (#[trigger] r[i]).origin != SignatureOrigin::TxLevel,
    decreases n,
{
    if n > 0 {
        lemma_otx_contributions_are_otx(c, lock, lock_inputs, (n - 1) as nat);
        lemma_otx_contribution_is_otx(c, lock, lock_inputs, n - 1);
        if let Ok((r, _a)) = c.spec_otx_lock_contributions(lock, lock_inputs, n) {
            let (r1, _a1) = c.spec_otx_lock_contributions(lock, lock_inputs, (n - 1) as nat)->Ok_0;
            let (r2, _a2) = c.spec_otx_lock_contribution(lock, lock_inputs, n - 1)->Ok_0;
            assert(r == r1 + r2);
            assert forall|i: int| 0 <= i < r.len() implies (#[trigger] r[i]).origin != SignatureOrigin::TxLevel by {
                if i < r1.len() {
                    assert(r[i] == r1[i]);
                } else {
                    assert(r[i] == r2[i - r1.len()]);
                }
            }
        }
    }
}

/// The plan of a lock asks for a transaction-level signature exactly when the
/// transaction carries Cobuild witnesses, the lock guards an input that no
/// OTX covers and the witness leading the lock's group is a transaction-level
/// carrier; that signature comes first, and every other signature of the plan
/// is an OTX signature.
pub proof fn lock_plan_tx_signature_comes_first(c: &CobuildContext)
    requires
        c.wf(),
        c.spec_lock_plan() is Ok,
    ensures
        ({
            let p = c.spec_lock_plan()->Ok_0;
            let lock_inputs = c.spec_script_context().spec_lock_inputs()->Some_0;
            &&& (p.required_signatures.len() > 0 && p.required_signatures[0].origin == SignatureOrigin::TxLevel)
                <==> (spec_any_cobuild(c.spec_summaries()) && spec_needs_tx_signature(lock_inputs, c.spec_layouts())
                    && spec_leads_with_carrier(c.spec_summaries(), lock_inputs))
            &&& forall|i: int| 1 <= i < p.required_signatures.len() ==> (#[trigger] p.required_signatures[i]).origin != SignatureOrigin::TxLevel
        }),
{
    let sc = c.spec_script_context();
    let lock = sc.spec_script()->InputLock_0@;
    let lock_inputs = sc.spec_lock_inputs()->Some_0;
    let tr = c.spec_tx_requirement(lock, lock_inputs)->Ok_0;
    let p = c.spec_lock_plan()->Ok_0;
    let otx_reqs = match c.spec_layouts() {
        None => Seq::<RequirementModel>::empty(),
        Some(b) => {
            lemma_otx_contributions_are_otx(c, lock, lock_inputs, b.entries.len());
            c.spec_otx_lock_contributions(lock, lock_inputs, b.entries.len())->Ok_0.0
        },
    };
    let first: Seq<RequirementModel> = match tr {
        Some(r) => seq![r],
        None => Seq::empty(),
    };
    assert(p.required_signatures == first + otx_reqs);
    assert forall|i: int| 0 <= i < otx_reqs.len() implies (#[trigger] otx_reqs[i]).origin != SignatureOrigin::TxLevel by {}
    assert forall|i: int| 1 <= i < p.required_signatures.len() implies (#[trigger] p.required_signatures[i]).origin != SignatureOrigin::TxLevel by {
        if tr is Some {
            assert(p.required_signatures[i] == otx_reqs[i - 1]);
        } else {
            assert(p.required_signatures[i] == otx_reqs[i]);
        }
    }
    if tr is None && p.required_signatures.len() > 0 {
        assert(p.required_signatures[0] == otx_reqs[0]);
    }
}

/// A plan that asks for no transaction-level signature leaves no input of the
/// lock uncovered: whenever it asks for OTX signatures only, every input of
/// the lock lies in the OTX run.
pub proof fn lock_plan_covers_lock_group(c: &CobuildContext)
    requires
        c.wf(),
        c.spec_lock_plan() is Ok,
    ensures
        ({
            let p = c.spec_lock_plan()->Ok_0;
            let lock_inputs = c.spec_script_context().spec_lock_inputs()->Some_0;
            (p.required_signatures.len() > 0 && forall|i: int|
                0 <= i < p.required_signatures.len() ==> (#[trigger] p.required_signatures[i]).origin != SignatureOrigin::TxLevel)
                ==> (c.spec_layouts() matches Some(b) && !spec_any_outside(lock_inputs, b.input_range))
        }),
{
    let sc = c.spec_script_context();
    let lock = sc.spec_script()->InputLock_0@;
    let lock_inputs = sc.spec_lock_inputs()->Some_0;
    let tr = c.spec_tx_requirement(lock, lock_inputs)->Ok_0;
    let p = c.spec_lock_plan()->Ok_0;
    if tr is Some {
        assert(p.required_signatures[0] == tr->Some_0);
    }
}

/// No append segment is required of a lock that guards no input.
proof fn lemma_no_segments_without_inputs(segments: Seq<OtxAppendSegmentLayout>, n: nat)
    ensures
        spec_required_segments(Seq::<usize>::empty(), segments, n).len() == 0,
    decreases n,
{
    if n > 0 {
        lemma_no_segments_without_inputs(segments, (n - 1) as nat);
    }
}

/// The first `n` OTXs ask no signature of a lock that guards no input.
proof fn lemma_no_otx_signatures_without_inputs(c: &CobuildContext, lock: Seq<u8>, n: nat)
    ensures
        c.spec_otx_lock_contributions(lock, Seq::<usize>::empty(), n) matches Ok((r, _a)) ==> r.len() == 0,
    decreases n,
{
    if n > 0 {
        lemma_no_otx_signatures_without_inputs(c, lock, (n - 1) as nat);
        reveal(CobuildContext::spec_otx_lock_contribution);
        let (l, _o) = c.spec_layouts()->Some_0.entries[n - 1];
        lemma_no_segments_without_inputs(l.append_segments, l.append_segments.len());
    }
}

/// A lock that guards no input of the transaction has nothing to sign: its
/// plan, when there is one, requires no signature.
pub proof fn absent_lock_plan_requires_no_signature(c: &CobuildContext)
    requires
        c.wf(),
        c.spec_lock_plan() is Ok,
        c.spec_script_context().spec_lock_inputs() == Some(Seq::<usize>::empty()),
    ensures
        c.spec_lock_plan()->Ok_0.required_signatures.len() == 0,
{
    let sc = c.spec_script_context();
    let lock = sc.spec_script()->InputLock_0@;
    match c.spec_layouts() {
        Some(b) => lemma_no_otx_signatures_without_inputs(c, lock, b.entries.len()),
        None => {},
    }
}


/// Related actions that all target the lock `lock` with the input-lock role.
pub open spec fn spec_all_target_lock(acts: Seq<RelatedActionModel>, lock: Seq<u8>) -> bool {
    forall|i: int|
        0 <= i < acts.len() ==> (#[trigger] acts[i]).action.script_role == ScriptRole::InputLock && acts[i].action.script_hash
            == lock
}

/// The actions a filter keeps, tagged with an origin, target the lock.
proof fn lemma_filtered_actions_target_lock(origin: ActionOrigin, all: Seq<ActionModel>, lock: Seq<u8>)
    ensures
        spec_all_target_lock(spec_with_origin(origin, spec_filter_actions(all, ScriptRole::InputLock, lock)), lock),
{
    let pred = |a: ActionModel| spec_action_matches(a, ScriptRole::InputLock, lock);
    let la = spec_filter_actions(all, ScriptRole::InputLock, lock);
    let acts = spec_with_origin(origin, la);
    assert forall|i: int| 0 <= i < acts.len() implies (#[trigger] acts[i]).action.script_role == ScriptRole::InputLock
        && acts[i].action.script_hash == lock by {
        assert(acts[i].action == la[i]);
        all.lemma_filter_pred(pred, i);
        assert(pred(la[i]));
    }
}

/// What the first `n` OTXs add to a lock plan relates actions that target the lock.
proof fn lemma_otx_contributions_target_lock(c: &CobuildContext, lock: Seq<u8>, lock_inputs: Seq<usize>, n: nat)
    ensures
        c.spec_otx_lock_contributions(lock, lock_inputs, n) matches Ok((_r, a)) ==> spec_all_target_lock(a, lock),
    decreases n,
{
    if n > 0 {
        lemma_otx_contributions_target_lock(c, lock, lock_inputs, (n - 1) as nat);
        reveal(CobuildContext::spec_otx_lock_contribution);
        let (l, o) = c.spec_layouts()->Some_0.entries[n - 1];
        if let Ok(all) = spec_message_actions(o.message) {
            lemma_filtered_actions_target_lock(spec_otx_origin(n - 1, l), all, lock);
        }
        if let Ok((_r, a)) = c.spec_otx_lock_contributions(lock, lock_inputs, n) {
            let (_r1, a1) = c.spec_otx_lock_contributions(lock, lock_inputs, (n - 1) as nat)->Ok_0;
            let (_r2, a2) = c.spec_otx_lock_contribution(lock, lock_inputs, n - 1)->Ok_0;
            assert(a == a1 + a2);
            assert forall|i: int| 0 <= i < a.len() implies (#[trigger] a[i]).action.script_role == ScriptRole::InputLock
                && a[i].action.script_hash == lock by {
                if i < a1.len() {
                    assert(a[i] == a1[i]);
                } else {
                    assert(a[i] == a2[i - a1.len()]);
                }
            }
        }
    }
}

/// Every action a lock's plan relates targets that lock: its role is input
/// lock and its script hash is the plan's lock script hash.
pub proof fn lock_plan_actions_target_the_lock(c: &CobuildContext)
    requires
        c.wf(),
        c.spec_lock_plan() is Ok,
    ensures
        spec_all_target_lock(c.spec_lock_plan()->Ok_0.related_actions, c.spec_lock_plan()->Ok_0.lock_script_hash),
{
    let sc = c.spec_script_context();
    let lock = sc.spec_script()->InputLock_0@;
    let lock_inputs = sc.spec_lock_inputs()->Some_0;
    let p = c.spec_lock_plan()->Ok_0;
    let ta = spec_lock_tx_actions(sc, c.spec_summaries(), lock)->Ok_0;
    if let Ok(Some((wi, m))) = spec_unique_sighash_all(c.spec_summaries()) {
        if let Ok(all) = spec_message_actions(m) {
            lemma_filtered_actions_target_lock(ActionOrigin::TxLevel { witness_index: wi as usize }, all, lock);
        }
    }
    let otx_acts = match c.spec_layouts() {
        None => Seq::<RelatedActionModel>::empty(),
        Some(b) => {
            lemma_otx_contributions_target_lock(c, lock, lock_inputs, b.entries.len());
            c.spec_otx_lock_contributions(lock, lock_inputs, b.entries.len())->Ok_0.1
        },
    };
    assert(p.related_actions == ta + otx_acts);
    assert forall|i: int| 0 <= i < p.related_actions.len() implies (#[trigger] p.related_actions[i]).action.script_role
        == ScriptRole::InputLock && p.related_actions[i].action.script_hash == lock by {
        if i < ta.len() {
            assert(p.related_actions[i] == ta[i]);
        } else {
            assert(p.related_actions[i] == otx_acts[i - ta.len()]);
        }
    }
}


/// Type-related actions that all target the type `h`.
pub open spec fn spec_all_target_type(acts: Seq<TypeRelatedActionModel>, h: Seq<u8>) -> bool {
    forall|i: int| 0 <= i < acts.len() ==> spec_targets_type((#[trigger] acts[i]).action.action, h)
}

/// The type actions of a message, tagged with an origin and scope, target the type.
proof fn lemma_type_actions_target_type(origin: ActionOrigin, scope: TypeActionOtxScope, all: Seq<ActionModel>, h: Seq<u8>)
    ensures
        spec_all_target_type(spec_with_scope(origin, scope, spec_type_actions(all, h)), h),
{
    let pred = |a: ActionModel| spec_targets_type(a, h);
    let ta = spec_type_actions(all, h);
    let acts = spec_with_scope(origin, scope, ta);
    assert forall|i: int| 0 <= i < acts.len() implies spec_targets_type((#[trigger] acts[i]).action.action, h) by {
        assert(acts[i].action.action == ta[i]);
        all.lemma_filter_pred(pred, i);
    }
}

/// What the first `n` OTXs add to a type plan relates actions that target the type.
proof fn lemma_otx_type_contributions_target_type(c: &CobuildContext, h: Seq<u8>, n: nat)
    ensures
        c.spec_otx_type_contributions(h, n) matches Ok(a) ==> spec_all_target_type(a, h),
    decreases n,
{
    if n > 0 {
        lemma_otx_type_contributions_target_type(c, h, (n - 1) as nat);
        reveal(CobuildContext::spec_otx_type_contribution);
        let sc = c.spec_script_context();
        let (l, o) = c.spec_layouts()->Some_0.entries[n - 1];
        if let Ok(rel) = spec_type_relation(sc, l, o) {
            if let Ok(all) = spec_message_actions(o.message) {
                lemma_type_actions_target_type(spec_otx_origin(n - 1, l), spec_type_scope(rel), all, h);
            }
        }
        if let Ok(a) = c.spec_otx_type_contributions(h, n) {
            let a1 = c.spec_otx_type_contributions(h, (n - 1) as nat)->Ok_0;
            let a2 = c.spec_otx_type_contribution(h, n - 1)->Ok_0;
            assert(a == a1 + a2);
            assert forall|i: int| 0 <= i < a.len() implies spec_targets_type((#[trigger] a[i]).action.action, h) by {
                if i < a1.len() {
                    assert(a[i] == a1[i]);
                } else {
                    assert(a[i] == a2[i - a1.len()]);
                }
            }
        }
    }
}

/// Every action a type's plan relates targets that type: its role is input
/// type or output type and its script hash is the plan's type script hash.
pub proof fn type_plan_actions_target_the_type(c: &CobuildContext)
    requires
        c.wf(),
        c.spec_type_plan() is Ok,
    ensures
        spec_all_target_type(c.spec_type_plan()->Ok_0.related_actions, c.spec_type_plan()->Ok_0.type_script_hash),
{
    let sc = c.spec_script_context();
    let h = sc.spec_script()->Type_0@;
    let p = c.spec_type_plan()->Ok_0;
    let oa = match c.spec_layouts() {
        None => Seq::<TypeRelatedActionModel>::empty(),
        Some(b) => {
            lemma_otx_type_contributions_target_type(c, h, b.entries.len());
            c.spec_otx_type_contributions(h, b.entries.len())->Ok_0
        },
    };
    let ta = c.spec_tx_type_contribution(h)->Ok_0;
    if let Ok(Some((wi, m))) = spec_unique_sighash_all(c.spec_summaries()) {
        if let Ok(all) = spec_message_actions(m) {
            lemma_type_actions_target_type(ActionOrigin::TxLevel { witness_index: wi as usize }, TypeActionOtxScope::TargetOnly, all, h);
        }
    }
    assert(p.related_actions == oa + ta);
    assert forall|i: int| 0 <= i < p.related_actions.len() implies spec_targets_type((#[trigger] p.related_actions[i]).action.action, h) by {
        if i < oa.len() {
            assert(p.related_actions[i] == oa[i]);
        } else {
            assert(p.related_actions[i] == ta[i - oa.len()]);
        }
    }
}


/// A found action is the one its reference names: its origin and its
/// position in the message give back the reference it was looked up by.
pub proof fn found_action_has_the_requested_ref(c: &CobuildContext, r: ActionRef)
    requires
        c.spec_find_action(r) is Ok,
    ensures
        ({
            let v = c.spec_find_action(r)->Ok_0;
            v.origin.spec_action_ref(v.action.index as usize) == r
        }),
{
}


// ---------------------------------------------------------------------------
// Finding listed actions again
// ---------------------------------------------------------------------------

impl CobuildContext {
    /// The witness count and the OTX run of a context fit in machine words.
    proof fn lemma_lengths_fit(&self)
        ensures
            self.spec_summaries().len() <= usize::MAX,
            self.spec_layouts() matches Some(b) ==> {
                &&& b.entries.len() <= usize::MAX
                &&& forall|j: int| 0 <= j < b.entries.len() ==> 0 <= (#[trigger] b.entries[j]).0.witness_index <= usize::MAX
            },
    {
        self.witnesses.lemma_len_fits();
        match &self.otx_layouts {
            OtxLayouts::Complete(b) => {
                assert(b.otx_entries.len() == b.otx_entries@.len());
                assert forall|j: int| 0 <= j < b@.entries.len() implies 0 <= (#[trigger] b@.entries[j]).0.witness_index <= usize::MAX by {
                    assert(b@.entries[j].0 == b.otx_entries@[j].layout@);
                }
            },
            _ => {},
        }
    }
}

/// The actions of OTX `j` are each found again by their references.
proof fn lemma_otx_actions_found(c: &CobuildContext, j: int)
    requires
        c.spec_otx_actions(j) is Ok,
    ensures
        forall|k: int| 0 <= k < c.spec_otx_actions(j)->Ok_0.len() ==> {
            let a = #[trigger] c.spec_otx_actions(j)->Ok_0[k];
            c.spec_find_action(a.origin.spec_action_ref(a.action.index as usize)) == Ok::<RelatedActionModel, CoreError>(a)
        },
{
    c.lemma_lengths_fit();
    let b = c.spec_layouts()->Some_0;
    let (l, o) = b.entries[j];
    let acts = spec_message_actions(o.message)->Ok_0;
    assert forall|k: int| 0 <= k < c.spec_otx_actions(j)->Ok_0.len() implies {
        let a = #[trigger] c.spec_otx_actions(j)->Ok_0[k];
        c.spec_find_action(a.origin.spec_action_ref(a.action.index as usize)) == Ok::<RelatedActionModel, CoreError>(a)
    } by {
        lemma_message_action_of_actions(o.message, k);
        assert(0 <= b.entries[j].0.witness_index <= usize::MAX);
    }
}

/// The actions of the first `n` OTXs are each found again by their references.
proof fn lemma_otx_prefix_found(c: &CobuildContext, n: nat)
    requires
        c.spec_layouts() is Some,
        n <= c.spec_layouts()->Some_0.entries.len(),
        c.spec_otx_actions_prefix(n) is Ok,
    ensures
        forall|k: int| 0 <= k < c.spec_otx_actions_prefix(n)->Ok_0.len() ==> {
            let a = #[trigger] c.spec_otx_actions_prefix(n)->Ok_0[k];
            c.spec_find_action(a.origin.spec_action_ref(a.action.index as usize)) == Ok::<RelatedActionModel, CoreError>(a)
        },
    decreases n,
{
    if n > 0 {
        lemma_otx_prefix_found(c, (n - 1) as nat);
        lemma_otx_actions_found(c, n - 1);
        let p = c.spec_otx_actions_prefix((n - 1) as nat)->Ok_0;
        let q = c.spec_otx_actions(n - 1)->Ok_0;
        let all = c.spec_otx_actions_prefix(n)->Ok_0;
        assert(all == p + q);
        assert forall|k: int| 0 <= k < all.len() implies {
            let a = #[trigger] all[k];
            c.spec_find_action(a.origin.spec_action_ref(a.action.index as usize)) == Ok::<RelatedActionModel, CoreError>(a)
        } by {
            if k < p.len() {
                assert(all[k] == p[k]);
            } else {
                assert(all[k] == q[k - p.len()]);
            }
        }
    }
}

/// Every action the context lists is found again by its reference: looking
/// up the reference of any action `all_actions` returns gives that action back.
pub proof fn listed_action_is_found_by_its_ref(c: &CobuildContext, k: int)
    requires
        c.wf(),
        c.spec_all_actions() is Ok,
        0 <= k < c.spec_all_actions()->Ok_0.len(),
    ensures
        ({
            let a = c.spec_all_actions()->Ok_0[k];
            c.spec_find_action(a.origin.spec_action_ref(a.action.index as usize)) == Ok::<RelatedActionModel, CoreError>(a)
        }),
{
    c.lemma_lengths_fit();
    let all = c.spec_all_actions()->Ok_0;
    let tv = match c.spec_tx_level_actions()->Ok_0 {
        Some(v) => v,
        None => Seq::empty(),
    };
    unique_sighash_all_counts_messages(c.spec_summaries());
    if k < tv.len() {
        let (wi, m) = spec_unique_sighash_all(c.spec_summaries())->Ok_0->Some_0;
        assert(all[k] == tv[k]);
        lemma_message_action_of_actions(m, k);
    } else {
        let b = c.spec_layouts()->Some_0;
        lemma_otx_prefix_found(c, b.entries.len());
        assert(all[k] == c.spec_otx_actions_prefix(b.entries.len())->Ok_0[k - tv.len()]);
    }
}


/// A lock whose plan would hold OTX signatures but no transaction-level one,
/// while one of its inputs lies outside the OTX run, is refused: the OTX
/// signatures do not cover the whole lock group.
pub proof fn uncovered_lock_group_is_refused(c: &CobuildContext)
    requires
        c.spec_script_context().spec_script() is InputLock,
        c.spec_invalid_run() is None,
        c.spec_layouts() is Some,
        ({
            let lock = c.spec_script_context().spec_script()->InputLock_0@;
            let lock_inputs = c.spec_script_context().spec_lock_inputs()->Some_0;
            let b = c.spec_layouts()->Some_0;
            &&& c.spec_tx_requirement(lock, lock_inputs) == Ok::<Option<RequirementModel>, CoreError>(None)
            &&& spec_lock_tx_actions(c.spec_script_context(), c.spec_summaries(), lock) is Ok
            &&& c.spec_otx_lock_contributions(lock, lock_inputs, b.entries.len()) matches Ok((reqs, _)) && reqs.len() > 0
            &&& spec_any_outside(lock_inputs, b.input_range)
        }),
    ensures
        c.spec_lock_plan() == Err::<LockPlanModel, CoreError>(CoreError::MissingLockGroupCoverage),
{
}

/// The OTX actions of the first `n` OTXs fail when one of them fails.
proof fn lemma_otx_prefix_fails(c: &CobuildContext, j: int, n: nat)
    requires
        0 <= j < n,
        c.spec_otx_actions(j) is Err,
    ensures
        c.spec_otx_actions_prefix(n) is Err,
    decreases n,
{
    if j < n - 1 {
        lemma_otx_prefix_fails(c, j, (n - 1) as nat);
    }
}

/// All actions fail when a part fails: the transaction-level actions, or the
/// actions of any OTX of the run. So a listing that succeeds had every part
/// succeed, and it is the transaction-level actions followed by each OTX's
/// actions in order.
pub proof fn all_actions_fail_when_a_part_fails(c: &CobuildContext, j: int)
    ensures
        c.spec_tx_level_actions() is Err ==> c.spec_all_actions() is Err,
        (c.spec_layouts() matches Some(b) && 0 <= j < b.entries.len() && c.spec_otx_actions(j) is Err)
            ==> c.spec_all_actions() is Err,
        c.spec_all_actions() matches Ok(v) ==> v == (match c.spec_tx_level_actions()->Ok_0 {
            Some(t) => t,
            None => Seq::empty(),
        }) + match c.spec_layouts() {
            Some(b) => c.spec_otx_actions_prefix(b.entries.len())->Ok_0,
            None => Seq::empty(),
        },
{
    if c.spec_layouts() is Some {
        let b = c.spec_layouts()->Some_0;
        if 0 <= j < b.entries.len() && c.spec_otx_actions(j) is Err {
            lemma_otx_prefix_fails(c, j, b.entries.len());
        }
    }
    if c.spec_all_actions() is Ok && c.spec_layouts() is None {
        let v = c.spec_all_actions()->Ok_0;
        assert(v == v + Seq::<RelatedActionModel>::empty());
    }
}


// ---------------------------------------------------------------------------
// Whether a base output of the type has its type signed
// ---------------------------------------------------------------------------

/// Base output `k` of the range is a cell of the current type, and the OTX's
/// mask selects its type field (bit `4k + 2`).
pub open spec fn spec_signs_type_at(outputs: Seq<usize>, r: Range, mask: Seq<u8>, k: int) -> bool {
    &&& 0 <= k < r.count
    &&& r.start + k <= usize::MAX
    &&& outputs.contains((r.start + k) as usize)
    &&& spec_mask_bit(mask, 4 * k + 2) == Some(true)
}

/// Reading the base outputs from `k` on finds a covered output of the type
/// exactly when one exists at `k` or later.
proof fn lemma_covered_from_finds_any(outputs: Seq<usize>, r: Range, mask: Seq<u8>, k: int)
    requires
        0 <= k,
        spec_covered_from(outputs, r, mask, k) is Ok,
    ensures
        spec_covered_from(outputs, r, mask, k)->Ok_0 <==> exists|q: int| k <= q && #[trigger] spec_signs_type_at(outputs, r, mask, q),
    decreases r.count - k,
{
    if k >= r.count {
        assert forall|q: int| k <= q implies !#[trigger] spec_signs_type_at(outputs, r, mask, q) by {}
    } else if !outputs.contains((r.start + k) as usize) {
        lemma_covered_from_finds_any(outputs, r, mask, k + 1);
        assert(!spec_signs_type_at(outputs, r, mask, k));
        if exists|q: int| k <= q && #[trigger] spec_signs_type_at(outputs, r, mask, q) {
            let q = choose|q: int| k <= q && #[trigger] spec_signs_type_at(outputs, r, mask, q);
            assert(k + 1 <= q);
        }
    } else if spec_mask_bit(mask, k * 4 + 2) == Some(true) {
        assert(4 * k + 2 == k * 4 + 2);
        assert(spec_signs_type_at(outputs, r, mask, k));
    } else {
        lemma_covered_from_finds_any(outputs, r, mask, k + 1);
        assert(4 * k + 2 == k * 4 + 2);
        assert(!spec_signs_type_at(outputs, r, mask, k));
        if exists|q: int| k <= q && #[trigger] spec_signs_type_at(outputs, r, mask, q) {
            let q = choose|q: int| k <= q && #[trigger] spec_signs_type_at(outputs, r, mask, q);
            assert(k + 1 <= q);
        }
    }
}

/// An OTX's base outputs count as covering the type exactly when some base
/// output of the type has its type field selected by the mask; the search
/// does not stop at the first output of the type.
pub proof fn base_output_type_covered_iff_some_output_signs_it(sc: CurrentScriptContext, l: OtxLayoutModel, o: OtxModel)
    requires
        spec_type_relation(sc, l, o) is Ok,
    ensures
        spec_type_relation(sc, l, o)->Ok_0.output_type_in_base_covered <==> exists|q: int|
            #[trigger] spec_signs_type_at(sc.spec_type_cells()->Some_0.1, l.base_outputs, o.base_output_masks, q),
{
    let outputs = sc.spec_type_cells()->Some_0.1;
    lemma_covered_from_finds_any(outputs, l.base_outputs, o.base_output_masks, 0);
    if exists|q: int| #[trigger] spec_signs_type_at(outputs, l.base_outputs, o.base_output_masks, q) {
        let q = choose|q: int| #[trigger] spec_signs_type_at(outputs, l.base_outputs, o.base_output_masks, q);
        assert(0 <= q);
    }
}


// ---------------------------------------------------------------------------
// Append signatures sign their own segment
// ---------------------------------------------------------------------------

/// `r` is the append signature the lock owes segment `j` of an OTX: the
/// lock's one seal among that segment's seals, carried by the OTX witness,
/// over the digest of the append preimage of that segment's own appended
/// ranges, which commits to the OTX's base hash `base_hash`.
#[verifier::opaque]
pub open spec fn spec_signs_own_segment(
    s: InMemorySource,
    lock: Seq<u8>,
    l: OtxLayoutModel,
    o: OtxModel,
    base_hash: Seq<u8>,
    r: RequirementModel,
    j: int,
) -> bool {
    &&& 0 <= j < l.append_segments.len()
    &&& j < o.append_segments.len()
    &&& r.origin == SignatureOrigin::OtxAppend
    &&& r.carrier_witness_index == l.witness_index
    &&& spec_unique_lock_seal(o.append_segments[j].seals, lock) == Ok::<Seq<u8>, CoreError>(r.seal)
    &&& spec_append_preimage(
        o.message,
        base_hash,
        l.append_segments[j].inputs,
        l.append_segments[j].outputs,
        l.append_segments[j].cell_deps,
        l.append_segments[j].header_deps,
        s,
    ) matches Ok(p) && r.signing_message_hash == blake2b_personal_digest(OTX_APPEND_PERSONAL@, p)
}

/// `r` is the append signature the lock owes segment `j` of OTX `e` of the context's run.
pub open spec fn spec_is_segment_signature(c: &CobuildContext, lock: Seq<u8>, r: RequirementModel, e: int, j: int) -> bool {
    let b = c.spec_layouts()->Some_0;
    &&& c.spec_layouts() is Some
    &&& 0 <= e < b.entries.len()
    &&& spec_otx_base_preimage(b.entries[e].1, b.entries[e].0, c.spec_source()) matches Ok(bp)
        && spec_signs_own_segment(
        c.spec_source(),
        lock,
        b.entries[e].0,
        b.entries[e].1,
        blake2b_personal_digest(OTX_BASE_PERSONAL@, bp),
        r,
        j,
    )
}

proof fn lemma_segment_requirement_signs_own_segment(
    s: InMemorySource,
    lock: Seq<u8>,
    l: OtxLayoutModel,
    o: OtxModel,
    base_hash: Seq<u8>,
    j: int,
)
    requires
        spec_segment_requirement(s, lock, l, o, base_hash, j) is Ok,
    ensures
        spec_signs_own_segment(s, lock, l, o, base_hash, spec_segment_requirement(s, lock, l, o, base_hash, j)->Ok_0, j),
{
    reveal(spec_signs_own_segment);
}

proof fn lemma_segment_requirements_sign_own_segment(
    s: InMemorySource,
    lock: Seq<u8>,
    l: OtxLayoutModel,
    o: OtxModel,
    base_hash: Seq<u8>,
    segments: Seq<usize>,
    n: nat,
)
    requires
        spec_segment_requirements(s, lock, l, o, base_hash, segments, n) is Ok,
    ensures
        spec_segment_requirements(s, lock, l, o, base_hash, segments, n)->Ok_0.len() == n,
        forall|i: int|
            0 <= i < n ==> spec_signs_own_segment(
                s,
                lock,
                l,
                o,
                base_hash,
                #[trigger] spec_segment_requirements(s, lock, l, o, base_hash, segments, n)->Ok_0[i],
                segments[i] as int,
            ),
    decreases n,
{
    if n > 0 {
        lemma_segment_requirements_sign_own_segment(s, lock, l, o, base_hash, segments, (n - 1) as nat);
        let prev = spec_segment_requirements(s, lock, l, o, base_hash, segments, (n - 1) as nat)->Ok_0;
        let rs = spec_segment_requirements(s, lock, l, o, base_hash, segments, n)->Ok_0;
        let j = segments[n - 1] as int;
        let r = spec_segment_requirement(s, lock, l, o, base_hash, j)->Ok_0;
        lemma_segment_requirement_signs_own_segment(s, lock, l, o, base_hash, j);
        assert(rs == prev.push(r));
        assert forall|i: int| 0 <= i < n implies spec_signs_own_segment(s, lock, l, o, base_hash, #[trigger] rs[i], segments[i] as int) by {
            if i < n - 1 {
                assert(rs[i] == prev[i]);
            }
        }
    }
}

proof fn lemma_otx_contribution_signs_own_segment(c: &CobuildContext, lock: Seq<u8>, lock_inputs: Seq<usize>, e: int)
    requires
        c.spec_layouts() is Some,
        0 <= e < c.spec_layouts()->Some_0.entries.len(),
        c.spec_otx_lock_contribution(lock, lock_inputs, e) is Ok,
    ensures
        ({
            let rs = c.spec_otx_lock_contribution(lock, lock_inputs, e)->Ok_0.0;
            forall|i: int| #![trigger rs[i]] 0 <= i < rs.len() && rs[i].origin == SignatureOrigin::OtxAppend
                ==> exists|j: int| #[trigger] spec_is_segment_signature(c, lock, rs[i], e, j)
        }),
{
    reveal(CobuildContext::spec_otx_lock_contribution);
    let (l, o) = c.spec_layouts()->Some_0.entries[e];
    let s = c.spec_source();
    let rs = c.spec_otx_lock_contribution(lock, lock_inputs, e)->Ok_0.0;
    if rs.len() > 0 {
        let base_signature = spec_any_in(lock_inputs, l.base_inputs);
        let segments = spec_required_segments(lock_inputs, l.append_segments, l.append_segments.len());
        let bp = spec_otx_base_preimage(o, l, s)->Ok_0;
        let base_hash = blake2b_personal_digest(OTX_BASE_PERSONAL@, bp);
        let sr = spec_segment_requirements(s, lock, l, o, base_hash, segments, segments.len())->Ok_0;
        let br = rs.subrange(0, rs.len() - sr.len());
        lemma_segment_requirements_sign_own_segment(s, lock, l, o, base_hash, segments, segments.len());
        assert forall|i: int| #![trigger rs[i]] 0 <= i < rs.len() && rs[i].origin == SignatureOrigin::OtxAppend
            implies exists|j: int| #[trigger] spec_is_segment_signature(c, lock, rs[i], e, j) by {
            assert(rs == spec_otx_signatures(s, lock, l, o, base_signature, segments)->Ok_0);
            let base_len = if base_signature { 1int } else { 0int };
            assert(rs.len() == base_len + sr.len());
            if i < base_len {
                assert(rs[i].origin == SignatureOrigin::OtxBase);
            } else {
                assert(rs[i] == sr[i - base_len]);
                let j = segments[i - base_len] as int;
                assert(spec_signs_own_segment(s, lock, l, o, base_hash, sr[i - base_len], j));
                assert(spec_is_segment_signature(c, lock, rs[i], e, j));
            }
        }
    }
}

proof fn lemma_otx_contributions_sign_own_segment(c: &CobuildContext, lock: Seq<u8>, lock_inputs: Seq<usize>, n: nat)
    requires
        c.spec_layouts() is Some,
        n <= c.spec_layouts()->Some_0.entries.len(),
        c.spec_otx_lock_contributions(lock, lock_inputs, n) is Ok,
    ensures
        ({
            let rs = c.spec_otx_lock_contributions(lock, lock_inputs, n)->Ok_0.0;
            forall|i: int| #![trigger rs[i]] 0 <= i < rs.len() && rs[i].origin == SignatureOrigin::OtxAppend
                ==> exists|e: int, j: int| #[trigger] spec_is_segment_signature(c, lock, rs[i], e, j)
        }),
    decreases n,
{
    if n > 0 {
        lemma_otx_contributions_sign_own_segment(c, lock, lock_inputs, (n - 1) as nat);
        lemma_otx_contribution_signs_own_segment(c, lock, lock_inputs, n - 1);
        let prev = c.spec_otx_lock_contributions(lock, lock_inputs, (n - 1) as nat)->Ok_0.0;
        let cur = c.spec_otx_lock_contribution(lock, lock_inputs, n - 1)->Ok_0.0;
        let rs = c.spec_otx_lock_contributions(lock, lock_inputs, n)->Ok_0.0;
        assert(rs == prev + cur);
        assert forall|i: int| #![trigger rs[i]] 0 <= i < rs.len() && rs[i].origin == SignatureOrigin::OtxAppend
            implies exists|e: int, j: int| #[trigger] spec_is_segment_signature(c, lock, rs[i], e, j) by {
            if i < prev.len() {
                assert(rs[i] == prev[i]);
            } else {
                assert(rs[i] == cur[i - prev.len()]);
                let j = choose|j: int| #[trigger] spec_is_segment_signature(c, lock, cur[i - prev.len()], n - 1, j);
                assert(spec_is_segment_signature(c, lock, rs[i], n - 1, j));
            }
        }
    }
}

/// Every append signature a lock's plan asks for signs the segment whose seal
/// it carries, and that segment alone: it is the lock's seal in some
/// segment `j` of some OTX of the run, and its signing hash is the append
/// digest over that segment's own appended inputs, outputs, cell deps and
/// header deps (after the OTX's base hash), not over the whole OTX's
/// appended ranges.
pub proof fn append_signature_signs_its_own_segment(c: &CobuildContext, i: int)
    requires
        c.spec_lock_plan() is Ok,
        0 <= i < c.spec_lock_plan()->Ok_0.required_signatures.len(),
        c.spec_lock_plan()->Ok_0.required_signatures[i].origin == SignatureOrigin::OtxAppend,
    ensures
        exists|e: int, j: int| #[trigger] spec_is_segment_signature(
            c,
            c.spec_script_context().spec_script()->InputLock_0@,
            c.spec_lock_plan()->Ok_0.required_signatures[i],
            e,
            j,
        ),
{
    let sc = c.spec_script_context();
    let lock = sc.spec_script()->InputLock_0@;
    let lock_inputs = sc.spec_lock_inputs()->Some_0;
    let tr = c.spec_tx_requirement(lock, lock_inputs)->Ok_0;
    let p = c.spec_lock_plan()->Ok_0;
    let first: Seq<RequirementModel> = match tr {
        Some(r) => seq![r],
        None => Seq::empty(),
    };
    if tr is Some {
        assert(tr->Some_0.origin == SignatureOrigin::TxLevel);
    }
    let b = c.spec_layouts()->Some_0;
    if c.spec_layouts() is None {
        assert(p.required_signatures == first + Seq::<RequirementModel>::empty());
        assert(p.required_signatures[i] == first[i]);
    } else {
        let otx_reqs = c.spec_otx_lock_contributions(lock, lock_inputs, b.entries.len())->Ok_0.0;
        lemma_otx_contributions_sign_own_segment(c, lock, lock_inputs, b.entries.len());
        assert(p.required_signatures == first + otx_reqs);
        if i < first.len() {
            assert(p.required_signatures[i] == first[i]);
        } else {
            assert(p.required_signatures[i] == otx_reqs[i - first.len()]);
        }
    }
}


/// `r` is the base signature the lock owes OTX `e` of the context's run: the
/// lock's one base seal, carried by the OTX witness, over the base digest.
pub open spec fn spec_is_base_signature(c: &CobuildContext, lock: Seq<u8>, r: RequirementModel, e: int) -> bool {
    let b = c.spec_layouts()->Some_0;
    &&& c.spec_layouts() is Some
    &&& 0 <= e < b.entries.len()
    &&& r.origin == SignatureOrigin::OtxBase
    &&& r.carrier_witness_index == b.entries[e].0.witness_index
    &&& spec_unique_lock_seal(b.entries[e].1.base_seals, lock) == Ok::<Seq<u8>, CoreError>(r.seal)
    &&& spec_otx_base_preimage(b.entries[e].1, b.entries[e].0, c.spec_source()) matches Ok(bp)
        && r.signing_message_hash == blake2b_personal_digest(OTX_BASE_PERSONAL@, bp)
}

proof fn lemma_otx_contribution_base_signature(c: &CobuildContext, lock: Seq<u8>, lock_inputs: Seq<usize>, e: int)
    requires
        c.spec_layouts() is Some,
        0 <= e < c.spec_layouts()->Some_0.entries.len(),
        c.spec_otx_lock_contribution(lock, lock_inputs, e) is Ok,
    ensures
        ({
            let rs = c.spec_otx_lock_contribution(lock, lock_inputs, e)->Ok_0.0;
            forall|i: int| #![trigger rs[i]] 0 <= i < rs.len() && rs[i].origin == SignatureOrigin::OtxBase
                ==> spec_is_base_signature(c, lock, rs[i], e)
        }),
{
    reveal(CobuildContext::spec_otx_lock_contribution);
    let (l, o) = c.spec_layouts()->Some_0.entries[e];
    let s = c.spec_source();
    let rs = c.spec_otx_lock_contribution(lock, lock_inputs, e)->Ok_0.0;
    if rs.len() > 0 {
        let base_signature = spec_any_in(lock_inputs, l.base_inputs);
        let segments = spec_required_segments(lock_inputs, l.append_segments, l.append_segments.len());
        let bp = spec_otx_base_preimage(o, l, s)->Ok_0;
        let base_hash = blake2b_personal_digest(OTX_BASE_PERSONAL@, bp);
        let sr = spec_segment_requirements(s, lock, l, o, base_hash, segments, segments.len())->Ok_0;
        lemma_segment_requirements_sign_own_segment(s, lock, l, o, base_hash, segments, segments.len());
        assert forall|i: int| #![trigger rs[i]] 0 <= i < rs.len() && rs[i].origin == SignatureOrigin::OtxBase
            implies spec_is_base_signature(c, lock, rs[i], e) by {
            assert(rs == spec_otx_signatures(s, lock, l, o, base_signature, segments)->Ok_0);
            let base_len = if base_signature { 1int } else { 0int };
            assert(rs.len() == base_len + sr.len());
            if i >= base_len {
                assert(rs[i] == sr[i - base_len]);
                reveal(spec_signs_own_segment);
                assert(spec_signs_own_segment(s, lock, l, o, base_hash, sr[i - base_len], segments[i - base_len] as int));
            }
        }
    }
}

proof fn lemma_otx_contributions_base_signatures(c: &CobuildContext, lock: Seq<u8>, lock_inputs: Seq<usize>, n: nat)
    requires
        c.spec_layouts() is Some,
        n <= c.spec_layouts()->Some_0.entries.len(),
        c.spec_otx_lock_contributions(lock, lock_inputs, n) is Ok,
    ensures
        ({
            let rs = c.spec_otx_lock_contributions(lock, lock_inputs, n)->Ok_0.0;
            forall|i: int| #![trigger rs[i]] 0 <= i < rs.len() && rs[i].origin == SignatureOrigin::OtxBase
                ==> exists|e: int| #[trigger] spec_is_base_signature(c, lock, rs[i], e)
        }),
    decreases n,
{
    if n > 0 {
        lemma_otx_contributions_base_signatures(c, lock, lock_inputs, (n - 1) as nat);
        lemma_otx_contribution_base_signature(c, lock, lock_inputs, n - 1);
        let prev = c.spec_otx_lock_contributions(lock, lock_inputs, (n - 1) as nat)->Ok_0.0;
        let cur = c.spec_otx_lock_contribution(lock, lock_inputs, n - 1)->Ok_0.0;
        let rs = c.spec_otx_lock_contributions(lock, lock_inputs, n)->Ok_0.0;
        assert(rs == prev + cur);
        assert forall|i: int| #![trigger rs[i]] 0 <= i < rs.len() && rs[i].origin == SignatureOrigin::OtxBase
            implies exists|e: int| #[trigger] spec_is_base_signature(c, lock, rs[i], e) by {
            if i < prev.len() {
                assert(rs[i] == prev[i]);
            } else {
                assert(rs[i] == cur[i - prev.len()]);
                assert(spec_is_base_signature(c, lock, rs[i], n - 1));
            }
        }
    }
}

/// Every base signature a lock's plan asks for is the lock's one base seal of
/// some OTX of the run, carried by that OTX's witness, over the digest of
/// that OTX's base preimage.
pub proof fn base_signature_signs_its_otx_base(c: &CobuildContext, i: int)
    requires
        c.spec_lock_plan() is Ok,
        0 <= i < c.spec_lock_plan()->Ok_0.required_signatures.len(),
        c.spec_lock_plan()->Ok_0.required_signatures[i].origin == SignatureOrigin::OtxBase,
    ensures
        exists|e: int| #[trigger] spec_is_base_signature(
            c,
            c.spec_script_context().spec_script()->InputLock_0@,
            c.spec_lock_plan()->Ok_0.required_signatures[i],
            e,
        ),
{
    let sc = c.spec_script_context();
    let lock = sc.spec_script()->InputLock_0@;
    let lock_inputs = sc.spec_lock_inputs()->Some_0;
    let tr = c.spec_tx_requirement(lock, lock_inputs)->Ok_0;
    let p = c.spec_lock_plan()->Ok_0;
    let first: Seq<RequirementModel> = match tr {
        Some(r) => seq![r],
        None => Seq::empty(),
    };
    if tr is Some {
        assert(tr->Some_0.origin == SignatureOrigin::TxLevel);
    }
    let b = c.spec_layouts()->Some_0;
    if c.spec_layouts() is None {
        assert(p.required_signatures == first + Seq::<RequirementModel>::empty());
        assert(p.required_signatures[i] == first[i]);
    } else {
        let otx_reqs = c.spec_otx_lock_contributions(lock, lock_inputs, b.entries.len())->Ok_0.0;
        lemma_otx_contributions_base_signatures(c, lock, lock_inputs, b.entries.len());
        assert(p.required_signatures == first + otx_reqs);
        if i < first.len() {
            assert(p.required_signatures[i] == first[i]);
        } else {
            assert(p.required_signatures[i] == otx_reqs[i - first.len()]);
        }
    }
}

} // verus!
