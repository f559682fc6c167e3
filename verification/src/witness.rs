//! Scanning a transaction's witnesses: what each one is as a
//! transaction-level carrier, and the OTX run they hold.

use vstd::prelude::*;

use crate::error::CoreError;
use crate::layout::{
    spec_built_layout_is, spec_collector_empty, spec_counts, spec_record_layout, spec_run_complete,
    CollectorModel, OtxLayoutCollector, OtxLayouts,
};
use crate::lazy_reader::support::{Cursor, CursorView};
use crate::view::{
    spec_carrier, spec_witness_layout, CarrierModel, CobuildWitnessLayoutView, SighashAllWitnessView,
};

verus! {

/// What a witness is, as far as transaction-level signing is concerned.
pub enum SummaryModel {
    Empty,
    Legacy,
    OtherCobuildLayout,
    SighashAll { seal: CursorView, message: CursorView },
    SighashAllOnly { seal: CursorView },
}

impl SummaryModel {
    /// The witness is a Cobuild witness layout (of any kind).
    pub open spec fn is_cobuild(self) -> bool {
        !(self is Empty) && !(self is Legacy)
    }

    /// The witness carries a transaction-level seal.
    pub open spec fn is_carrier(self) -> bool {
        self is SighashAll || self is SighashAllOnly
    }
}

/// The witness starts with the union id of a transaction-level carrier.
pub open spec fn spec_has_tx_level_witness_id(c: CursorView) -> bool {
    match c.number() {
        Some(id) => id == 0xff00_0001 || id == 0xff00_0002,
        None => false,
    }
}

/// The witness starts with the union id of one of the Cobuild layouts.
pub open spec fn spec_has_cobuild_witness_id(c: CursorView) -> bool {
    match c.number() {
        Some(id) => 0xff00_0001 <= id <= 0xff00_0004,
        None => false,
    }
}

/// The summary of one witness: an empty witness is empty; a well-formed
/// Cobuild layout is a carrier or another layout; a witness that fails to
/// decode is legacy, unless it claims a Cobuild union id, which is an error.
pub open spec fn spec_witness_summary(c: CursorView) -> Result<SummaryModel, CoreError> {
    if c.size == 0 {
        Ok(SummaryModel::Empty)
    } else {
        match spec_witness_layout(c) {
            Ok(w) => match spec_carrier(w) {
                Ok(Some(CarrierModel::WithMessage { seal, message })) => Ok(
                    SummaryModel::SighashAll { seal, message },
                ),
                Ok(Some(CarrierModel::SealOnly { seal })) => Ok(SummaryModel::SighashAllOnly { seal }),
                Ok(None) => Ok(SummaryModel::OtherCobuildLayout),
                Err(e) => Err(e),
            },
            Err(e) => if spec_has_cobuild_witness_id(c) {
                Err(e)
            } else {
                Ok(SummaryModel::Legacy)
            },
        }
    }
}

/// Reading the summaries left to right: the index and message of the only
/// `SighashAll` witness, none, or a duplicate as soon as a second one shows up.
pub open spec fn spec_unique_sighash_all(s: Seq<SummaryModel>) -> Result<Option<(int, CursorView)>, CoreError>
    decreases s.len(),
{
    if s.len() == 0 {
        Ok(None)
    } else {
        match spec_unique_sighash_all(s.drop_last()) {
            Err(e) => Err(e),
            Ok(prev) => match s.last() {
                SummaryModel::SighashAll { message, .. } => if prev is Some {
                    Err(CoreError::DuplicateSighashAll)
                } else {
                    Ok(Some(((s.len() - 1) as int, message)))
                },
                _ => Ok(prev),
            },
        }
    }
}

/// Some witness of the sequence is a Cobuild layout.
pub open spec fn spec_any_cobuild(s: Seq<SummaryModel>) -> bool {
    exists|i: int| 0 <= i < s.len() && (#[trigger] s[i]).is_cobuild()
}

/// The summary of one witness.
pub enum SighashAllWitnessSummary {
    Empty,
    Legacy,
    OtherCobuildLayout,
    SighashAll { seal: Cursor, message: Cursor },
    SighashAllOnly { seal: Cursor },
}

impl View for SighashAllWitnessSummary {
    type V = SummaryModel;

    open spec fn view(&self) -> SummaryModel {
        match self {
            SighashAllWitnessSummary::Empty => SummaryModel::Empty,
            SighashAllWitnessSummary::Legacy => SummaryModel::Legacy,
            SighashAllWitnessSummary::OtherCobuildLayout => SummaryModel::OtherCobuildLayout,
            SighashAllWitnessSummary::SighashAll { seal, message } => SummaryModel::SighashAll {
                seal: seal@,
                message: message@,
            },
            SighashAllWitnessSummary::SighashAllOnly { seal } => SummaryModel::SighashAllOnly {
                seal: seal@,
            },
        }
    }
}

impl SighashAllWitnessSummary {
    fn is_cobuild_witness_layout(&self) -> (res: bool)
        ensures
            res == self@.is_cobuild(),
    {
        match self {
            SighashAllWitnessSummary::Empty | SighashAllWitnessSummary::Legacy => false,
            _ => true,
        }
    }
}

/// A transaction-level carrier witness, as the lock planner reads it.
pub enum TxLevelCarrierView {
    WithMessage { seal: Cursor, message: Cursor },
    SealOnly { seal: Cursor },
}

impl View for TxLevelCarrierView {
    type V = CarrierModel;

    open spec fn view(&self) -> CarrierModel {
        match self {
            TxLevelCarrierView::WithMessage { seal, message } => CarrierModel::WithMessage {
                seal: seal@,
                message: message@,
            },
            TxLevelCarrierView::SealOnly { seal } => CarrierModel::SealOnly { seal: seal@ },
        }
    }
}

/// The summaries of the scanned witnesses, in witness order.
pub struct WitnessScan {
    sighash_all_summaries: Vec<SighashAllWitnessSummary>,
    has_cobuild_witness_layout: bool,
}

impl View for WitnessScan {
    type V = Seq<SummaryModel>;

    closed spec fn view(&self) -> Seq<SummaryModel> {
        self.sighash_all_summaries@.map_values(|s: SighashAllWitnessSummary| s@)
    }
}

impl WitnessScan {
    /// The number of scanned witnesses fits in a `usize`.
    pub proof fn lemma_len_fits(&self)
        ensures
            self@.len() <= usize::MAX,
    {
        assert(self.sighash_all_summaries.len() == self.sighash_all_summaries@.len());
    }

    /// The cached flag agrees with the summaries.
    pub closed spec fn wf(&self) -> bool {
        self.has_cobuild_witness_layout == spec_any_cobuild(self@)
    }

    /// No witness scanned yet.
    pub fn with_capacity(capacity: usize) -> (res: WitnessScan)
        ensures
            res@ == Seq::<SummaryModel>::empty(),
            res.wf(),
    {
        let res = WitnessScan { sighash_all_summaries: Vec::with_capacity(capacity), has_cobuild_witness_layout: false };
        proof {
            assert(res@ =~= Seq::<SummaryModel>::empty());
        }
        res
    }

    fn record_witness_summary(&mut self, summary: SighashAllWitnessSummary)
        requires
            old(self).wf(),
        ensures
            final(self)@ == old(self)@.push(summary@),
            final(self).wf(),
    {
        let ghost old_view = self@;
        let ghost sv = summary@;
        if summary.is_cobuild_witness_layout() {
            self.has_cobuild_witness_layout = true;
        }
        self.sighash_all_summaries.push(summary);
        proof {
            assert(self@ =~= old_view.push(sv));
            if sv.is_cobuild() {
                assert(self@[old_view.len() as int].is_cobuild());
            } else {
                if spec_any_cobuild(self@) {
                    let i = choose|i: int| 0 <= i < self@.len() && (#[trigger] self@[i]).is_cobuild();
                    assert(i < old_view.len());
                    assert(old_view[i].is_cobuild());
                }
                if spec_any_cobuild(old_view) {
                    let i = choose|i: int| 0 <= i < old_view.len() && (#[trigger] old_view[i]).is_cobuild();
                    assert(self@[i] == old_view[i]);
                }
            }
        }
    }

    /// The number of scanned witnesses.
    pub fn len(&self) -> (res: usize)
        ensures
            res == self@.len(),
    {
        self.sighash_all_summaries.len()
    }

    /// Some scanned witness is a Cobuild layout.
    pub fn has_cobuild_witness_layout(&self) -> (res: bool)
        requires
            self.wf(),
        ensures
            res == spec_any_cobuild(self@),
    {
        self.has_cobuild_witness_layout
    }

    /// The witness at `index` carries a transaction-level seal (a missing witness does not).
    pub fn tx_level_carrier_has_sighash_all_layout(&self, index: usize) -> (res: Result<bool, CoreError>)
        ensures
            res == Ok::<bool, CoreError>(index < self@.len() && self@[index as int].is_carrier()),
    {
        if index >= self.sighash_all_summaries.len() {
            return Ok(false);
        }
        match &self.sighash_all_summaries[index] {
            SighashAllWitnessSummary::SighashAll { .. } | SighashAllWitnessSummary::SighashAllOnly { .. } => Ok(true),
            _ => Ok(false),
        }
    }

    /// The message of the only `SighashAll` witness, if there is one.
    pub fn unique_sighash_all_message(&self) -> (res: Result<Option<Cursor>, CoreError>)
        ensures
            res is Ok <==> spec_unique_sighash_all(self@) is Ok,
            res matches Ok(None) ==> spec_unique_sighash_all(self@) == Ok::<Option<(int, CursorView)>, CoreError>(None),
            res matches Ok(Some(m)) ==> spec_unique_sighash_all(self@) matches Ok(Some((_, sm))) && sm == m@,
            res matches Err(e) ==> spec_unique_sighash_all(self@) == Err::<Option<(int, CursorView)>, CoreError>(e),
    {
        match self.unique_sighash_all_message_with_index() {
            Ok(Some((_, m))) => Ok(Some(m)),
            Ok(None) => Ok(None),
            Err(e) => Err(e),
        }
    }

    /// The index and message of the only `SighashAll` witness, if there is one.
    pub fn unique_sighash_all_message_with_index(&self) -> (res: Result<Option<(usize, Cursor)>, CoreError>)
        ensures
            res is Ok <==> spec_unique_sighash_all(self@) is Ok,
            res matches Ok(None) ==> spec_unique_sighash_all(self@) == Ok::<Option<(int, CursorView)>, CoreError>(None),
            res matches Ok(Some((i, m))) ==> spec_unique_sighash_all(self@) == Ok::<Option<(int, CursorView)>, CoreError>(
                Some((i as int, m@)),
            ),
            res matches Err(e) ==> spec_unique_sighash_all(self@) == Err::<Option<(int, CursorView)>, CoreError>(e),
    {
        let mut message: Option<(usize, Cursor)> = None;
        let n = self.sighash_all_summaries.len();
        let mut i: usize = 0;
        while i < n
            invariant
                n == self@.len(),
                0 <= i <= n,
                spec_unique_sighash_all(self@.take(i as int)) == Ok::<Option<(int, CursorView)>, CoreError>(
                    match message {
                        Some((j, m)) => Some((j as int, m@)),
                        None => None,
                    },
                ),
            decreases n - i,
        {
            proof {
                assert(self@.take(i + 1).drop_last() =~= self@.take(i as int));
                assert(self@.take(i + 1).last() == self@[i as int]);
            }
            match &self.sighash_all_summaries[i] {
                SighashAllWitnessSummary::SighashAll { message: candidate, .. } => {
                    if message.is_some() {
                        proof {
                            assert(spec_unique_sighash_all(self@.take(i + 1)) is Err);
                            lemma_unique_sighash_all_err_stays(self@, (i + 1) as nat);
                        }
                        return Err(CoreError::DuplicateSighashAll);
                    }
                    message = Some((i, candidate.duplicate()));
                },
                _ => {},
            }
            i = i + 1;
        }
        proof {
            assert(self@.take(n as int) =~= self@);
        }
        Ok(message)
    }

    /// The transaction-level carrier at `index`, if that witness is one.
    pub fn tx_level_carrier_view(&self, index: usize) -> (res: Result<Option<TxLevelCarrierView>, CoreError>)
        ensures
            res is Ok,
            (index < self@.len() && self@[index as int].is_carrier()) <==> res matches Ok(Some(_)),
            res matches Ok(Some(c)) ==> match self@[index as int] {
                SummaryModel::SighashAll { seal, message } => c@ == (CarrierModel::WithMessage { seal, message }),
                SummaryModel::SighashAllOnly { seal } => c@ == (CarrierModel::SealOnly { seal }),
                _ => false,
            },
    {
        if index >= self.sighash_all_summaries.len() {
            return Ok(None);
        }
        match &self.sighash_all_summaries[index] {
            SighashAllWitnessSummary::SighashAll { seal, message } => Ok(
                Some(TxLevelCarrierView::WithMessage { seal: seal.duplicate(), message: message.duplicate() }),
            ),
            SighashAllWitnessSummary::SighashAllOnly { seal } => Ok(
                Some(TxLevelCarrierView::SealOnly { seal: seal.duplicate() }),
            ),
            _ => Ok(None),
        }
    }

    /// Whether the witness at `index` is a legacy (non-Cobuild, non-empty) witness.
    pub fn is_legacy(&self, index: usize) -> (res: bool)
        ensures
            res == (index < self@.len() && self@[index as int] is Legacy),
    {
        if index >= self.sighash_all_summaries.len() {
            return false;
        }
        match &self.sighash_all_summaries[index] {
            SighashAllWitnessSummary::Legacy => true,
            _ => false,
        }
    }

    /// Every witness at `indices` other than the carrier's is empty (or missing).
    pub fn ensure_non_carrier_witnesses_empty(&self, indices: &[usize], carrier_index: usize) -> (res: Result<(), CoreError>)
        ensures
            res is Ok <==> forall|k: int|
                0 <= k < indices@.len() ==> spec_witness_empty_or_carrier(self@, #[trigger] indices@[k] as int, carrier_index as int),
            res matches Err(e) ==> e == CoreError::InvalidLockGroupWitness,
    {
        let mut k: usize = 0;
        while k < indices.len()
            invariant
                0 <= k <= indices@.len(),
                forall|j: int| 0 <= j < k ==> spec_witness_empty_or_carrier(self@, #[trigger] indices@[j] as int, carrier_index as int),
            decreases indices@.len() - k,
        {
            let index = indices[k];
            if index != carrier_index && index < self.sighash_all_summaries.len() {
                match &self.sighash_all_summaries[index] {
                    SighashAllWitnessSummary::Empty => {},
                    _ => {
                        proof {
                            assert(!spec_witness_empty_or_carrier(self@, indices@[k as int] as int, carrier_index as int));
                        }
                        return Err(CoreError::InvalidLockGroupWitness);
                    },
                }
            }
            k = k + 1;
        }
        Ok(())
    }
}

/// The witness at `index` is the carrier, is missing, or is empty.
pub open spec fn spec_witness_empty_or_carrier(s: Seq<SummaryModel>, index: int, carrier_index: int) -> bool {
    index == carrier_index || index >= s.len() || s[index] is Empty
}

/// Once a duplicate `SighashAll` shows up, longer prefixes report it too.
pub proof fn lemma_unique_sighash_all_err_stays(s: Seq<SummaryModel>, k: nat)
    requires
        k <= s.len(),
        spec_unique_sighash_all(s.take(k as int)) is Err,
    ensures
        spec_unique_sighash_all(s) == Err::<Option<(int, CursorView)>, CoreError>(CoreError::DuplicateSighashAll),
    decreases s.len() - k,
{
    lemma_unique_sighash_all_err_is_duplicate(s.take(k as int));
    if k < s.len() {
        assert(s.take((k + 1) as int).drop_last() =~= s.take(k as int));
        lemma_unique_sighash_all_err_stays(s, k + 1);
    } else {
        assert(s.take(k as int) =~= s);
    }
}

/// The only error of the scan for a unique `SighashAll` is a duplicate.
pub proof fn lemma_unique_sighash_all_err_is_duplicate(s: Seq<SummaryModel>)
    ensures
        spec_unique_sighash_all(s) is Err ==> spec_unique_sighash_all(s) == Err::<Option<(int, CursorView)>, CoreError>(
            CoreError::DuplicateSighashAll,
        ),
    decreases s.len(),
{
    if s.len() > 0 {
        lemma_unique_sighash_all_err_is_duplicate(s.drop_last());
    }
}

/// How many of the summaries are `SighashAll` witnesses.
pub open spec fn spec_sighash_all_count(s: Seq<SummaryModel>) -> nat
    decreases s.len(),
{
    if s.len() == 0 {
        0
    } else {
        spec_sighash_all_count(s.drop_last()) + if s.last() is SighashAll { 1nat } else { 0nat }
    }
}

/// A transaction carries at most one transaction-level message: the search
/// fails, with a duplicate, exactly when two or more witnesses are
/// `SighashAll`, finds nothing exactly when none is, and otherwise names the
/// only one with its message.
pub proof fn unique_sighash_all_counts_messages(s: Seq<SummaryModel>)
    ensures
        spec_unique_sighash_all(s) is Err <==> spec_sighash_all_count(s) >= 2,
        spec_unique_sighash_all(s) is Err ==> spec_unique_sighash_all(s) == Err::<Option<(int, CursorView)>, CoreError>(
            CoreError::DuplicateSighashAll,
        ),
        spec_unique_sighash_all(s) == Ok::<Option<(int, CursorView)>, CoreError>(None) <==> spec_sighash_all_count(s) == 0,
        spec_unique_sighash_all(s) matches Ok(Some((i, m))) ==> {
            &&& spec_sighash_all_count(s) == 1
            &&& 0 <= i < s.len()
            &&& s[i] matches SummaryModel::SighashAll { message, .. } && message == m
        },
    decreases s.len(),
{
    lemma_unique_sighash_all_err_is_duplicate(s);
    if s.len() > 0 {
        let p = s.drop_last();
        unique_sighash_all_counts_messages(p);
        if let Ok(Some((i, m))) = spec_unique_sighash_all(s) {
            if !(s.last() is SighashAll) {
                assert(s[i] == p[i]);
            }
        }
    }
}

/// The abstract state of a witness scanner.
pub struct ScannerModel {
    pub summaries: Seq<SummaryModel>,
    pub collector: CollectorModel,
}

/// Scans one more witness: its summary is recorded, and a well-formed
/// Cobuild layout is offered to the OTX-run collector.
pub open spec fn spec_push_witness(s: ScannerModel, c: CursorView) -> Result<ScannerModel, CoreError> {
    let index = s.summaries.len() as int;
    match spec_witness_summary(c) {
        Err(e) => Err(e),
        Ok(summary) => {
            let summaries = s.summaries.push(summary);
            if c.size != 0 && spec_witness_layout(c) is Ok {
                match spec_record_layout(s.collector, index, spec_witness_layout(c)->Ok_0) {
                    Ok(collector) => Ok(ScannerModel { summaries, collector }),
                    Err(e) => Err(e),
                }
            } else {
                Ok(ScannerModel { summaries, collector: s.collector })
            }
        },
    }
}

/// The abstract state of a scan that does not let a malformed OTX run stop
/// it: the summaries, the collector as it was when the run went wrong, and
/// the run's error, if it did.
pub struct TolerantScanModel {
    pub summaries: Seq<SummaryModel>,
    pub collector: CollectorModel,
    pub failure: Option<CoreError>,
}

/// Scans one more witness, keeping on past a malformed OTX run: a witness
/// whose summary fails stops the scan; once the OTX run has gone wrong, only
/// summaries are recorded; an error of the run itself is recorded, not raised.
pub open spec fn spec_push_witness_tolerant(s: TolerantScanModel, c: CursorView) -> Result<TolerantScanModel, CoreError> {
    match spec_witness_summary(c) {
        Err(e) => Err(e),
        Ok(summary) => if s.failure is Some {
            Ok(TolerantScanModel { summaries: s.summaries.push(summary), ..s })
        } else {
            match spec_push_witness(ScannerModel { summaries: s.summaries, collector: s.collector }, c) {
                Ok(m) => Ok(TolerantScanModel { summaries: m.summaries, collector: m.collector, failure: None }),
                Err(e) => Ok(TolerantScanModel { summaries: s.summaries.push(summary), collector: s.collector, failure: Some(e) }),
            }
        },
    }
}

/// Scans the witnesses in order, stopping only at a witness that cannot be summarized.
pub open spec fn spec_scan_tolerant(witnesses: Seq<CursorView>) -> Result<TolerantScanModel, CoreError>
    decreases witnesses.len(),
{
    if witnesses.len() == 0 {
        Ok(TolerantScanModel { summaries: Seq::empty(), collector: spec_collector_empty(), failure: None })
    } else {
        match spec_scan_tolerant(witnesses.drop_last()) {
            Ok(s) => spec_push_witness_tolerant(s, witnesses.last()),
            Err(e) => Err(e),
        }
    }
}

/// An error while scanning the first witnesses is the error of the whole tolerant scan.
pub proof fn lemma_scan_tolerant_err_stays(witnesses: Seq<CursorView>, k: nat)
    requires
        k <= witnesses.len(),
        spec_scan_tolerant(witnesses.take(k as int)) is Err,
    ensures
        spec_scan_tolerant(witnesses) == spec_scan_tolerant(witnesses.take(k as int)),
    decreases witnesses.len() - k,
{
    if k < witnesses.len() {
        assert(witnesses.take((k + 1) as int).drop_last() =~= witnesses.take(k as int));
        lemma_scan_tolerant_err_stays(witnesses, k + 1);
    } else {
        assert(witnesses.take(k as int) =~= witnesses);
    }
}

/// Scans witnesses one at a time.
pub struct CobuildWitnessScanner {
    tx_level: WitnessScan,
    otx_layout: OtxLayoutCollector,
}

impl View for CobuildWitnessScanner {
    type V = ScannerModel;

    closed spec fn view(&self) -> ScannerModel {
        ScannerModel { summaries: self.tx_level@, collector: self.otx_layout@ }
    }
}

/// The result of scanning every witness.
pub struct ScannedCobuildWitnesses {
    pub tx_level: WitnessScan,
    pub otx_layouts: OtxLayouts,
}

/// Whether a witness starts with a transaction-level carrier's union id.
pub fn has_tx_level_witness_id(witness: &Cursor) -> (res: bool)
    ensures
        res == spec_has_tx_level_witness_id(witness@),
{
    match witness.unpack_number() {
        Ok(id) => id == 0xff00_0001 || id == 0xff00_0002,
        Err(_) => false,
    }
}

/// Whether a witness starts with a Cobuild layout's union id.
pub fn has_cobuild_witness_id(witness: &Cursor) -> (res: bool)
    ensures
        res == spec_has_cobuild_witness_id(witness@),
{
    match witness.unpack_number() {
        Ok(id) => 0xff00_0001 <= id && id <= 0xff00_0004,
        Err(_) => false,
    }
}

impl CobuildWitnessScanner {
    /// The scanner's parts agree with each other.
    pub closed spec fn wf(&self) -> bool {
        &&& self.tx_level.wf()
        &&& self.otx_layout.spec_entries_nonneg()
    }

    /// A scanner that has seen no witness.
    pub fn with_capacity(capacity: usize) -> (res: CobuildWitnessScanner)
        ensures
            res@ == (ScannerModel { summaries: Seq::empty(), collector: spec_collector_empty() }),
            res.wf(),
    {
        CobuildWitnessScanner { tx_level: WitnessScan::with_capacity(capacity), otx_layout: OtxLayoutCollector::new() }
    }

    /// Scans the next witness.
    pub fn push_witness(&mut self, witness: Cursor) -> (res: Result<(), CoreError>)
        requires
            old(self).wf(),
        ensures
            res is Ok <==> spec_push_witness(old(self)@, witness@) is Ok,
            res matches Ok(()) ==> spec_push_witness(old(self)@, witness@) == Ok::<ScannerModel, CoreError>(final(self)@),
            res matches Err(e) ==> spec_push_witness(old(self)@, witness@) == Err::<ScannerModel, CoreError>(e),
            res is Err && spec_witness_summary(witness@) is Err ==> final(self)@ == old(self)@,
            res is Err && spec_witness_summary(witness@) is Ok ==> final(self)@ == (ScannerModel {
                summaries: old(self)@.summaries.push(spec_witness_summary(witness@)->Ok_0),
                collector: old(self)@.collector,
            }),
            final(self).wf(),
    {
        let index = self.tx_level.len();
        if witness.size == 0 {
            self.tx_level.record_witness_summary(SighashAllWitnessSummary::Empty);
            return Ok(());
        }
        match CobuildWitnessLayoutView::from_cursor(witness.duplicate()) {
            Ok(view) => {
                let summary = summarize_cobuild_layout(&view)?;
                self.tx_level.record_witness_summary(summary);
                self.otx_layout.record_cobuild_layout(index, &view)
            },
            Err(error) => {
                let summary = summarize_legacy_or_reject(&witness, error)?;
                self.tx_level.record_witness_summary(summary);
                Ok(())
            },
        }
    }

    /// Scans the next witness for its summary only, leaving the OTX run as it is.
    pub fn push_summary_only(&mut self, witness: Cursor) -> (res: Result<(), CoreError>)
        requires
            old(self).wf(),
        ensures
            match spec_witness_summary(witness@) {
                Ok(summary) => res is Ok && final(self)@ == (ScannerModel {
                    summaries: old(self)@.summaries.push(summary),
                    collector: old(self)@.collector,
                }),
                Err(e) => res == Err::<(), CoreError>(e),
            },
            final(self).wf(),
    {
        if witness.size == 0 {
            self.tx_level.record_witness_summary(SighashAllWitnessSummary::Empty);
            return Ok(());
        }
        match CobuildWitnessLayoutView::from_cursor(witness.duplicate()) {
            Ok(view) => {
                let summary = summarize_cobuild_layout(&view)?;
                self.tx_level.record_witness_summary(summary);
                Ok(())
            },
            Err(error) => {
                let summary = summarize_legacy_or_reject(&witness, error)?;
                self.tx_level.record_witness_summary(summary);
                Ok(())
            },
        }
    }

    /// How many witnesses have been summarized.
    pub fn summary_count(&self) -> (res: usize)
        requires
            self.wf(),
        ensures
            res == self@.summaries.len(),
    {
        self.tx_level.len()
    }

    /// The summaries scanned so far and the OTX-run collector, apart.
    pub fn into_parts(self) -> (res: (WitnessScan, OtxLayoutCollector))
        requires
            self.wf(),
        ensures
            res.0@ == self@.summaries,
            res.0.wf(),
            res.1@ == self@.collector,
            res.1.spec_entries_nonneg(),
    {
        let CobuildWitnessScanner { tx_level, otx_layout } = self;
        (tx_level, otx_layout)
    }

    /// Ends the scan, building the OTX run against the transaction's entity counts.
    pub fn finish(self, input_count: usize, output_count: usize, cell_dep_count: usize, header_dep_count: usize) -> (res: Result<ScannedCobuildWitnesses, CoreError>)
        requires
            self.wf(),
        ensures
            res matches Ok(s) ==> s.tx_level@ == self@.summaries && s.tx_level.wf(),
            self@.collector.start is None ==> (res matches Ok(s) && s.otx_layouts is Absent),
            self@.collector.start is Some ==> {
                let counts = spec_counts(input_count as int, output_count as int, cell_dep_count as int, header_dep_count as int);
                &&& res is Ok <==> spec_run_complete(self@.collector, counts)
                &&& res matches Ok(s) ==> (s.otx_layouts matches OtxLayouts::Complete(b) && spec_built_layout_is(b@, self@.collector))
                &&& res matches Err(e) ==> e == CoreError::InvalidOtxLayout
            },
    {
        let CobuildWitnessScanner { tx_level, otx_layout } = self;
        let otx_layouts = otx_layout.finish(input_count, output_count, cell_dep_count, header_dep_count)?;
        Ok(ScannedCobuildWitnesses { tx_level, otx_layouts })
    }
}

fn summarize_legacy_or_reject(witness: &Cursor, error: CoreError) -> (res: Result<SighashAllWitnessSummary, CoreError>)
    ensures
        spec_has_cobuild_witness_id(witness@) ==> res == Err::<SighashAllWitnessSummary, CoreError>(error),
        !spec_has_cobuild_witness_id(witness@) ==> (res matches Ok(s) && s@ == SummaryModel::Legacy),
{
    if has_cobuild_witness_id(witness) {
        Err(error)
    } else {
        Ok(SighashAllWitnessSummary::Legacy)
    }
}

fn summarize_cobuild_layout(view: &CobuildWitnessLayoutView) -> (res: Result<SighashAllWitnessSummary, CoreError>)
    ensures
        res is Ok <==> spec_carrier(view@) is Ok,
        res matches Err(e) ==> spec_carrier(view@) == Err::<Option<CarrierModel>, CoreError>(e),
        res matches Ok(s) ==> match spec_carrier(view@) {
            Ok(Some(CarrierModel::WithMessage { seal, message })) => s@ == (SummaryModel::SighashAll { seal, message }),
            Ok(Some(CarrierModel::SealOnly { seal })) => s@ == (SummaryModel::SighashAllOnly { seal }),
            Ok(None) => s@ == SummaryModel::OtherCobuildLayout,
            Err(_) => false,
        },
{
    match view.sighash_all_cobuild_witness_layout()? {
        Some(SighashAllWitnessView::WithMessage { seal, message }) => Ok(SighashAllWitnessSummary::SighashAll { seal, message }),
        Some(SighashAllWitnessView::SealOnly { seal }) => Ok(SighashAllWitnessSummary::SighashAllOnly { seal }),
        None => Ok(SighashAllWitnessSummary::OtherCobuildLayout),
    }
}

} // verus!
