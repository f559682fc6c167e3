//! Decoding a serialized transaction into the lists the core works on, and
//! assembling the core's context from data loaded by the host.

use vstd::prelude::*;

use crate::context::CurrentScript;
use crate::engine::{spec_build_result, CobuildContext};
use crate::error::CoreError;
use crate::lazy_reader::blockchain::{
    spec_valid_script, spec_valid_transaction, Byte32Vec, BytesVec, CellDepVec, CellInputVec,
    CellOutputVec, Script, Transaction,
};
use crate::lazy_reader::support::{field_raw_bytes, Cursor, CursorView};
use crate::reader::{copy_bytes, cursor_bytes, cursor_from_slice};
use crate::source::InMemorySource;

verus! {

/// A cursor over the whole of `data`.
pub open spec fn spec_whole(data: Seq<u8>) -> CursorView {
    CursorView { data, offset: 0, size: data.len() as int }
}

/// The bytes of a window, when there is one and it lies inside its buffer.
pub open spec fn spec_window_bytes(c: Option<CursorView>) -> Option<Seq<u8>> {
    match c {
        Some(v) => if v.readable() { Some(v.bytes()) } else { None },
        None => None,
    }
}

/// The payload of item `i` of a `BytesVec`.
pub open spec fn spec_bytes_item(v: CursorView, i: int) -> Option<Seq<u8>> {
    match v.dynvec_item(i) {
        Some(f) => spec_window_bytes(f.raw_bytes()),
        None => None,
    }
}

/// Item `i` of a `Byte32Vec`.
pub open spec fn spec_byte32_item(v: CursorView, i: int) -> Option<Seq<u8>> {
    match v.fixvec_item(32, i) {
        Some(f) => if f.exact_bytes(32) { Some(f.bytes()) } else { None },
        None => None,
    }
}

/// The first `n` items given by `f`, if every one of them can be read.
pub open spec fn spec_collect(n: int, f: spec_fn(int) -> Option<Seq<u8>>) -> Option<Seq<Seq<u8>>> {
    if 0 <= n && forall|i: int| 0 <= i < n ==> (#[trigger] f(i)) is Some {
        Some(Seq::new(n as nat, |i: int| f(i)->0))
    } else {
        None
    }
}

/// The lists of a decoded transaction, each item by its bytes.
pub struct TransactionInfoModel {
    pub transaction: Seq<u8>,
    pub witnesses: Seq<Seq<u8>>,
    pub raw_inputs: Seq<Seq<u8>>,
    pub raw_outputs: Seq<Seq<u8>>,
    pub raw_outputs_data: Seq<Seq<u8>>,
    pub raw_cell_deps: Seq<Seq<u8>>,
    pub raw_header_deps: Seq<Seq<u8>>,
    pub input_count: int,
    pub output_count: int,
    pub cell_dep_count: int,
    pub header_dep_count: int,
}

/// What decoding the serialized transaction `data` gives: a transaction that does
/// not verify is an invalid layout, a part that cannot be read is malformed.
pub open spec fn spec_transaction_info(data: Seq<u8>) -> Result<TransactionInfoModel, CoreError> {
    let tx = spec_whole(data);
    if !spec_valid_transaction(tx, false) {
        Err(CoreError::InvalidOtxLayout)
    } else {
        match (tx.dynvec_item(0), tx.dynvec_item(1)) {
            (Some(raw), Some(w)) => match (
                w.dynvec_length(),
                raw.dynvec_item(3),
                raw.dynvec_item(4),
                raw.dynvec_item(5),
                raw.dynvec_item(1),
                raw.dynvec_item(2),
            ) {
                (Some(wn), Some(ins), Some(outs), Some(data_vec), Some(deps), Some(headers)) => match (
                    ins.number(),
                    outs.dynvec_length(),
                    deps.number(),
                    headers.number(),
                ) {
                    (Some(ic), Some(oc), Some(dc), Some(hc)) => {
                        let witnesses = spec_collect(wn, |i: int| spec_bytes_item(w, i));
                        let inputs = spec_collect(ic, |i: int| spec_window_bytes(ins.fixvec_item(44, i)));
                        let outputs = spec_collect(oc, |i: int| spec_window_bytes(outs.dynvec_item(i)));
                        let outputs_data = spec_collect(oc, |i: int| spec_bytes_item(data_vec, i));
                        let cell_deps = spec_collect(dc, |i: int| spec_window_bytes(deps.fixvec_item(37, i)));
                        let header_deps = spec_collect(hc, |i: int| spec_byte32_item(headers, i));
                        match (witnesses, inputs, outputs, outputs_data, cell_deps, header_deps) {
                            (Some(ws), Some(is), Some(os), Some(ods), Some(cds), Some(hds)) => Ok(TransactionInfoModel {
                                transaction: data,
                                witnesses: ws,
                                raw_inputs: is,
                                raw_outputs: os,
                                raw_outputs_data: ods,
                                raw_cell_deps: cds,
                                raw_header_deps: hds,
                                input_count: ic,
                                output_count: oc,
                                cell_dep_count: dc,
                                header_dep_count: hc,
                            }),
                            _ => Err(CoreError::MalformedCobuild),
                        }
                    },
                    _ => Err(CoreError::MalformedCobuild),
                },
                _ => Err(CoreError::MalformedCobuild),
            },
            _ => Err(CoreError::MalformedCobuild),
        }
    }
}

/// The lists of a decoded transaction.
pub struct TransactionInfo {
    pub transaction: Vec<u8>,
    pub witnesses: Vec<Vec<u8>>,
    pub raw_inputs: Vec<Vec<u8>>,
    pub raw_outputs: Vec<Vec<u8>>,
    pub raw_outputs_data: Vec<Vec<u8>>,
    pub raw_cell_deps: Vec<Vec<u8>>,
    pub raw_header_deps: Vec<[u8; 32]>,
    pub input_count: usize,
    pub output_count: usize,
    pub cell_dep_count: usize,
    pub header_dep_count: usize,
}

/// Each byte string of a list by its bytes.
pub open spec fn spec_deep(v: Seq<Vec<u8>>) -> Seq<Seq<u8>> {
    v.map_values(|b: Vec<u8>| b@)
}

impl View for TransactionInfo {
    type V = TransactionInfoModel;

    open spec fn view(&self) -> TransactionInfoModel {
        TransactionInfoModel {
            transaction: self.transaction@,
            witnesses: spec_deep(self.witnesses@),
            raw_inputs: spec_deep(self.raw_inputs@),
            raw_outputs: spec_deep(self.raw_outputs@),
            raw_outputs_data: spec_deep(self.raw_outputs_data@),
            raw_cell_deps: spec_deep(self.raw_cell_deps@),
            raw_header_deps: self.raw_header_deps@.map_values(|h: [u8; 32]| h@),
            input_count: self.input_count as int,
            output_count: self.output_count as int,
            cell_dep_count: self.cell_dep_count as int,
            header_dep_count: self.header_dep_count as int,
        }
    }
}

/// The payloads of the first `count` items of a `BytesVec`.
fn bytes_vec_items(v: &BytesVec, count: usize) -> (res: Result<Vec<Vec<u8>>, CoreError>)
    ensures
        match spec_collect(count as int, |i: int| spec_bytes_item(v.cursor@, i)) {
            Some(items) => res matches Ok(r) && spec_deep(r@) == items,
            None => res == Err::<Vec<Vec<u8>>, CoreError>(CoreError::MalformedCobuild),
        },
{
    let ghost f = |i: int| spec_bytes_item(v.cursor@, i);
    let mut out: Vec<Vec<u8>> = Vec::with_capacity(count);
    let mut index: usize = 0;
    while index < count
        invariant
            f == (|i: int| spec_bytes_item(v.cursor@, i)),
            0 <= index <= count,
            out@.len() == index,
            forall|j: int| 0 <= j < index ==> ((#[trigger] f(j)) matches Some(b) && out@[j]@ == b),
        decreases count - index,
    {
        let item = match v.get(index) {
            Ok(item) => item,
            Err(_) => {
                assert(f(index as int) is None);
                return Err(CoreError::MalformedCobuild);
            },
        };
        let bytes = match cursor_bytes(&item) {
            Ok(bytes) => bytes,
            Err(e) => {
                assert(f(index as int) is None);
                return Err(e);
            },
        };
        out.push(bytes);
        index = index + 1;
    }
    proof {
        assert(spec_deep(out@) =~= Seq::new(count as nat, |i: int| f(i)->0));
    }
    Ok(out)
}

/// The bytes of the first `count` items of a fixvec of `CellInput`s.
fn cell_input_items(v: &CellInputVec, count: usize) -> (res: Result<Vec<Vec<u8>>, CoreError>)
    ensures
        match spec_collect(count as int, |i: int| spec_window_bytes(v.cursor@.fixvec_item(44, i))) {
            Some(items) => res matches Ok(r) && spec_deep(r@) == items,
            None => res == Err::<Vec<Vec<u8>>, CoreError>(CoreError::MalformedCobuild),
        },
{
    let ghost f = |i: int| spec_window_bytes(v.cursor@.fixvec_item(44, i));
    let mut out: Vec<Vec<u8>> = Vec::with_capacity(count);
    let mut index: usize = 0;
    while index < count
        invariant
            f == (|i: int| spec_window_bytes(v.cursor@.fixvec_item(44, i))),
            0 <= index <= count,
            out@.len() == index,
            forall|j: int| 0 <= j < index ==> ((#[trigger] f(j)) matches Some(b) && out@[j]@ == b),
        decreases count - index,
    {
        let item = match v.get(index) {
            Ok(item) => item,
            Err(_) => {
                assert(f(index as int) is None);
                return Err(CoreError::MalformedCobuild);
            },
        };
        let bytes = match cursor_bytes(&item.cursor) {
            Ok(bytes) => bytes,
            Err(e) => {
                assert(f(index as int) is None);
                return Err(e);
            },
        };
        out.push(bytes);
        index = index + 1;
    }
    proof {
        assert(spec_deep(out@) =~= Seq::new(count as nat, |i: int| f(i)->0));
    }
    Ok(out)
}

/// The bytes of the first `count` items of a dynvec of `CellOutput`s.
fn cell_output_items(v: &CellOutputVec, count: usize) -> (res: Result<Vec<Vec<u8>>, CoreError>)
    ensures
        match spec_collect(count as int, |i: int| spec_window_bytes(v.cursor@.dynvec_item(i))) {
            Some(items) => res matches Ok(r) && spec_deep(r@) == items,
            None => res == Err::<Vec<Vec<u8>>, CoreError>(CoreError::MalformedCobuild),
        },
{
    let ghost f = |i: int| spec_window_bytes(v.cursor@.dynvec_item(i));
    let mut out: Vec<Vec<u8>> = Vec::with_capacity(count);
    let mut index: usize = 0;
    while index < count
        invariant
            f == (|i: int| spec_window_bytes(v.cursor@.dynvec_item(i))),
            0 <= index <= count,
            out@.len() == index,
            forall|j: int| 0 <= j < index ==> ((#[trigger] f(j)) matches Some(b) && out@[j]@ == b),
        decreases count - index,
    {
        let item = match v.get(index) {
            Ok(item) => item,
            Err(_) => {
                assert(f(index as int) is None);
                return Err(CoreError::MalformedCobuild);
            },
        };
        let bytes = match cursor_bytes(&item.cursor) {
            Ok(bytes) => bytes,
            Err(e) => {
                assert(f(index as int) is None);
                return Err(e);
            },
        };
        out.push(bytes);
        index = index + 1;
    }
    proof {
        assert(spec_deep(out@) =~= Seq::new(count as nat, |i: int| f(i)->0));
    }
    Ok(out)
}

/// The bytes of the first `count` items of a fixvec of `CellDep`s.
fn cell_dep_items(v: &CellDepVec, count: usize) -> (res: Result<Vec<Vec<u8>>, CoreError>)
    ensures
        match spec_collect(count as int, |i: int| spec_window_bytes(v.cursor@.fixvec_item(37, i))) {
            Some(items) => res matches Ok(r) && spec_deep(r@) == items,
            None => res == Err::<Vec<Vec<u8>>, CoreError>(CoreError::MalformedCobuild),
        },
{
    let ghost f = |i: int| spec_window_bytes(v.cursor@.fixvec_item(37, i));
    let mut out: Vec<Vec<u8>> = Vec::with_capacity(count);
    let mut index: usize = 0;
    while index < count
        invariant
            f == (|i: int| spec_window_bytes(v.cursor@.fixvec_item(37, i))),
            0 <= index <= count,
            out@.len() == index,
            forall|j: int| 0 <= j < index ==> ((#[trigger] f(j)) matches Some(b) && out@[j]@ == b),
        decreases count - index,
    {
        let item = match v.get(index) {
            Ok(item) => item,
            Err(_) => {
                assert(f(index as int) is None);
                return Err(CoreError::MalformedCobuild);
            },
        };
        let bytes = match cursor_bytes(&item.cursor) {
            Ok(bytes) => bytes,
            Err(e) => {
                assert(f(index as int) is None);
                return Err(e);
            },
        };
        out.push(bytes);
        index = index + 1;
    }
    proof {
        assert(spec_deep(out@) =~= Seq::new(count as nat, |i: int| f(i)->0));
    }
    Ok(out)
}

/// The first `count` hashes of a `Byte32Vec`.
fn byte32_items(v: &Byte32Vec, count: usize) -> (res: Result<Vec<[u8; 32]>, CoreError>)
    ensures
        match spec_collect(count as int, |i: int| spec_byte32_item(v.cursor@, i)) {
            Some(items) => res matches Ok(r) && r@.map_values(|h: [u8; 32]| h@) == items,
            None => res == Err::<Vec<[u8; 32]>, CoreError>(CoreError::MalformedCobuild),
        },
{
    let ghost f = |i: int| spec_byte32_item(v.cursor@, i);
    let mut out: Vec<[u8; 32]> = Vec::with_capacity(count);
    let mut index: usize = 0;
    while index < count
        invariant
            f == (|i: int| spec_byte32_item(v.cursor@, i)),
            0 <= index <= count,
            out@.len() == index,
            forall|j: int| 0 <= j < index ==> ((#[trigger] f(j)) matches Some(b) && out@[j]@ == b),
        decreases count - index,
    {
        let hash = match v.get(index) {
            Ok(hash) => hash,
            Err(_) => {
                assert(f(index as int) is None);
                return Err(CoreError::MalformedCobuild);
            },
        };
        out.push(hash);
        index = index + 1;
    }
    proof {
        assert(out@.map_values(|h: [u8; 32]| h@) =~= Seq::new(count as nat, |i: int| f(i)->0));
    }
    Ok(out)
}

/// Decodes a serialized transaction into its witnesses and the bytes of each
/// input, output, output data, cell dep and header dep.
pub fn parse_transaction_info(data: &[u8]) -> (res: Result<TransactionInfo, CoreError>)
    ensures
        match spec_transaction_info(data@) {
            Ok(m) => res matches Ok(info) && info@ == m,
            Err(e) => res matches Err(r) && r == e,
        },
{
    let tx = Transaction::from_cursor(cursor_from_slice(data));
    if tx.verify(false).is_err() {
        return Err(CoreError::InvalidOtxLayout);
    }
    let raw = match tx.raw() {
        Ok(raw) => raw,
        Err(_) => return Err(CoreError::MalformedCobuild),
    };
    let witnesses_reader = match tx.witnesses() {
        Ok(w) => w,
        Err(_) => return Err(CoreError::MalformedCobuild),
    };
    let witness_count = match witnesses_reader.len() {
        Ok(n) => n,
        Err(_) => return Err(CoreError::MalformedCobuild),
    };
    let inputs = match raw.inputs() {
        Ok(v) => v,
        Err(_) => return Err(CoreError::MalformedCobuild),
    };
    let outputs = match raw.outputs() {
        Ok(v) => v,
        Err(_) => return Err(CoreError::MalformedCobuild),
    };
    let outputs_data = match raw.outputs_data() {
        Ok(v) => v,
        Err(_) => return Err(CoreError::MalformedCobuild),
    };
    let cell_deps = match raw.cell_deps() {
        Ok(v) => v,
        Err(_) => return Err(CoreError::MalformedCobuild),
    };
    let header_deps = match raw.header_deps() {
        Ok(v) => v,
        Err(_) => return Err(CoreError::MalformedCobuild),
    };
    let input_count = match inputs.len() {
        Ok(n) => n,
        Err(_) => return Err(CoreError::MalformedCobuild),
    };
    let output_count = match outputs.len() {
        Ok(n) => n,
        Err(_) => return Err(CoreError::MalformedCobuild),
    };
    let cell_dep_count = match cell_deps.len() {
        Ok(n) => n,
        Err(_) => return Err(CoreError::MalformedCobuild),
    };
    let header_dep_count = match header_deps.len() {
        Ok(n) => n,
        Err(_) => return Err(CoreError::MalformedCobuild),
    };
    let witnesses = bytes_vec_items(&witnesses_reader, witness_count)?;
    let raw_inputs = cell_input_items(&inputs, input_count)?;
    let raw_outputs = cell_output_items(&outputs, output_count)?;
    let raw_outputs_data = bytes_vec_items(&outputs_data, output_count)?;
    let raw_cell_deps = cell_dep_items(&cell_deps, cell_dep_count)?;
    let raw_header_deps = byte32_items(&header_deps, header_dep_count)?;
    let info = TransactionInfo {
        transaction: copy_bytes(data),
        witnesses,
        raw_inputs,
        raw_outputs,
        raw_outputs_data,
        raw_cell_deps,
        raw_header_deps,
        input_count,
        output_count,
        cell_dep_count,
        header_dep_count,
    };
    Ok(info)
}

/// How many inputs, outputs, cell deps, header deps and witnesses a transaction has.
#[derive(Clone, Copy, Debug, PartialEq, Eq, Structural)]
pub struct TxCounts {
    pub inputs: usize,
    pub outputs: usize,
    pub cell_deps: usize,
    pub header_deps: usize,
    pub witnesses: usize,
}

/// The counts a serialized transaction declares, read without verifying it:
/// the item counts of its inputs, outputs, cell deps and header deps, and of
/// its witnesses, when each of them can be read.
pub open spec fn spec_tx_counts(tx: CursorView) -> Option<TxCounts> {
    match (tx.dynvec_item(0), tx.dynvec_item(1)) {
        (Some(raw), Some(w)) => match (raw.dynvec_item(3), raw.dynvec_item(4), raw.dynvec_item(1), raw.dynvec_item(2)) {
            (Some(ins), Some(outs), Some(deps), Some(headers)) => match (
                ins.number(),
                outs.dynvec_length(),
                deps.number(),
                headers.number(),
                w.dynvec_length(),
            ) {
                (Some(i), Some(o), Some(d), Some(h), Some(n)) => if i <= usize::MAX && o <= usize::MAX && d <= usize::MAX
                    && h <= usize::MAX && n <= usize::MAX {
                    Some(TxCounts {
                        inputs: i as usize,
                        outputs: o as usize,
                        cell_deps: d as usize,
                        header_deps: h as usize,
                        witnesses: n as usize,
                    })
                } else {
                    None
                },
                _ => None,
            },
            _ => None,
        },
        _ => None,
    }
}

/// Reads the counts of a serialized transaction; a part that cannot be read
/// is a missing hash input.
pub fn read_counts_from_transaction(transaction: &Cursor) -> (res: Result<TxCounts, CoreError>)
    ensures
        match spec_tx_counts(transaction@) {
            Some(c) => res == Ok::<TxCounts, CoreError>(c),
            None => res == Err::<TxCounts, CoreError>(CoreError::MissingHashInput),
        },
{
    let tx = Transaction::from_cursor(transaction.duplicate());
    let raw = match tx.raw() {
        Ok(raw) => raw,
        Err(_) => return Err(CoreError::MissingHashInput),
    };
    let inputs = match raw.inputs() {
        Ok(v) => match v.len() {
            Ok(n) => n,
            Err(_) => return Err(CoreError::MissingHashInput),
        },
        Err(_) => return Err(CoreError::MissingHashInput),
    };
    let outputs = match raw.outputs() {
        Ok(v) => match v.len() {
            Ok(n) => n,
            Err(_) => return Err(CoreError::MissingHashInput),
        },
        Err(_) => return Err(CoreError::MissingHashInput),
    };
    let cell_deps = match raw.cell_deps() {
        Ok(v) => match v.len() {
            Ok(n) => n,
            Err(_) => return Err(CoreError::MissingHashInput),
        },
        Err(_) => return Err(CoreError::MissingHashInput),
    };
    let header_deps = match raw.header_deps() {
        Ok(v) => match v.len() {
            Ok(n) => n,
            Err(_) => return Err(CoreError::MissingHashInput),
        },
        Err(_) => return Err(CoreError::MissingHashInput),
    };
    let witnesses = match tx.witnesses() {
        Ok(v) => match v.len() {
            Ok(n) => n,
            Err(_) => return Err(CoreError::MissingHashInput),
        },
        Err(_) => return Err(CoreError::MissingHashInput),
    };
    Ok(TxCounts { inputs, outputs, cell_deps, header_deps, witnesses })
}

/// The arguments of a serialized script: a script that does not verify is an
/// invalid layout, arguments that cannot be read are malformed.
pub fn script_args_from_slice(data: &[u8]) -> (res: Result<Vec<u8>, CoreError>)
    ensures
        !spec_valid_script(spec_whole(data@), false) ==> res == Err::<Vec<u8>, CoreError>(CoreError::InvalidOtxLayout),
        spec_valid_script(spec_whole(data@), false) ==> match spec_window_bytes(field_raw_bytes(spec_whole(data@), 2)) {
            Some(args) => res matches Ok(a) && a@ == args,
            None => res == Err::<Vec<u8>, CoreError>(CoreError::MalformedCobuild),
        },
{
    let script = Script::from_cursor(cursor_from_slice(data));
    if script.verify(false).is_err() {
        return Err(CoreError::InvalidOtxLayout);
    }
    let args = match script.args() {
        Ok(args) => args,
        Err(_) => return Err(CoreError::MalformedCobuild),
    };
    cursor_bytes(&args)
}

/// Everything the host loads for one run of the lock: the serialized
/// transaction and current script, the witnesses, the counts the transaction
/// declares, the script hashes of its cells and the bytes the signing hashes cover.
pub struct PreparedContextInput {
    pub transaction: Vec<u8>,
    pub script: Vec<u8>,
    pub witnesses: Vec<Vec<u8>>,
    pub input_count: usize,
    pub output_count: usize,
    pub cell_dep_count: usize,
    pub header_dep_count: usize,
    pub input_locks: Vec<[u8; 32]>,
    pub input_types: Vec<Option<[u8; 32]>>,
    pub output_types: Vec<Option<[u8; 32]>>,
    pub tx_hash: [u8; 32],
    pub resolved_outputs: Vec<Vec<u8>>,
    pub resolved_data: Vec<Vec<u8>>,
    pub raw_inputs: Vec<Vec<u8>>,
    pub raw_outputs: Vec<Vec<u8>>,
    pub raw_outputs_data: Vec<Vec<u8>>,
    pub raw_cell_deps: Vec<Vec<u8>>,
    pub raw_header_deps: Vec<[u8; 32]>,
}

/// The declared counts agree with the lists that were loaded.
pub open spec fn spec_counts_agree(input: PreparedContextInput) -> bool {
    &&& input.input_count == input.raw_inputs@.len()
    &&& input.output_count == input.raw_outputs@.len()
    &&& input.cell_dep_count == input.raw_cell_deps@.len()
    &&& input.header_dep_count == input.raw_header_deps@.len()
}

/// The transaction data of a loaded input.
pub open spec fn spec_source_of(input: PreparedContextInput) -> InMemorySource {
    InMemorySource {
        transaction: input.transaction,
        script: input.script,
        tx_hash: input.tx_hash,
        input_locks: input.input_locks,
        input_types: input.input_types,
        output_types: input.output_types,
        resolved_outputs: input.resolved_outputs,
        resolved_data: input.resolved_data,
        raw_inputs: input.raw_inputs,
        raw_outputs: input.raw_outputs,
        raw_outputs_data: input.raw_outputs_data,
        raw_cell_deps: input.raw_cell_deps,
        raw_header_deps: input.raw_header_deps,
        witnesses: input.witnesses,
    }
}

/// Builds the context of `current_script` from what the host loaded. Counts
/// that disagree with the loaded lists are an inconsistent context input.
pub fn prepare_context(input: PreparedContextInput, current_script: CurrentScript) -> (res: Result<CobuildContext, CoreError>)
    ensures
        !spec_counts_agree(input) ==> res == Err::<CobuildContext, CoreError>(CoreError::InvalidContextInput),
        spec_counts_agree(input) ==> spec_build_result(current_script, spec_source_of(input), res),
{
    if input.input_count != input.raw_inputs.len() || input.output_count != input.raw_outputs.len()
        || input.cell_dep_count != input.raw_cell_deps.len()
        || input.header_dep_count != input.raw_header_deps.len()
    {
        return Err(CoreError::InvalidContextInput);
    }
    let source = InMemorySource {
        transaction: input.transaction,
        script: input.script,
        tx_hash: input.tx_hash,
        input_locks: input.input_locks,
        input_types: input.input_types,
        output_types: input.output_types,
        resolved_outputs: input.resolved_outputs,
        resolved_data: input.resolved_data,
        raw_inputs: input.raw_inputs,
        raw_outputs: input.raw_outputs,
        raw_outputs_data: input.raw_outputs_data,
        raw_cell_deps: input.raw_cell_deps,
        raw_header_deps: input.raw_header_deps,
        witnesses: input.witnesses,
    };
    CobuildContext::build(current_script, source)
}

} // verus!
