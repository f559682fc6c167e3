//! Signing hashes: the preimages the Cobuild signatures cover, hashed with
//! personalized BLAKE2b.

use vstd::prelude::*;

use crate::error::CoreError;
use crate::lazy_reader::support::{Cursor, CursorView};
use crate::reader::{cursor_bytes, cursor_bytes_with_error, update_cursor_with_error};
use crate::layout::{OtxLayout, OtxLayoutModel, Range};
use crate::lazy_reader::blockchain::{spec_struct_slice, spec_struct_u64, CellInput, CellOutput};
use crate::lazy_reader::support::field_u64;
use crate::source::{spec_bytes_cursor, InMemorySource};
use crate::view::{spec_mask_bit, OtxModel, OtxView};

verus! {

/// Personalization of the transaction-level hash without a message.
pub const TX_WITHOUT_MESSAGE_PERSONAL: [u8; 16] = [99, 107, 98, 99, 98, 95, 116, 110, 109, 95, 99, 111, 114, 101, 49, 0];

/// Personalization of the transaction-level hash with a message.
pub const TX_WITH_MESSAGE_PERSONAL: [u8; 16] = [99, 107, 98, 99, 98, 95, 116, 119, 109, 95, 99, 111, 114, 101, 49, 0];

/// Personalization of the OTX base hash.
pub const OTX_BASE_PERSONAL: [u8; 16] = [99, 107, 98, 99, 98, 95, 111, 116, 98, 95, 99, 111, 114, 101, 49, 0];

/// Personalization of the OTX append hash.
pub const OTX_APPEND_PERSONAL: [u8; 16] = [99, 107, 98, 99, 98, 95, 111, 116, 97, 95, 99, 111, 114, 101, 49, 0];

/// The 32-byte BLAKE2b digest of `data` under the 16-byte personalization `personal`.
pub uninterp spec fn blake2b_personal_digest(personal: Seq<u8>, data: Seq<u8>) -> Seq<u8>;

/// Hashes `data` with `blake2b_ref::Blake2bBuilder` (32-byte output, the given
/// personalization), feeding it in one `update`. The contract claims only that
/// the digest is [`blake2b_personal_digest`] of the personalization and the data.
#[verifier::external_body]
pub(crate) fn blake2b_256_personal(personal: &[u8; 16], data: &[u8]) -> (res: [u8; 32])
    ensures
        res@ == blake2b_personal_digest(personal@, data@),
{
    let mut hasher = blake2b_ref::Blake2bBuilder::new(32).personal(personal).build();
    hasher.update(data);
    let mut out = [0u8; 32];
    hasher.finalize(&mut out);
    out
}

/// The four little-endian bytes of `n`.
pub open spec fn spec_le32_bytes(n: int) -> Seq<u8> {
    seq![(n % 256) as u8, ((n / 256) % 256) as u8, ((n / 65536) % 256) as u8, ((n / 16777216) % 256) as u8]
}

/// The 32-bit little-endian length prefix of `len`; a length past 32 bits is too large to hash.
pub fn checked_len_prefix(len: usize) -> (res: Result<[u8; 4], CoreError>)
    ensures
        len <= 0xffff_ffff ==> (res matches Ok(b) && b@ == spec_le32_bytes(len as int)),
        len > 0xffff_ffff ==> res == Err::<[u8; 4], CoreError>(CoreError::HashInputTooLarge),
{
    if len > 0xffff_ffff {
        return Err(CoreError::HashInputTooLarge);
    }
    let b0 = (len % 256) as u8;
    let b1 = ((len / 256) % 256) as u8;
    let b2 = ((len / 65536) % 256) as u8;
    let b3 = ((len / 16777216) % 256) as u8;
    let out = [b0, b1, b2, b3];
    proof {
        assert(out@ =~= spec_le32_bytes(len as int));
    }
    Ok(out)
}

/// The eight little-endian bytes of `n`.
pub open spec fn spec_le64_bytes(n: int) -> Seq<u8> {
    spec_le32_bytes(n % 4294967296) + spec_le32_bytes(n / 4294967296)
}

/// The eight little-endian bytes of a `u64`.
pub fn u64_le_bytes(v: u64) -> (res: [u8; 8])
    ensures
        res@ == spec_le64_bytes(v as int),
{
    let lo = (v % 4294967296) as usize;
    let hi = (v / 4294967296) as usize;
    let out = [
        (lo % 256) as u8,
        ((lo / 256) % 256) as u8,
        ((lo / 65536) % 256) as u8,
        ((lo / 16777216) % 256) as u8,
        (hi % 256) as u8,
        ((hi / 256) % 256) as u8,
        ((hi / 65536) % 256) as u8,
        ((hi / 16777216) % 256) as u8,
    ];
    proof {
        assert(out@ =~= spec_le64_bytes(v as int));
    }
    out
}

/// A count as the four bytes that encode it, if it fits in 32 bits.
pub open spec fn spec_count_bytes(n: int) -> Result<Seq<u8>, CoreError> {
    if 0 <= n <= 0xffff_ffff {
        Ok(spec_le32_bytes(n))
    } else {
        Err(CoreError::HashInputTooLarge)
    }
}

/// `a` followed by `b`, or the first error.
pub open spec fn spec_then(a: Result<Seq<u8>, CoreError>, b: Result<Seq<u8>, CoreError>) -> Result<Seq<u8>, CoreError> {
    match a {
        Err(e) => Err(e),
        Ok(x) => match b {
            Err(e) => Err(e),
            Ok(y) => Ok(x + y),
        },
    }
}

/// Bytes preceded by their 32-bit length.
pub open spec fn spec_len_prefixed(bytes: Seq<u8>) -> Result<Seq<u8>, CoreError> {
    spec_then(spec_count_bytes(bytes.len() as int), Ok(bytes))
}

/// The bytes of a cursor, or `e` if it reaches past its buffer.
pub open spec fn spec_chunk(c: CursorView, e: CoreError) -> Result<Seq<u8>, CoreError> {
    if c.readable() {
        Ok(c.bytes())
    } else {
        Err(e)
    }
}

/// Item `i` of a list of byte strings.
pub open spec fn spec_item(items: Seq<Vec<u8>>, i: int) -> Option<Seq<u8>> {
    if 0 <= i < items.len() {
        Some(items[i]@)
    } else {
        None
    }
}

/// Items `0..n` one after the other, or the first error.
pub open spec fn spec_concat_items(item: spec_fn(int) -> Result<Seq<u8>, CoreError>, n: nat) -> Result<Seq<u8>, CoreError>
    decreases n,
{
    if n == 0 {
        Ok(Seq::empty())
    } else {
        match spec_concat_items(item, (n - 1) as nat) {
            Err(e) => Err(e),
            Ok(p) => match item(n - 1) {
                Err(e) => Err(e),
                Ok(b) => Ok(p + b),
            },
        }
    }
}

/// An error among the first items is the error of the whole list.
pub proof fn lemma_concat_err_stays(item: spec_fn(int) -> Result<Seq<u8>, CoreError>, k: nat, n: nat)
    requires
        k <= n,
        spec_concat_items(item, k) is Err,
    ensures
        spec_concat_items(item, n) == spec_concat_items(item, k),
    decreases n - k,
{
    if k < n {
        lemma_concat_err_stays(item, k, (n - 1) as nat);
    }
}

/// The transaction index of local index `k` of a range, if `k` is inside it.
pub open spec fn spec_checked_index(r: crate::layout::Range, k: int) -> Option<int> {
    if k >= r.count || r.start + k > usize::MAX {
        None
    } else {
        Some(r.start + k)
    }
}

pub(crate) fn append_bytes(out: &mut Vec<u8>, bytes: &[u8])
    ensures
        final(out)@ == old(out)@ + bytes@,
{
    let mut i: usize = 0;
    let ghost start = out@;
    while i < bytes.len()
        invariant
            0 <= i <= bytes@.len(),
            out@ == start + bytes@.take(i as int),
        decreases bytes@.len() - i,
    {
        out.push(bytes[i]);
        proof {
            assert(bytes@.take(i + 1) =~= bytes@.take(i as int).push(bytes@[i as int]));
        }
        i = i + 1;
    }
    proof {
        assert(bytes@.take(bytes@.len() as int) =~= bytes@);
    }
}

fn append_count(out: &mut Vec<u8>, n: usize) -> (res: Result<(), CoreError>)
    ensures
        match spec_count_bytes(n as int) {
            Ok(b) => res is Ok && final(out)@ == old(out)@ + b,
            Err(e) => res == Err::<(), CoreError>(e),
        },
{
    let prefix = checked_len_prefix(n)?;
    append_bytes(out, &prefix);
    Ok(())
}

fn append_len_prefixed(out: &mut Vec<u8>, bytes: &[u8]) -> (res: Result<(), CoreError>)
    ensures
        match spec_len_prefixed(bytes@) {
            Ok(b) => res is Ok && final(out)@ == old(out)@ + b,
            Err(e) => res == Err::<(), CoreError>(e),
        },
{
    append_count(out, bytes.len())?;
    let ghost mid = out@;
    append_bytes(out, bytes);
    proof {
        assert(out@ =~= old(out)@ + spec_len_prefixed(bytes@)->Ok_0);
    }
    Ok(())
}

// ---------------------------------------------------------------------------
// Transaction-level hashes
// ---------------------------------------------------------------------------

/// The part a resolved input contributes: its cell, then its length-prefixed data.
pub open spec fn spec_resolved_input_item(s: InMemorySource, i: int) -> Result<Seq<u8>, CoreError> {
    match spec_item(s.resolved_outputs@, i) {
        None => Err(CoreError::MissingHashInput),
        Some(output) => match spec_item(s.resolved_data@, i) {
            None => Err(CoreError::MissingHashInput),
            Some(data) => spec_then(Ok(output), spec_len_prefixed(data)),
        },
    }
}

/// The part a witness past the inputs contributes: its length-prefixed bytes.
pub open spec fn spec_trailing_witness_item(s: InMemorySource, i: int) -> Result<Seq<u8>, CoreError> {
    match spec_item(s.witnesses@, i) {
        None => Err(CoreError::MissingHashInput),
        Some(w) => spec_len_prefixed(w),
    }
}

/// The number of witnesses past the inputs.
pub open spec fn spec_trailing_witness_count(s: InMemorySource) -> nat {
    if s.witnesses@.len() > s.raw_inputs@.len() {
        (s.witnesses@.len() - s.raw_inputs@.len()) as nat
    } else {
        0
    }
}

/// What the transaction-level hash covers: the message (when there is one),
/// the transaction hash, every resolved input cell with its data, and every
/// witness past the inputs.
pub open spec fn spec_tx_preimage(message: Option<CursorView>, s: InMemorySource) -> Result<Seq<u8>, CoreError> {
    let message_part = match message {
        Some(m) => spec_chunk(m, CoreError::MalformedCobuild),
        None => Ok(Seq::empty()),
    };
    let ic = s.raw_inputs@.len() as int;
    spec_then(
        message_part,
        spec_then(
            Ok(s.tx_hash@),
            spec_then(
                spec_concat_items(|i: int| spec_resolved_input_item(s, i), s.raw_inputs@.len()),
                spec_concat_items(|j: int| spec_trailing_witness_item(s, ic + j), spec_trailing_witness_count(s)),
            ),
        ),
    )
}

/// Items that agree on `0..n` concatenate to the same bytes, or fail alike.
proof fn lemma_concat_items_agree(
    f: spec_fn(int) -> Result<Seq<u8>, CoreError>,
    g: spec_fn(int) -> Result<Seq<u8>, CoreError>,
    n: nat,
)
    requires
        forall|i: int| 0 <= i < n ==> #[trigger] f(i) == g(i),
    ensures
        spec_concat_items(f, n) == spec_concat_items(g, n),
    decreases n,
{
    if n > 0 {
        lemma_concat_items_agree(f, g, (n - 1) as nat);
    }
}

/// The transaction-level preimage does not cover the witnesses at input
/// positions, where lock groups keep their seals: two sources that agree on
/// everything the preimage reads, and on every witness past the inputs, have
/// the same preimage, whatever their witnesses at input positions hold. So a
/// seal does not sign itself, and the signing hashes of both are equal.
pub proof fn tx_preimage_ignores_input_witnesses(message: Option<CursorView>, s1: InMemorySource, s2: InMemorySource)
    requires
        s1.tx_hash == s2.tx_hash,
        s1.raw_inputs@.len() == s2.raw_inputs@.len(),
        s1.resolved_outputs@ == s2.resolved_outputs@,
        s1.resolved_data@ == s2.resolved_data@,
        s1.witnesses@.len() == s2.witnesses@.len(),
        forall|j: int| s1.raw_inputs@.len() <= j < s1.witnesses@.len() ==> #[trigger] s1.witnesses@[j]@ == s2.witnesses@[j]@,
    ensures
        spec_tx_preimage(message, s1) == spec_tx_preimage(message, s2),
{
    let ic = s1.raw_inputs@.len() as int;
    let f1 = |i: int| spec_resolved_input_item(s1, i);
    let f2 = |i: int| spec_resolved_input_item(s2, i);
    lemma_concat_items_agree(f1, f2, s1.raw_inputs@.len());
    let g1 = |j: int| spec_trailing_witness_item(s1, ic + j);
    let g2 = |j: int| spec_trailing_witness_item(s2, ic + j);
    assert forall|j: int| 0 <= j < spec_trailing_witness_count(s1) implies #[trigger] g1(j) == g2(j) by {
        assert(s1.witnesses@[ic + j]@ == s2.witnesses@[ic + j]@);
    }
    lemma_concat_items_agree(g1, g2, spec_trailing_witness_count(s1));
}

fn append_resolved_inputs(out: &mut Vec<u8>, source: &InMemorySource) -> (res: Result<(), CoreError>)
    ensures
        match spec_concat_items(|i: int| spec_resolved_input_item(*source, i), source.raw_inputs@.len()) {
            Ok(b) => res is Ok && final(out)@ == old(out)@ + b,
            Err(e) => res == Err::<(), CoreError>(e),
        },
{
    let ghost item = |i: int| spec_resolved_input_item(*source, i);
    let ghost start = out@;
    let n = source.raw_inputs.len();
    let mut index: usize = 0;
    proof {
        assert(out@.subrange(start.len() as int, out@.len() as int) =~= Seq::<u8>::empty());
        assert(out@.subrange(0, start.len() as int) =~= start);
    }
    while index < n
        invariant
            n == source.raw_inputs@.len(),
            item == (|i: int| spec_resolved_input_item(*source, i)),
            0 <= index <= n,
            spec_concat_items(item, index as nat) == Ok::<Seq<u8>, CoreError>(out@.subrange(start.len() as int, out@.len() as int)),
            out@.len() >= start.len(),
            out@.subrange(0, start.len() as int) == start,
        decreases n - index,
    {
        let ghost before = out@;
        if index >= source.resolved_outputs.len() || index >= source.resolved_data.len() {
            proof {
                assert(spec_concat_items(item, (index + 1) as nat) is Err);
                lemma_concat_err_stays(item, (index + 1) as nat, n as nat);
            }
            return Err(CoreError::MissingHashInput);
        }
        append_bytes(out, source.resolved_outputs[index].as_slice());
        match append_len_prefixed(out, source.resolved_data[index].as_slice()) {
            Ok(()) => {},
            Err(e) => {
                proof {
                    assert(spec_concat_items(item, (index + 1) as nat) is Err);
                    lemma_concat_err_stays(item, (index + 1) as nat, n as nat);
                }
                return Err(e);
            },
        }
        proof {
            assert(out@.subrange(start.len() as int, out@.len() as int) =~= before.subrange(start.len() as int, before.len() as int)
                + item(index as int)->Ok_0);
            assert(out@.subrange(0, start.len() as int) =~= before.subrange(0, start.len() as int));
        }
        index = index + 1;
    }
    proof {
        assert(out@ =~= start + out@.subrange(start.len() as int, out@.len() as int));
    }
    Ok(())
}

fn append_trailing_witnesses(out: &mut Vec<u8>, source: &InMemorySource) -> (res: Result<(), CoreError>)
    ensures
        match spec_concat_items(|j: int| spec_trailing_witness_item(*source, source.raw_inputs@.len() + j), spec_trailing_witness_count(*source)) {
            Ok(b) => res is Ok && final(out)@ == old(out)@ + b,
            Err(e) => res == Err::<(), CoreError>(e),
        },
{
    let ic = source.raw_inputs.len();
    let ghost item = |j: int| spec_trailing_witness_item(*source, ic + j);
    let ghost start = out@;
    let wc = source.witnesses.len();
    let n: usize = if wc > ic { wc - ic } else { 0 };
    let mut k: usize = 0;
    proof {
        assert(out@.subrange(start.len() as int, out@.len() as int) =~= Seq::<u8>::empty());
        assert(out@.subrange(0, start.len() as int) =~= start);
    }
    while k < n
        invariant
            ic == source.raw_inputs@.len(),
            wc == source.witnesses@.len(),
            n == spec_trailing_witness_count(*source),
            n > 0 ==> ic + n == wc,
            item == (|j: int| spec_trailing_witness_item(*source, ic + j)),
            0 <= k <= n,
            spec_concat_items(item, k as nat) == Ok::<Seq<u8>, CoreError>(out@.subrange(start.len() as int, out@.len() as int)),
            out@.len() >= start.len(),
            out@.subrange(0, start.len() as int) == start,
        decreases n - k,
    {
        let ghost before = out@;
        let index = ic + k;
        match append_len_prefixed(out, source.witnesses[index].as_slice()) {
            Ok(()) => {},
            Err(e) => {
                proof {
                    assert(spec_concat_items(item, (k + 1) as nat) is Err);
                    lemma_concat_err_stays(item, (k + 1) as nat, n as nat);
                }
                return Err(e);
            },
        }
        proof {
            assert(out@.subrange(start.len() as int, out@.len() as int) =~= before.subrange(start.len() as int, before.len() as int)
                + item(k as int)->Ok_0);
            assert(out@.subrange(0, start.len() as int) =~= before.subrange(0, start.len() as int));
        }
        k = k + 1;
    }
    proof {
        assert(out@ =~= start + out@.subrange(start.len() as int, out@.len() as int));
    }
    Ok(())
}

fn tx_preimage(message: Option<&Cursor>, source: &InMemorySource) -> (res: Result<Vec<u8>, CoreError>)
    ensures
        match spec_tx_preimage(
            match message {
                Some(m) => Some(m@),
                None => None,
            },
            *source,
        ) {
            Ok(b) => res matches Ok(v) && v@ == b,
            Err(e) => res == Err::<Vec<u8>, CoreError>(e),
        },
{
    let mut out: Vec<u8> = Vec::new();
    match message {
        Some(m) => update_cursor_with_error(&mut out, m, CoreError::MalformedCobuild)?,
        None => {},
    }
    let ghost p1 = out@;
    append_bytes(&mut out, &source.tx_hash);
    let ghost p2 = out@;
    append_resolved_inputs(&mut out, source)?;
    let ghost p3 = out@;
    append_trailing_witnesses(&mut out, source)?;
    proof {
        assert(p1 == p1 + Seq::<u8>::empty() || true);
        assert(out@ =~= p1 + (source.tx_hash@ + (p3.subrange(p2.len() as int, p3.len() as int) + out@.subrange(p3.len() as int, out@.len() as int))));
    }
    Ok(out)
}

/// The transaction-level signing hash when no message is signed: blake2b-256,
/// personalized `ckbcb_tnm_core1`, over [`spec_tx_preimage`].
pub fn tx_without_message_hash(source: &InMemorySource) -> (res: Result<[u8; 32], CoreError>)
    ensures
        match spec_tx_preimage(None, *source) {
            Ok(p) => res matches Ok(h) && h@ == blake2b_personal_digest(TX_WITHOUT_MESSAGE_PERSONAL@, p),
            Err(e) => res == Err::<[u8; 32], CoreError>(e),
        },
{
    let preimage = tx_preimage(None, source)?;
    Ok(blake2b_256_personal(&TX_WITHOUT_MESSAGE_PERSONAL, preimage.as_slice()))
}

/// The transaction-level signing hash over a message: blake2b-256,
/// personalized `ckbcb_twm_core1`, over [`spec_tx_preimage`].
pub fn tx_with_message_hash(message: &Cursor, source: &InMemorySource) -> (res: Result<[u8; 32], CoreError>)
    ensures
        match spec_tx_preimage(Some(message@), *source) {
            Ok(p) => res matches Ok(h) && h@ == blake2b_personal_digest(TX_WITH_MESSAGE_PERSONAL@, p),
            Err(e) => res == Err::<[u8; 32], CoreError>(e),
        },
{
    let preimage = tx_preimage(Some(message), source)?;
    Ok(blake2b_256_personal(&TX_WITH_MESSAGE_PERSONAL, preimage.as_slice()))
}

// ---------------------------------------------------------------------------
// OTX hashes
// ---------------------------------------------------------------------------

/// `part` when `bit` is set, nothing otherwise; a missing mask bit is a layout error.
pub open spec fn spec_masked(bit: Option<bool>, part: Result<Seq<u8>, CoreError>) -> Result<Seq<u8>, CoreError> {
    match bit {
        None => Err(CoreError::InvalidOtxLayout),
        Some(false) => Ok(Seq::empty()),
        Some(true) => part,
    }
}

/// The `since` of an input cell, as eight bytes.
pub open spec fn spec_input_since(ic: CursorView) -> Result<Seq<u8>, CoreError> {
    match spec_struct_u64(ic, 0) {
        Some(v) => Ok(spec_le64_bytes(v)),
        None => Err(CoreError::MissingHashInput),
    }
}

/// The previous output of an input cell.
pub open spec fn spec_input_previous_output(ic: CursorView) -> Result<Seq<u8>, CoreError> {
    match spec_struct_slice(ic, 8, 36) {
        Some(c) => spec_chunk(c, CoreError::MissingHashInput),
        None => Err(CoreError::MissingHashInput),
    }
}

/// The fields of base input `k` its mask selects: `since`, then the previous output.
pub open spec fn spec_input_fields(o: OtxModel, ic: CursorView, k: int) -> Result<Seq<u8>, CoreError> {
    spec_then(
        spec_masked(spec_mask_bit(o.base_input_masks, k * 2), spec_input_since(ic)),
        spec_masked(spec_mask_bit(o.base_input_masks, k * 2 + 1), spec_input_previous_output(ic)),
    )
}

/// What base input `k` contributes: its local index, its `since` and its
/// previous output as the mask selects, then its resolved cell and data.
pub open spec fn spec_base_input_item(o: OtxModel, r: Range, s: InMemorySource, k: int) -> Result<Seq<u8>, CoreError> {
    match spec_checked_index(r, k) {
        None => Err(CoreError::InvalidOtxLayout),
        Some(t) => match spec_item(s.raw_inputs@, t) {
            None => Err(CoreError::MissingHashInput),
            Some(input) => spec_then(
                spec_count_bytes(k),
                spec_then(spec_input_fields(o, spec_bytes_cursor(input), k), spec_resolved_input_item(s, t)),
            ),
        },
    }
}

/// The capacity of an output cell, as eight bytes.
pub open spec fn spec_output_capacity(oc: CursorView) -> Result<Seq<u8>, CoreError> {
    match field_u64(oc, 0) {
        Some(v) => Ok(spec_le64_bytes(v)),
        None => Err(CoreError::MissingHashInput),
    }
}

/// Field `i` of an output cell, as its bytes.
pub open spec fn spec_output_field(oc: CursorView, i: int) -> Result<Seq<u8>, CoreError> {
    match oc.dynvec_item(i) {
        Some(c) => spec_chunk(c, CoreError::MissingHashInput),
        None => Err(CoreError::MissingHashInput),
    }
}

/// The length-prefixed data of output `t`.
pub open spec fn spec_output_data(s: InMemorySource, t: int) -> Result<Seq<u8>, CoreError> {
    match spec_item(s.raw_outputs_data@, t) {
        Some(d) => spec_len_prefixed(d),
        None => Err(CoreError::MissingHashInput),
    }
}

/// The capacity and lock of base output `k`, as its mask selects.
pub open spec fn spec_output_head(o: OtxModel, oc: CursorView, k: int) -> Result<Seq<u8>, CoreError> {
    spec_then(
        spec_masked(spec_mask_bit(o.base_output_masks, k * 4), spec_output_capacity(oc)),
        spec_masked(spec_mask_bit(o.base_output_masks, k * 4 + 1), spec_output_field(oc, 1)),
    )
}

/// The type and data of base output `k` (at transaction index `t`), as its mask selects.
pub open spec fn spec_output_tail(o: OtxModel, oc: CursorView, s: InMemorySource, t: int, k: int) -> Result<Seq<u8>, CoreError> {
    spec_then(
        spec_masked(spec_mask_bit(o.base_output_masks, k * 4 + 2), spec_output_field(oc, 2)),
        spec_masked(spec_mask_bit(o.base_output_masks, k * 4 + 3), spec_output_data(s, t)),
    )
}

/// What base output `k` contributes: its local index, then its capacity,
/// lock, type and data as the mask selects.
pub open spec fn spec_base_output_item(o: OtxModel, r: Range, s: InMemorySource, k: int) -> Result<Seq<u8>, CoreError> {
    match spec_checked_index(r, k) {
        None => Err(CoreError::InvalidOtxLayout),
        Some(t) => match spec_item(s.raw_outputs@, t) {
            None => Err(CoreError::MissingHashInput),
            Some(output) => spec_then(
                spec_count_bytes(k),
                spec_then(spec_output_head(o, spec_bytes_cursor(output), k), spec_output_tail(o, spec_bytes_cursor(output), s, t, k)),
            ),
        },
    }
}

/// What base cell dep `k` contributes when the mask selects it: its local index and the dep.
pub open spec fn spec_base_cell_dep_item(o: OtxModel, r: Range, s: InMemorySource, k: int) -> Result<Seq<u8>, CoreError> {
    spec_masked(
        spec_mask_bit(o.base_cell_dep_masks, k),
        match spec_checked_index(r, k) {
            None => Err(CoreError::InvalidOtxLayout),
            Some(t) => match spec_item(s.raw_cell_deps@, t) {
                None => Err(CoreError::MissingHashInput),
                Some(dep) => spec_then(spec_count_bytes(k), Ok(dep)),
            },
        },
    )
}

/// What base header dep `k` contributes when the mask selects it: its local index and the hash.
pub open spec fn spec_base_header_dep_item(o: OtxModel, r: Range, s: InMemorySource, k: int) -> Result<Seq<u8>, CoreError> {
    spec_masked(
        spec_mask_bit(o.base_header_dep_masks, k),
        match spec_checked_index(r, k) {
            None => Err(CoreError::InvalidOtxLayout),
            Some(t) => spec_then(
                spec_count_bytes(k),
                if 0 <= t < s.raw_header_deps@.len() {
                    Ok(s.raw_header_deps@[t]@)
                } else {
                    Err(CoreError::MissingHashInput)
                },
            ),
        },
    )
}

/// The base inputs part: the count, the length-prefixed mask, then each input.
#[verifier::opaque]
pub open spec fn spec_base_inputs_part(o: OtxModel, l: OtxLayoutModel, s: InMemorySource) -> Result<Seq<u8>, CoreError> {
    spec_then(
        spec_then(spec_count_bytes(o.base_input_cells), spec_len_prefixed(o.base_input_masks)),
        spec_concat_items(|k: int| spec_base_input_item(o, l.base_inputs, s, k), o.base_input_cells as nat),
    )
}

/// The base outputs part: the count, the length-prefixed mask, then each output.
#[verifier::opaque]
pub open spec fn spec_base_outputs_part(o: OtxModel, l: OtxLayoutModel, s: InMemorySource) -> Result<Seq<u8>, CoreError> {
    spec_then(
        spec_then(spec_count_bytes(o.base_output_cells), spec_len_prefixed(o.base_output_masks)),
        spec_concat_items(|k: int| spec_base_output_item(o, l.base_outputs, s, k), o.base_output_cells as nat),
    )
}

/// The base cell deps part: the count, the length-prefixed mask, then each selected dep.
#[verifier::opaque]
pub open spec fn spec_base_cell_deps_part(o: OtxModel, l: OtxLayoutModel, s: InMemorySource) -> Result<Seq<u8>, CoreError> {
    spec_then(
        spec_then(spec_count_bytes(o.base_cell_deps), spec_len_prefixed(o.base_cell_dep_masks)),
        spec_concat_items(|k: int| spec_base_cell_dep_item(o, l.base_cell_deps, s, k), o.base_cell_deps as nat),
    )
}

/// The base header deps part: the count, the length-prefixed mask, then each selected header.
#[verifier::opaque]
pub open spec fn spec_base_header_deps_part(o: OtxModel, l: OtxLayoutModel, s: InMemorySource) -> Result<Seq<u8>, CoreError> {
    spec_then(
        spec_then(spec_count_bytes(o.base_header_deps), spec_len_prefixed(o.base_header_dep_masks)),
        spec_concat_items(|k: int| spec_base_header_dep_item(o, l.base_header_deps, s, k), o.base_header_deps as nat),
    )
}

/// What the OTX base hash covers: the message, the append permissions, and
/// the base inputs, outputs, cell deps and header deps with their masks.
pub open spec fn spec_otx_base_preimage(o: OtxModel, l: OtxLayoutModel, s: InMemorySource) -> Result<Seq<u8>, CoreError> {
    spec_then(
        spec_chunk(o.message, CoreError::MalformedCobuild),
        spec_then(
            Ok(seq![o.append_permissions]),
            spec_then(
                spec_base_inputs_part(o, l, s),
                spec_then(
                    spec_base_outputs_part(o, l, s),
                    spec_then(spec_base_cell_deps_part(o, l, s), spec_base_header_deps_part(o, l, s)),
                ),
            ),
        ),
    )
}

/// Two OTXs with their layouts agree on everything the base hash reads: the
/// message, the append permissions, the base counts and masks, and the base ranges.
pub open spec fn spec_same_base(o1: OtxModel, l1: OtxLayoutModel, o2: OtxModel, l2: OtxLayoutModel) -> bool {
    &&& o1.message == o2.message
    &&& o1.append_permissions == o2.append_permissions
    &&& o1.base_input_cells == o2.base_input_cells
    &&& o1.base_input_masks == o2.base_input_masks
    &&& o1.base_output_cells == o2.base_output_cells
    &&& o1.base_output_masks == o2.base_output_masks
    &&& o1.base_cell_deps == o2.base_cell_deps
    &&& o1.base_cell_dep_masks == o2.base_cell_dep_masks
    &&& o1.base_header_deps == o2.base_header_deps
    &&& o1.base_header_dep_masks == o2.base_header_dep_masks
    &&& l1.base_inputs == l2.base_inputs
    &&& l1.base_outputs == l2.base_outputs
    &&& l1.base_cell_deps == l2.base_cell_deps
    &&& l1.base_header_deps == l2.base_header_deps
}

/// The base hash of an OTX covers its base part only: OTXs that differ only in
/// their append segments, their seals or their appended ranges have the same
/// base preimage, so a base signature stays valid when entities are appended.
pub proof fn otx_base_preimage_ignores_appends(o1: OtxModel, l1: OtxLayoutModel, o2: OtxModel, l2: OtxLayoutModel, s: InMemorySource)
    requires
        spec_same_base(o1, l1, o2, l2),
    ensures
        spec_otx_base_preimage(o1, l1, s) == spec_otx_base_preimage(o2, l2, s),
{
    reveal(spec_base_inputs_part);
    reveal(spec_base_outputs_part);
    reveal(spec_base_cell_deps_part);
    reveal(spec_base_header_deps_part);
    assert((|k: int| spec_base_input_item(o1, l1.base_inputs, s, k)) =~= (|k: int| spec_base_input_item(o2, l2.base_inputs, s, k)));
    assert((|k: int| spec_base_output_item(o1, l1.base_outputs, s, k)) =~= (|k: int| spec_base_output_item(o2, l2.base_outputs, s, k)));
    assert((|k: int| spec_base_cell_dep_item(o1, l1.base_cell_deps, s, k)) =~= (|k: int| spec_base_cell_dep_item(o2, l2.base_cell_deps, s, k)));
    assert((|k: int| spec_base_header_dep_item(o1, l1.base_header_deps, s, k)) =~= (|k: int| spec_base_header_dep_item(o2, l2.base_header_deps, s, k)));
}

/// Field `f` of base item `k` is selected by `mask` at bit `bit`.
pub open spec fn spec_selected(mask: Seq<u8>, bit: int) -> bool {
    spec_mask_bit(mask, bit) == Some(true)
}

/// Two sources agree on what base input `k` of an OTX signs: the input
/// exists in both or neither, its resolved cell and data match, and its
/// `since` and previous output match where the mask selects them.
pub open spec fn spec_same_signed_input(o: OtxModel, r: Range, s1: InMemorySource, s2: InMemorySource, k: int) -> bool {
    match spec_checked_index(r, k) {
        None => true,
        Some(t) => {
            &&& spec_item(s1.raw_inputs@, t) is Some <==> spec_item(s2.raw_inputs@, t) is Some
            &&& spec_resolved_input_item(s1, t) == spec_resolved_input_item(s2, t)
            &&& (spec_item(s1.raw_inputs@, t) matches Some(i1) && spec_item(s2.raw_inputs@, t) matches Some(i2) ==> {
                &&& spec_selected(o.base_input_masks, k * 2) ==> spec_input_since(spec_bytes_cursor(i1)) == spec_input_since(
                    spec_bytes_cursor(i2),
                )
                &&& spec_selected(o.base_input_masks, k * 2 + 1) ==> spec_input_previous_output(spec_bytes_cursor(i1))
                    == spec_input_previous_output(spec_bytes_cursor(i2))
            })
        },
    }
}

/// Two sources agree on what base output `k` of an OTX signs: the output
/// exists in both or neither, and its capacity, lock, type and data match
/// where the mask selects them.
pub open spec fn spec_same_signed_output(o: OtxModel, r: Range, s1: InMemorySource, s2: InMemorySource, k: int) -> bool {
    match spec_checked_index(r, k) {
        None => true,
        Some(t) => {
            &&& spec_item(s1.raw_outputs@, t) is Some <==> spec_item(s2.raw_outputs@, t) is Some
            &&& (spec_item(s1.raw_outputs@, t) matches Some(c1) && spec_item(s2.raw_outputs@, t) matches Some(c2) ==> {
                let (oc1, oc2) = (spec_bytes_cursor(c1), spec_bytes_cursor(c2));
                &&& spec_selected(o.base_output_masks, k * 4) ==> spec_output_capacity(oc1) == spec_output_capacity(oc2)
                &&& spec_selected(o.base_output_masks, k * 4 + 1) ==> spec_output_field(oc1, 1) == spec_output_field(oc2, 1)
                &&& spec_selected(o.base_output_masks, k * 4 + 2) ==> spec_output_field(oc1, 2) == spec_output_field(oc2, 2)
                &&& spec_selected(o.base_output_masks, k * 4 + 3) ==> spec_output_data(s1, t) == spec_output_data(s2, t)
            })
        },
    }
}

/// Two sources agree on what an OTX's base hash signs of them: every base
/// input and output field its masks select, and every base cell dep and
/// header dep its masks select. Fields the masks leave out may differ.
pub open spec fn spec_same_signed_base(o: OtxModel, l: OtxLayoutModel, s1: InMemorySource, s2: InMemorySource) -> bool {
    &&& forall|k: int| 0 <= k < o.base_input_cells as nat ==> #[trigger] spec_same_signed_input(o, l.base_inputs, s1, s2, k)
    &&& forall|k: int| 0 <= k < o.base_output_cells as nat ==> #[trigger] spec_same_signed_output(o, l.base_outputs, s1, s2, k)
    &&& forall|k: int|
        0 <= k < o.base_cell_deps as nat && spec_selected(o.base_cell_dep_masks, k) ==> #[trigger] spec_base_cell_dep_item(
            o,
            l.base_cell_deps,
            s1,
            k,
        ) == spec_base_cell_dep_item(o, l.base_cell_deps, s2, k)
    &&& forall|k: int|
        0 <= k < o.base_header_deps as nat && spec_selected(o.base_header_dep_masks, k) ==> #[trigger] spec_base_header_dep_item(
            o,
            l.base_header_deps,
            s1,
            k,
        ) == spec_base_header_dep_item(o, l.base_header_deps, s2, k)
}

proof fn lemma_inputs_part_agree(o: OtxModel, l: OtxLayoutModel, s1: InMemorySource, s2: InMemorySource)
    requires
        forall|k: int| 0 <= k < o.base_input_cells as nat ==> #[trigger] spec_same_signed_input(o, l.base_inputs, s1, s2, k),
    ensures
        spec_base_inputs_part(o, l, s1) == spec_base_inputs_part(o, l, s2),
{
    reveal(spec_base_inputs_part);
    let f1 = |k: int| spec_base_input_item(o, l.base_inputs, s1, k);
    let f2 = |k: int| spec_base_input_item(o, l.base_inputs, s2, k);
    assert forall|k: int| 0 <= k < o.base_input_cells as nat implies #[trigger] f1(k) == f2(k) by {
        assert(spec_same_signed_input(o, l.base_inputs, s1, s2, k));
    }
    lemma_concat_items_agree(f1, f2, o.base_input_cells as nat);
}

proof fn lemma_outputs_part_agree(o: OtxModel, l: OtxLayoutModel, s1: InMemorySource, s2: InMemorySource)
    requires
        forall|k: int| 0 <= k < o.base_output_cells as nat ==> #[trigger] spec_same_signed_output(o, l.base_outputs, s1, s2, k),
    ensures
        spec_base_outputs_part(o, l, s1) == spec_base_outputs_part(o, l, s2),
{
    reveal(spec_base_outputs_part);
    let f1 = |k: int| spec_base_output_item(o, l.base_outputs, s1, k);
    let f2 = |k: int| spec_base_output_item(o, l.base_outputs, s2, k);
    assert forall|k: int| 0 <= k < o.base_output_cells as nat implies #[trigger] f1(k) == f2(k) by {
        assert(spec_same_signed_output(o, l.base_outputs, s1, s2, k));
    }
    lemma_concat_items_agree(f1, f2, o.base_output_cells as nat);
}

proof fn lemma_deps_parts_agree(o: OtxModel, l: OtxLayoutModel, s1: InMemorySource, s2: InMemorySource)
    requires
        spec_same_signed_base(o, l, s1, s2),
    ensures
        spec_base_cell_deps_part(o, l, s1) == spec_base_cell_deps_part(o, l, s2),
        spec_base_header_deps_part(o, l, s1) == spec_base_header_deps_part(o, l, s2),
{
    reveal(spec_base_cell_deps_part);
    reveal(spec_base_header_deps_part);
    let fc1 = |k: int| spec_base_cell_dep_item(o, l.base_cell_deps, s1, k);
    let fc2 = |k: int| spec_base_cell_dep_item(o, l.base_cell_deps, s2, k);
    assert forall|k: int| 0 <= k < o.base_cell_deps as nat implies #[trigger] fc1(k) == fc2(k) by {
        if spec_selected(o.base_cell_dep_masks, k) {
            assert(spec_base_cell_dep_item(o, l.base_cell_deps, s1, k) == spec_base_cell_dep_item(o, l.base_cell_deps, s2, k));
        }
    }
    lemma_concat_items_agree(fc1, fc2, o.base_cell_deps as nat);
    let fh1 = |k: int| spec_base_header_dep_item(o, l.base_header_deps, s1, k);
    let fh2 = |k: int| spec_base_header_dep_item(o, l.base_header_deps, s2, k);
    assert forall|k: int| 0 <= k < o.base_header_deps as nat implies #[trigger] fh1(k) == fh2(k) by {
        if spec_selected(o.base_header_dep_masks, k) {
            assert(spec_base_header_dep_item(o, l.base_header_deps, s1, k) == spec_base_header_dep_item(o, l.base_header_deps, s2, k));
        }
    }
    lemma_concat_items_agree(fh1, fh2, o.base_header_deps as nat);
}

/// A field the masks leave out does not enter the OTX base hash: two sources
/// that agree on every field the masks select have the same base preimage,
/// however they differ elsewhere.
pub proof fn otx_base_preimage_ignores_unselected_fields(o: OtxModel, l: OtxLayoutModel, s1: InMemorySource, s2: InMemorySource)
    requires
        spec_same_signed_base(o, l, s1, s2),
    ensures
        spec_otx_base_preimage(o, l, s1) == spec_otx_base_preimage(o, l, s2),
{
    lemma_inputs_part_agree(o, l, s1, s2);
    lemma_outputs_part_agree(o, l, s1, s2);
    lemma_deps_parts_agree(o, l, s1, s2);
}

/// What appended input `k` of the range contributes: its local index, the raw input, its resolved cell and data.
pub open spec fn spec_append_input_item(r: Range, s: InMemorySource, k: int) -> Result<Seq<u8>, CoreError> {
    match spec_checked_index(r, k) {
        None => Err(CoreError::InvalidOtxLayout),
        Some(t) => match spec_item(s.raw_inputs@, t) {
            None => Err(CoreError::MissingHashInput),
            Some(input) => spec_then(spec_count_bytes(k), spec_then(Ok(input), spec_resolved_input_item(s, t))),
        },
    }
}

/// What appended output `k` of the range contributes: its local index, the raw output and its length-prefixed data.
pub open spec fn spec_append_output_item(r: Range, s: InMemorySource, k: int) -> Result<Seq<u8>, CoreError> {
    match spec_checked_index(r, k) {
        None => Err(CoreError::InvalidOtxLayout),
        Some(t) => spec_then(
            spec_count_bytes(k),
            match spec_item(s.raw_outputs@, t) {
                None => Err(CoreError::MissingHashInput),
                Some(output) => spec_then(Ok(output), spec_output_data(s, t)),
            },
        ),
    }
}

/// What appended cell dep `k` of the range contributes: its local index and the raw dep.
pub open spec fn spec_append_cell_dep_item(r: Range, s: InMemorySource, k: int) -> Result<Seq<u8>, CoreError> {
    match spec_checked_index(r, k) {
        None => Err(CoreError::InvalidOtxLayout),
        Some(t) => spec_then(
            spec_count_bytes(k),
            match spec_item(s.raw_cell_deps@, t) {
                None => Err(CoreError::MissingHashInput),
                Some(dep) => Ok(dep),
            },
        ),
    }
}

/// What appended header dep `k` of the range contributes: its local index and the header hash.
pub open spec fn spec_append_header_dep_item(r: Range, s: InMemorySource, k: int) -> Result<Seq<u8>, CoreError> {
    match spec_checked_index(r, k) {
        None => Err(CoreError::InvalidOtxLayout),
        Some(t) => spec_then(
            spec_count_bytes(k),
            if 0 <= t < s.raw_header_deps@.len() {
                Ok(s.raw_header_deps@[t]@)
            } else {
                Err(CoreError::MissingHashInput)
            },
        ),
    }
}

/// One group of appended entities: the count, then each entity.
#[verifier::opaque]
pub open spec fn spec_append_group(count: int, items: Result<Seq<u8>, CoreError>) -> Result<Seq<u8>, CoreError> {
    spec_then(spec_count_bytes(count), items)
}

/// What an append hash covers: the message, the base hash, then the appended
/// inputs, outputs, cell deps and header deps of the given ranges.
pub open spec fn spec_append_preimage(
    message: CursorView,
    base_hash: Seq<u8>,
    inputs: Range,
    outputs: Range,
    cell_deps: Range,
    header_deps: Range,
    s: InMemorySource,
) -> Result<Seq<u8>, CoreError> {
    spec_then(
        spec_chunk(message, CoreError::MalformedCobuild),
        spec_then(
            Ok(base_hash),
            spec_then(
                spec_append_group(inputs.count as int, spec_concat_items(|k: int| spec_append_input_item(inputs, s, k), inputs.count as nat)),
                spec_then(
                    spec_append_group(outputs.count as int, spec_concat_items(|k: int| spec_append_output_item(outputs, s, k), outputs.count as nat)),
                    spec_then(
                        spec_append_group(cell_deps.count as int, spec_concat_items(|k: int| spec_append_cell_dep_item(cell_deps, s, k), cell_deps.count as nat)),
                        spec_append_group(header_deps.count as int, spec_concat_items(|k: int| spec_append_header_dep_item(header_deps, s, k), header_deps.count as nat)),
                    ),
                ),
            ),
        ),
    )
}

/// An append hash commits to the base hash: right after the message, its
/// preimage holds the base hash of the OTX it extends.
pub proof fn append_preimage_commits_to_base_hash(
    message: CursorView,
    base_hash: Seq<u8>,
    inputs: Range,
    outputs: Range,
    cell_deps: Range,
    header_deps: Range,
    s: InMemorySource,
)
    requires
        spec_append_preimage(message, base_hash, inputs, outputs, cell_deps, header_deps, s) is Ok,
    ensures
        ({
            let p = spec_append_preimage(message, base_hash, inputs, outputs, cell_deps, header_deps, s)->Ok_0;
            let m = message.bytes().len() as int;
            &&& message.readable()
            &&& p.subrange(0, m) == message.bytes()
            &&& p.subrange(m, m + base_hash.len()) == base_hash
        }),
{
    let p = spec_append_preimage(message, base_hash, inputs, outputs, cell_deps, header_deps, s)->Ok_0;
    let m = message.bytes();
    let rest = p.subrange((m.len() + base_hash.len()) as int, p.len() as int);
    assert(p == m + (base_hash + rest)) by {
        let tail = spec_then(
            Ok(base_hash),
            spec_then(
                spec_append_group(inputs.count as int, spec_concat_items(|k: int| spec_append_input_item(inputs, s, k), inputs.count as nat)),
                spec_then(
                    spec_append_group(outputs.count as int, spec_concat_items(|k: int| spec_append_output_item(outputs, s, k), outputs.count as nat)),
                    spec_then(
                        spec_append_group(cell_deps.count as int, spec_concat_items(|k: int| spec_append_cell_dep_item(cell_deps, s, k), cell_deps.count as nat)),
                        spec_append_group(header_deps.count as int, spec_concat_items(|k: int| spec_append_header_dep_item(header_deps, s, k), header_deps.count as nat)),
                    ),
                ),
            ),
        )->Ok_0;
        assert(p == m + tail);
        assert(tail.subrange(0, base_hash.len() as int) =~= base_hash);
        assert(tail =~= base_hash + tail.subrange(base_hash.len() as int, tail.len() as int));
        assert(p.subrange((m.len() + base_hash.len()) as int, p.len() as int) =~= tail.subrange(base_hash.len() as int, tail.len() as int));
    }
    assert(p.subrange(0, m.len() as int) =~= m);
    assert(p.subrange(m.len() as int, (m.len() + base_hash.len()) as int) =~= base_hash);
}

fn checked_index(range: Range, local_index: usize) -> (res: Result<usize, CoreError>)
    ensures
        match spec_checked_index(range, local_index as int) {
            Some(t) => res == Ok::<usize, CoreError>(t as usize),
            None => res == Err::<usize, CoreError>(CoreError::InvalidOtxLayout),
        },
{
    if local_index >= range.count {
        return Err(CoreError::InvalidOtxLayout);
    }
    if range.start > usize::MAX - local_index {
        return Err(CoreError::InvalidOtxLayout);
    }
    Ok(range.start + local_index)
}

fn write_resolved_input(out: &mut Vec<u8>, source: &InMemorySource, t: usize) -> (res: Result<(), CoreError>)
    ensures
        match spec_resolved_input_item(*source, t as int) {
            Ok(b) => res is Ok && final(out)@ == old(out)@ + b,
            Err(e) => res == Err::<(), CoreError>(e),
        },
{
    if t >= source.resolved_outputs.len() || t >= source.resolved_data.len() {
        return Err(CoreError::MissingHashInput);
    }
    let ghost o0 = out@;
    append_bytes(out, source.resolved_outputs[t].as_slice());
    let ghost o1 = out@;
    append_len_prefixed(out, source.resolved_data[t].as_slice())?;
    proof {
        assert(out@ =~= o0 + (source.resolved_outputs@[t as int]@ + out@.subrange(o1.len() as int, out@.len() as int)));
    }
    Ok(())
}

fn write_input_since(out: &mut Vec<u8>, input: &CellInput) -> (res: Result<(), CoreError>)
    ensures
        match spec_input_since(input.cursor@) {
            Ok(b) => res is Ok && final(out)@ == old(out)@ + b,
            Err(e) => res == Err::<(), CoreError>(e),
        },
{
    let since = match input.since() {
        Ok(v) => v,
        Err(_) => return Err(CoreError::MissingHashInput),
    };
    append_bytes(out, &u64_le_bytes(since));
    Ok(())
}

fn write_input_previous_output(out: &mut Vec<u8>, input: &CellInput) -> (res: Result<(), CoreError>)
    ensures
        match spec_input_previous_output(input.cursor@) {
            Ok(b) => res is Ok && final(out)@ == old(out)@ + b,
            Err(e) => res == Err::<(), CoreError>(e),
        },
{
    let previous_output = match input.previous_output() {
        Ok(c) => c,
        Err(_) => return Err(CoreError::MissingHashInput),
    };
    update_cursor_with_error(out, &previous_output, CoreError::MissingHashInput)
}

fn write_input_fields(out: &mut Vec<u8>, otx: &OtxView, input: &CellInput, k: usize) -> (res: Result<(), CoreError>)
    requires
        k < otx.base_input_cells,
        otx.base_input_cells * 2 <= usize::MAX,
    ensures
        match spec_input_fields(otx@, input.cursor@, k as int) {
            Ok(b) => res is Ok && final(out)@ == old(out)@ + b,
            Err(e) => res == Err::<(), CoreError>(e),
        },
{
    let ghost o0 = out@;
    if otx.base_input_masks.get(k * 2)? {
        write_input_since(out, input)?;
    }
    let ghost o1 = out@;
    if otx.base_input_masks.get(k * 2 + 1)? {
        write_input_previous_output(out, input)?;
    }
    proof {
        assert(out@ =~= o0 + (o1.subrange(o0.len() as int, o1.len() as int) + out@.subrange(o1.len() as int, out@.len() as int)));
    }
    Ok(())
}

fn write_base_input_item(out: &mut Vec<u8>, otx: &OtxView, layout: &OtxLayout, source: &InMemorySource, k: usize) -> (res: Result<(), CoreError>)
    requires
        k < otx.base_input_cells,
        otx.base_input_cells * 2 <= usize::MAX,
    ensures
        match spec_base_input_item(otx@, layout.base_inputs, *source, k as int) {
            Ok(b) => res is Ok && final(out)@ == old(out)@ + b,
            Err(e) => res == Err::<(), CoreError>(e),
        },
{
    let tx_index = checked_index(layout.base_inputs, k)?;
    if tx_index >= source.raw_inputs.len() {
        return Err(CoreError::MissingHashInput);
    }
    let input = CellInput::from_cursor(crate::reader::cursor_from_slice(source.raw_inputs[tx_index].as_slice()));
    let ghost o0 = out@;
    append_count(out, k)?;
    let ghost o1 = out@;
    write_input_fields(out, otx, &input, k)?;
    let ghost o2 = out@;
    write_resolved_input(out, source, tx_index)?;
    proof {
        assert(out@ =~= o0 + (o1.subrange(o0.len() as int, o1.len() as int) + (o2.subrange(o1.len() as int, o2.len() as int)
            + out@.subrange(o2.len() as int, out@.len() as int))));
    }
    Ok(())
}

fn write_output_capacity(out: &mut Vec<u8>, output: &CellOutput) -> (res: Result<(), CoreError>)
    ensures
        match spec_output_capacity(output.cursor@) {
            Ok(b) => res is Ok && final(out)@ == old(out)@ + b,
            Err(e) => res == Err::<(), CoreError>(e),
        },
{
    let capacity = match output.capacity() {
        Ok(v) => v,
        Err(_) => return Err(CoreError::MissingHashInput),
    };
    append_bytes(out, &u64_le_bytes(capacity));
    Ok(())
}

fn write_output_lock(out: &mut Vec<u8>, output: &CellOutput) -> (res: Result<(), CoreError>)
    ensures
        match spec_output_field(output.cursor@, 1) {
            Ok(b) => res is Ok && final(out)@ == old(out)@ + b,
            Err(e) => res == Err::<(), CoreError>(e),
        },
{
    let lock = match output.lock() {
        Ok(l) => l,
        Err(_) => return Err(CoreError::MissingHashInput),
    };
    update_cursor_with_error(out, &lock.cursor, CoreError::MissingHashInput)
}

fn write_output_type(out: &mut Vec<u8>, output: &CellOutput) -> (res: Result<(), CoreError>)
    ensures
        match spec_output_field(output.cursor@, 2) {
            Ok(b) => res is Ok && final(out)@ == old(out)@ + b,
            Err(e) => res == Err::<(), CoreError>(e),
        },
{
    let type_cursor = match output.cursor.table_slice_by_index(2) {
        Ok(c) => c,
        Err(_) => return Err(CoreError::MissingHashInput),
    };
    update_cursor_with_error(out, &type_cursor, CoreError::MissingHashInput)
}

fn write_output_data(out: &mut Vec<u8>, source: &InMemorySource, t: usize) -> (res: Result<(), CoreError>)
    ensures
        match spec_output_data(*source, t as int) {
            Ok(b) => res is Ok && final(out)@ == old(out)@ + b,
            Err(e) => res == Err::<(), CoreError>(e),
        },
{
    if t >= source.raw_outputs_data.len() {
        return Err(CoreError::MissingHashInput);
    }
    append_len_prefixed(out, source.raw_outputs_data[t].as_slice())
}

fn write_output_head(out: &mut Vec<u8>, otx: &OtxView, output: &CellOutput, k: usize) -> (res: Result<(), CoreError>)
    requires
        k < otx.base_output_cells,
        otx.base_output_cells * 4 <= usize::MAX,
    ensures
        match spec_output_head(otx@, output.cursor@, k as int) {
            Ok(b) => res is Ok && final(out)@ == old(out)@ + b,
            Err(e) => res == Err::<(), CoreError>(e),
        },
{
    let ghost o0 = out@;
    if otx.base_output_masks.get(k * 4)? {
        write_output_capacity(out, output)?;
    }
    let ghost o1 = out@;
    if otx.base_output_masks.get(k * 4 + 1)? {
        write_output_lock(out, output)?;
    }
    proof {
        assert(out@ =~= o0 + (o1.subrange(o0.len() as int, o1.len() as int) + out@.subrange(o1.len() as int, out@.len() as int)));
    }
    Ok(())
}

fn write_output_tail(out: &mut Vec<u8>, otx: &OtxView, output: &CellOutput, source: &InMemorySource, t: usize, k: usize) -> (res: Result<(), CoreError>)
    requires
        k < otx.base_output_cells,
        otx.base_output_cells * 4 <= usize::MAX,
    ensures
        match spec_output_tail(otx@, output.cursor@, *source, t as int, k as int) {
            Ok(b) => res is Ok && final(out)@ == old(out)@ + b,
            Err(e) => res == Err::<(), CoreError>(e),
        },
{
    let ghost o0 = out@;
    if otx.base_output_masks.get(k * 4 + 2)? {
        write_output_type(out, output)?;
    }
    let ghost o1 = out@;
    if otx.base_output_masks.get(k * 4 + 3)? {
        write_output_data(out, source, t)?;
    }
    proof {
        assert(out@ =~= o0 + (o1.subrange(o0.len() as int, o1.len() as int) + out@.subrange(o1.len() as int, out@.len() as int)));
    }
    Ok(())
}

fn write_base_output_item(out: &mut Vec<u8>, otx: &OtxView, layout: &OtxLayout, source: &InMemorySource, k: usize) -> (res: Result<(), CoreError>)
    requires
        k < otx.base_output_cells,
        otx.base_output_cells * 4 <= usize::MAX,
    ensures
        match spec_base_output_item(otx@, layout.base_outputs, *source, k as int) {
            Ok(b) => res is Ok && final(out)@ == old(out)@ + b,
            Err(e) => res == Err::<(), CoreError>(e),
        },
{
    let tx_index = checked_index(layout.base_outputs, k)?;
    if tx_index >= source.raw_outputs.len() {
        return Err(CoreError::MissingHashInput);
    }
    let output = CellOutput::from_cursor(crate::reader::cursor_from_slice(source.raw_outputs[tx_index].as_slice()));
    let ghost o0 = out@;
    append_count(out, k)?;
    let ghost o1 = out@;
    write_output_head(out, otx, &output, k)?;
    let ghost o2 = out@;
    write_output_tail(out, otx, &output, source, tx_index, k)?;
    proof {
        assert(out@ =~= o0 + (o1.subrange(o0.len() as int, o1.len() as int) + (o2.subrange(o1.len() as int, o2.len() as int)
            + out@.subrange(o2.len() as int, out@.len() as int))));
    }
    Ok(())
}

fn write_base_cell_dep_item(out: &mut Vec<u8>, otx: &OtxView, layout: &OtxLayout, source: &InMemorySource, k: usize) -> (res: Result<(), CoreError>)
    ensures
        match spec_base_cell_dep_item(otx@, layout.base_cell_deps, *source, k as int) {
            Ok(b) => res is Ok && final(out)@ == old(out)@ + b,
            Err(e) => res == Err::<(), CoreError>(e),
        },
{
    if otx.base_cell_dep_masks.get(k)? {
        let tx_index = checked_index(layout.base_cell_deps, k)?;
        if tx_index >= source.raw_cell_deps.len() {
            return Err(CoreError::MissingHashInput);
        }
        let ghost o0 = out@;
        append_count(out, k)?;
        let ghost o1 = out@;
        append_bytes(out, source.raw_cell_deps[tx_index].as_slice());
        proof {
            assert(out@ =~= o0 + (o1.subrange(o0.len() as int, o1.len() as int) + source.raw_cell_deps@[tx_index as int]@));
        }
    }
    proof {
        assert(old(out)@ + Seq::<u8>::empty() =~= old(out)@);
    }
    Ok(())
}

fn write_base_header_dep_item(out: &mut Vec<u8>, otx: &OtxView, layout: &OtxLayout, source: &InMemorySource, k: usize) -> (res: Result<(), CoreError>)
    ensures
        match spec_base_header_dep_item(otx@, layout.base_header_deps, *source, k as int) {
            Ok(b) => res is Ok && final(out)@ == old(out)@ + b,
            Err(e) => res == Err::<(), CoreError>(e),
        },
{
    if otx.base_header_dep_masks.get(k)? {
        let tx_index = checked_index(layout.base_header_deps, k)?;
        let ghost o0 = out@;
        append_count(out, k)?;
        let ghost o1 = out@;
        if tx_index >= source.raw_header_deps.len() {
            return Err(CoreError::MissingHashInput);
        }
        append_bytes(out, &source.raw_header_deps[tx_index]);
        proof {
            assert(out@ =~= o0 + (o1.subrange(o0.len() as int, o1.len() as int) + source.raw_header_deps@[tx_index as int]@));
        }
    }
    proof {
        assert(old(out)@ + Seq::<u8>::empty() =~= old(out)@);
    }
    Ok(())
}

fn write_base_input_items(out: &mut Vec<u8>, otx: &OtxView, layout: &OtxLayout, source: &InMemorySource) -> (res: Result<(), CoreError>)
    requires
        otx.base_input_cells * 2 <= usize::MAX,
    ensures
        match spec_concat_items(|k: int| spec_base_input_item(otx@, layout.base_inputs, *source, k), otx.base_input_cells as nat) {
            Ok(b) => res is Ok && final(out)@ == old(out)@ + b,
            Err(e) => res == Err::<(), CoreError>(e),
        },
{
    let ghost item = |k: int| spec_base_input_item(otx@, layout.base_inputs, *source, k);
    let ghost start = out@;
    let n = otx.base_input_cells;
    let mut k: usize = 0;
    proof {
        assert(out@.subrange(start.len() as int, out@.len() as int) =~= Seq::<u8>::empty());
        assert(out@.subrange(0, start.len() as int) =~= start);
    }
    while k < n
        invariant
            n == otx.base_input_cells,
            otx.base_input_cells * 2 <= usize::MAX,
            item == (|k: int| spec_base_input_item(otx@, layout.base_inputs, *source, k)),
            0 <= k <= n,
            spec_concat_items(item, k as nat) == Ok::<Seq<u8>, CoreError>(out@.subrange(start.len() as int, out@.len() as int)),
            out@.len() >= start.len(),
            out@.subrange(0, start.len() as int) == start,
        decreases n - k,
    {
        let ghost before = out@;
        match write_base_input_item(out, otx, layout, source, k) {
            Ok(()) => {},
            Err(e) => {
                proof {
                    assert(spec_concat_items(item, (k + 1) as nat) is Err);
                    lemma_concat_err_stays(item, (k + 1) as nat, n as nat);
                }
                return Err(e);
            },
        }
        proof {
            assert(out@.subrange(start.len() as int, out@.len() as int) =~= before.subrange(start.len() as int, before.len() as int)
                + item(k as int)->Ok_0);
            assert(out@.subrange(0, start.len() as int) =~= before.subrange(0, start.len() as int));
        }
        k = k + 1;
    }
    proof {
        assert(out@ =~= start + out@.subrange(start.len() as int, out@.len() as int));
    }
    Ok(())
}

fn write_base_output_items(out: &mut Vec<u8>, otx: &OtxView, layout: &OtxLayout, source: &InMemorySource) -> (res: Result<(), CoreError>)
    requires
        otx.base_output_cells * 4 <= usize::MAX,
    ensures
        match spec_concat_items(|k: int| spec_base_output_item(otx@, layout.base_outputs, *source, k), otx.base_output_cells as nat) {
            Ok(b) => res is Ok && final(out)@ == old(out)@ + b,
            Err(e) => res == Err::<(), CoreError>(e),
        },
{
    let ghost item = |k: int| spec_base_output_item(otx@, layout.base_outputs, *source, k);
    let ghost start = out@;
    let n = otx.base_output_cells;
    let mut k: usize = 0;
    proof {
        assert(out@.subrange(start.len() as int, out@.len() as int) =~= Seq::<u8>::empty());
        assert(out@.subrange(0, start.len() as int) =~= start);
    }
    while k < n
        invariant
            n == otx.base_output_cells,
            otx.base_output_cells * 4 <= usize::MAX,
            item == (|k: int| spec_base_output_item(otx@, layout.base_outputs, *source, k)),
            0 <= k <= n,
            spec_concat_items(item, k as nat) == Ok::<Seq<u8>, CoreError>(out@.subrange(start.len() as int, out@.len() as int)),
            out@.len() >= start.len(),
            out@.subrange(0, start.len() as int) == start,
        decreases n - k,
    {
        let ghost before = out@;
        match write_base_output_item(out, otx, layout, source, k) {
            Ok(()) => {},
            Err(e) => {
                proof {
                    assert(spec_concat_items(item, (k + 1) as nat) is Err);
                    lemma_concat_err_stays(item, (k + 1) as nat, n as nat);
                }
                return Err(e);
            },
        }
        proof {
            assert(out@.subrange(start.len() as int, out@.len() as int) =~= before.subrange(start.len() as int, before.len() as int)
                + item(k as int)->Ok_0);
            assert(out@.subrange(0, start.len() as int) =~= before.subrange(0, start.len() as int));
        }
        k = k + 1;
    }
    proof {
        assert(out@ =~= start + out@.subrange(start.len() as int, out@.len() as int));
    }
    Ok(())
}

fn write_base_cell_dep_items(out: &mut Vec<u8>, otx: &OtxView, layout: &OtxLayout, source: &InMemorySource) -> (res: Result<(), CoreError>)
    requires
        true,
    ensures
        match spec_concat_items(|k: int| spec_base_cell_dep_item(otx@, layout.base_cell_deps, *source, k), otx.base_cell_deps as nat) {
            Ok(b) => res is Ok && final(out)@ == old(out)@ + b,
            Err(e) => res == Err::<(), CoreError>(e),
        },
{
    let ghost item = |k: int| spec_base_cell_dep_item(otx@, layout.base_cell_deps, *source, k);
    let ghost start = out@;
    let n = otx.base_cell_deps;
    let mut k: usize = 0;
    proof {
        assert(out@.subrange(start.len() as int, out@.len() as int) =~= Seq::<u8>::empty());
        assert(out@.subrange(0, start.len() as int) =~= start);
    }
    while k < n
        invariant
            n == otx.base_cell_deps,
            true,
            item == (|k: int| spec_base_cell_dep_item(otx@, layout.base_cell_deps, *source, k)),
            0 <= k <= n,
            spec_concat_items(item, k as nat) == Ok::<Seq<u8>, CoreError>(out@.subrange(start.len() as int, out@.len() as int)),
            out@.len() >= start.len(),
            out@.subrange(0, start.len() as int) == start,
        decreases n - k,
    {
        let ghost before = out@;
        match write_base_cell_dep_item(out, otx, layout, source, k) {
            Ok(()) => {},
            Err(e) => {
                proof {
                    assert(spec_concat_items(item, (k + 1) as nat) is Err);
                    lemma_concat_err_stays(item, (k + 1) as nat, n as nat);
                }
                return Err(e);
            },
        }
        proof {
            assert(out@.subrange(start.len() as int, out@.len() as int) =~= before.subrange(start.len() as int, before.len() as int)
                + item(k as int)->Ok_0);
            assert(out@.subrange(0, start.len() as int) =~= before.subrange(0, start.len() as int));
        }
        k = k + 1;
    }
    proof {
        assert(out@ =~= start + out@.subrange(start.len() as int, out@.len() as int));
    }
    Ok(())
}

fn write_base_header_dep_items(out: &mut Vec<u8>, otx: &OtxView, layout: &OtxLayout, source: &InMemorySource) -> (res: Result<(), CoreError>)
    requires
        true,
    ensures
        match spec_concat_items(|k: int| spec_base_header_dep_item(otx@, layout.base_header_deps, *source, k), otx.base_header_deps as nat) {
            Ok(b) => res is Ok && final(out)@ == old(out)@ + b,
            Err(e) => res == Err::<(), CoreError>(e),
        },
{
    let ghost item = |k: int| spec_base_header_dep_item(otx@, layout.base_header_deps, *source, k);
    let ghost start = out@;
    let n = otx.base_header_deps;
    let mut k: usize = 0;
    proof {
        assert(out@.subrange(start.len() as int, out@.len() as int) =~= Seq::<u8>::empty());
        assert(out@.subrange(0, start.len() as int) =~= start);
    }
    while k < n
        invariant
            n == otx.base_header_deps,
            true,
            item == (|k: int| spec_base_header_dep_item(otx@, layout.base_header_deps, *source, k)),
            0 <= k <= n,
            spec_concat_items(item, k as nat) == Ok::<Seq<u8>, CoreError>(out@.subrange(start.len() as int, out@.len() as int)),
            out@.len() >= start.len(),
            out@.subrange(0, start.len() as int) == start,
        decreases n - k,
    {
        let ghost before = out@;
        match write_base_header_dep_item(out, otx, layout, source, k) {
            Ok(()) => {},
            Err(e) => {
                proof {
                    assert(spec_concat_items(item, (k + 1) as nat) is Err);
                    lemma_concat_err_stays(item, (k + 1) as nat, n as nat);
                }
                return Err(e);
            },
        }
        proof {
            assert(out@.subrange(start.len() as int, out@.len() as int) =~= before.subrange(start.len() as int, before.len() as int)
                + item(k as int)->Ok_0);
            assert(out@.subrange(0, start.len() as int) =~= before.subrange(0, start.len() as int));
        }
        k = k + 1;
    }
    proof {
        assert(out@ =~= start + out@.subrange(start.len() as int, out@.len() as int));
    }
    Ok(())
}

fn write_base_group(out: &mut Vec<u8>, count: usize, mask: &[u8]) -> (res: Result<(), CoreError>)
    ensures
        match spec_then(spec_count_bytes(count as int), spec_len_prefixed(mask@)) {
            Ok(b) => res is Ok && final(out)@ == old(out)@ + b,
            Err(e) => res == Err::<(), CoreError>(e),
        },
{
    let ghost o0 = out@;
    append_count(out, count)?;
    let ghost o1 = out@;
    append_len_prefixed(out, mask)?;
    proof {
        assert(out@ =~= o0 + (o1.subrange(o0.len() as int, o1.len() as int) + out@.subrange(o1.len() as int, out@.len() as int)));
    }
    Ok(())
}

fn write_base_inputs_part(out: &mut Vec<u8>, otx: &OtxView, layout: &OtxLayout, source: &InMemorySource) -> (res: Result<(), CoreError>)
    requires
        otx.base_input_cells * 2 <= usize::MAX,
    ensures
        match spec_base_inputs_part(otx@, layout@, *source) {
            Ok(b) => res is Ok && final(out)@ == old(out)@ + b,
            Err(e) => res == Err::<(), CoreError>(e),
        },
{
    reveal(spec_base_inputs_part);
    let ghost o0 = out@;
    write_base_group(out, otx.base_input_cells, otx.base_input_masks.bytes())?;
    let ghost o1 = out@;
    write_base_input_items(out, otx, layout, source)?;
    proof {
        assert(out@ =~= o0 + (o1.subrange(o0.len() as int, o1.len() as int) + out@.subrange(o1.len() as int, out@.len() as int)));
    }
    Ok(())
}

fn write_base_outputs_part(out: &mut Vec<u8>, otx: &OtxView, layout: &OtxLayout, source: &InMemorySource) -> (res: Result<(), CoreError>)
    requires
        otx.base_output_cells * 4 <= usize::MAX,
    ensures
        match spec_base_outputs_part(otx@, layout@, *source) {
            Ok(b) => res is Ok && final(out)@ == old(out)@ + b,
            Err(e) => res == Err::<(), CoreError>(e),
        },
{
    reveal(spec_base_outputs_part);
    let ghost o0 = out@;
    write_base_group(out, otx.base_output_cells, otx.base_output_masks.bytes())?;
    let ghost o1 = out@;
    write_base_output_items(out, otx, layout, source)?;
    proof {
        assert(out@ =~= o0 + (o1.subrange(o0.len() as int, o1.len() as int) + out@.subrange(o1.len() as int, out@.len() as int)));
    }
    Ok(())
}

fn write_base_cell_deps_part(out: &mut Vec<u8>, otx: &OtxView, layout: &OtxLayout, source: &InMemorySource) -> (res: Result<(), CoreError>)
    requires
        true,
    ensures
        match spec_base_cell_deps_part(otx@, layout@, *source) {
            Ok(b) => res is Ok && final(out)@ == old(out)@ + b,
            Err(e) => res == Err::<(), CoreError>(e),
        },
{
    reveal(spec_base_cell_deps_part);
    let ghost o0 = out@;
    write_base_group(out, otx.base_cell_deps, otx.base_cell_dep_masks.bytes())?;
    let ghost o1 = out@;
    write_base_cell_dep_items(out, otx, layout, source)?;
    proof {
        assert(out@ =~= o0 + (o1.subrange(o0.len() as int, o1.len() as int) + out@.subrange(o1.len() as int, out@.len() as int)));
    }
    Ok(())
}

fn write_base_header_deps_part(out: &mut Vec<u8>, otx: &OtxView, layout: &OtxLayout, source: &InMemorySource) -> (res: Result<(), CoreError>)
    requires
        true,
    ensures
        match spec_base_header_deps_part(otx@, layout@, *source) {
            Ok(b) => res is Ok && final(out)@ == old(out)@ + b,
            Err(e) => res == Err::<(), CoreError>(e),
        },
{
    reveal(spec_base_header_deps_part);
    let ghost o0 = out@;
    write_base_group(out, otx.base_header_deps, otx.base_header_dep_masks.bytes())?;
    let ghost o1 = out@;
    write_base_header_dep_items(out, otx, layout, source)?;
    proof {
        assert(out@ =~= o0 + (o1.subrange(o0.len() as int, o1.len() as int) + out@.subrange(o1.len() as int, out@.len() as int)));
    }
    Ok(())
}

fn otx_base_preimage(otx: &OtxView, layout: &OtxLayout, source: &InMemorySource) -> (res: Result<Vec<u8>, CoreError>)
    requires
        otx.base_input_cells * 2 <= usize::MAX,
        otx.base_output_cells * 4 <= usize::MAX,
    ensures
        match spec_otx_base_preimage(otx@, layout@, *source) {
            Ok(b) => res matches Ok(v) && v@ == b,
            Err(e) => res == Err::<Vec<u8>, CoreError>(e),
        },
{
    let mut out: Vec<u8> = Vec::new();
    update_cursor_with_error(&mut out, &otx.message, CoreError::MalformedCobuild)?;
    let ghost o1 = out@;
    out.push(otx.append_permissions);
    let ghost o2 = out@;
    write_base_inputs_part(&mut out, otx, layout, source)?;
    let ghost o3 = out@;
    write_base_outputs_part(&mut out, otx, layout, source)?;
    let ghost o4 = out@;
    write_base_cell_deps_part(&mut out, otx, layout, source)?;
    let ghost o5 = out@;
    write_base_header_deps_part(&mut out, otx, layout, source)?;
    proof {
        assert(o2 =~= o1 + seq![otx.append_permissions]);
        assert(out@ =~= o1 + (seq![otx.append_permissions] + (o3.subrange(o2.len() as int, o3.len() as int) + (o4.subrange(
            o3.len() as int,
            o4.len() as int,
        ) + (o5.subrange(o4.len() as int, o5.len() as int) + out@.subrange(o5.len() as int, out@.len() as int))))));
    }
    Ok(out)
}

/// The OTX base signing hash: blake2b-256, personalized `ckbcb_otb_core1`,
/// over [`spec_otx_base_preimage`].
pub fn otx_base_hash(otx: &OtxView, layout: &OtxLayout, source: &InMemorySource) -> (res: Result<[u8; 32], CoreError>)
    requires
        otx.base_input_cells * 2 <= usize::MAX,
        otx.base_output_cells * 4 <= usize::MAX,
    ensures
        match spec_otx_base_preimage(otx@, layout@, *source) {
            Ok(p) => res matches Ok(h) && h@ == blake2b_personal_digest(OTX_BASE_PERSONAL@, p),
            Err(e) => res == Err::<[u8; 32], CoreError>(e),
        },
{
    let preimage = otx_base_preimage(otx, layout, source)?;
    Ok(blake2b_256_personal(&OTX_BASE_PERSONAL, preimage.as_slice()))
}

fn write_append_input_item(out: &mut Vec<u8>, r: Range, source: &InMemorySource, k: usize) -> (res: Result<(), CoreError>)
    ensures
        match spec_append_input_item(r, *source, k as int) {
            Ok(b) => res is Ok && final(out)@ == old(out)@ + b,
            Err(e) => res == Err::<(), CoreError>(e),
        },
{
    let tx_index = checked_index(r, k)?;
    if tx_index >= source.raw_inputs.len() {
        return Err(CoreError::MissingHashInput);
    }
    let ghost o0 = out@;
    append_count(out, k)?;
    let ghost o1 = out@;
    append_bytes(out, source.raw_inputs[tx_index].as_slice());
    let ghost o2 = out@;
    write_resolved_input(out, source, tx_index)?;
    proof {
        assert(out@ =~= o0 + (o1.subrange(o0.len() as int, o1.len() as int) + (source.raw_inputs@[tx_index as int]@
            + out@.subrange(o2.len() as int, out@.len() as int))));
    }
    Ok(())
}

fn write_append_output_item(out: &mut Vec<u8>, r: Range, source: &InMemorySource, k: usize) -> (res: Result<(), CoreError>)
    ensures
        match spec_append_output_item(r, *source, k as int) {
            Ok(b) => res is Ok && final(out)@ == old(out)@ + b,
            Err(e) => res == Err::<(), CoreError>(e),
        },
{
    let tx_index = checked_index(r, k)?;
    let ghost o0 = out@;
    append_count(out, k)?;
    let ghost o1 = out@;
    if tx_index >= source.raw_outputs.len() {
        return Err(CoreError::MissingHashInput);
    }
    append_bytes(out, source.raw_outputs[tx_index].as_slice());
    let ghost o2 = out@;
    write_output_data(out, source, tx_index)?;
    proof {
        assert(out@ =~= o0 + (o1.subrange(o0.len() as int, o1.len() as int) + (source.raw_outputs@[tx_index as int]@
            + out@.subrange(o2.len() as int, out@.len() as int))));
    }
    Ok(())
}

fn write_append_cell_dep_item(out: &mut Vec<u8>, r: Range, source: &InMemorySource, k: usize) -> (res: Result<(), CoreError>)
    ensures
        match spec_append_cell_dep_item(r, *source, k as int) {
            Ok(b) => res is Ok && final(out)@ == old(out)@ + b,
            Err(e) => res == Err::<(), CoreError>(e),
        },
{
    let tx_index = checked_index(r, k)?;
    let ghost o0 = out@;
    append_count(out, k)?;
    let ghost o1 = out@;
    if tx_index >= source.raw_cell_deps.len() {
        return Err(CoreError::MissingHashInput);
    }
    append_bytes(out, source.raw_cell_deps[tx_index].as_slice());
    proof {
        assert(out@ =~= o0 + (o1.subrange(o0.len() as int, o1.len() as int) + source.raw_cell_deps@[tx_index as int]@));
    }
    Ok(())
}

fn write_append_header_dep_item(out: &mut Vec<u8>, r: Range, source: &InMemorySource, k: usize) -> (res: Result<(), CoreError>)
    ensures
        match spec_append_header_dep_item(r, *source, k as int) {
            Ok(b) => res is Ok && final(out)@ == old(out)@ + b,
            Err(e) => res == Err::<(), CoreError>(e),
        },
{
    let tx_index = checked_index(r, k)?;
    let ghost o0 = out@;
    append_count(out, k)?;
    let ghost o1 = out@;
    if tx_index >= source.raw_header_deps.len() {
        return Err(CoreError::MissingHashInput);
    }
    append_bytes(out, &source.raw_header_deps[tx_index]);
    proof {
        assert(out@ =~= o0 + (o1.subrange(o0.len() as int, o1.len() as int) + source.raw_header_deps@[tx_index as int]@));
    }
    Ok(())
}

fn write_append_inputs_items(out: &mut Vec<u8>, r: Range, source: &InMemorySource) -> (res: Result<(), CoreError>)
    ensures
        match spec_concat_items(|k: int| spec_append_input_item(r, *source, k), r.count as nat) {
            Ok(b) => res is Ok && final(out)@ == old(out)@ + b,
            Err(e) => res == Err::<(), CoreError>(e),
        },
{
    let ghost item = |k: int| spec_append_input_item(r, *source, k);
    let ghost start = out@;
    let n = r.count;
    let mut k: usize = 0;
    proof {
        assert(out@.subrange(start.len() as int, out@.len() as int) =~= Seq::<u8>::empty());
        assert(out@.subrange(0, start.len() as int) =~= start);
    }
    while k < n
        invariant
            n == r.count,
            item == (|k: int| spec_append_input_item(r, *source, k)),
            0 <= k <= n,
            spec_concat_items(item, k as nat) == Ok::<Seq<u8>, CoreError>(out@.subrange(start.len() as int, out@.len() as int)),
            out@.len() >= start.len(),
            out@.subrange(0, start.len() as int) == start,
        decreases n - k,
    {
        let ghost before = out@;
        match write_append_input_item(out, r, source, k) {
            Ok(()) => {},
            Err(e) => {
                proof {
                    assert(spec_concat_items(item, (k + 1) as nat) is Err);
                    lemma_concat_err_stays(item, (k + 1) as nat, n as nat);
                }
                return Err(e);
            },
        }
        proof {
            assert(out@.subrange(start.len() as int, out@.len() as int) =~= before.subrange(start.len() as int, before.len() as int)
                + item(k as int)->Ok_0);
            assert(out@.subrange(0, start.len() as int) =~= before.subrange(0, start.len() as int));
        }
        k = k + 1;
    }
    proof {
        assert(out@ =~= start + out@.subrange(start.len() as int, out@.len() as int));
    }
    Ok(())
}
fn write_append_inputs(out: &mut Vec<u8>, r: Range, source: &InMemorySource) -> (res: Result<(), CoreError>)
    ensures
        match spec_append_group(r.count as int, spec_concat_items(|k: int| spec_append_input_item(r, *source, k), r.count as nat)) {
            Ok(b) => res is Ok && final(out)@ == old(out)@ + b,
            Err(e) => res == Err::<(), CoreError>(e),
        },
{
    reveal(spec_append_group);
    let ghost o0 = out@;
    append_count(out, r.count)?;
    let ghost o1 = out@;
    write_append_inputs_items(out, r, source)?;
    proof {
        assert(out@ =~= o0 + (o1.subrange(o0.len() as int, o1.len() as int) + out@.subrange(o1.len() as int, out@.len() as int)));
    }
    Ok(())
}


fn write_append_outputs_items(out: &mut Vec<u8>, r: Range, source: &InMemorySource) -> (res: Result<(), CoreError>)
    ensures
        match spec_concat_items(|k: int| spec_append_output_item(r, *source, k), r.count as nat) {
            Ok(b) => res is Ok && final(out)@ == old(out)@ + b,
            Err(e) => res == Err::<(), CoreError>(e),
        },
{
    let ghost item = |k: int| spec_append_output_item(r, *source, k);
    let ghost start = out@;
    let n = r.count;
    let mut k: usize = 0;
    proof {
        assert(out@.subrange(start.len() as int, out@.len() as int) =~= Seq::<u8>::empty());
        assert(out@.subrange(0, start.len() as int) =~= start);
    }
    while k < n
        invariant
            n == r.count,
            item == (|k: int| spec_append_output_item(r, *source, k)),
            0 <= k <= n,
            spec_concat_items(item, k as nat) == Ok::<Seq<u8>, CoreError>(out@.subrange(start.len() as int, out@.len() as int)),
            out@.len() >= start.len(),
            out@.subrange(0, start.len() as int) == start,
        decreases n - k,
    {
        let ghost before = out@;
        match write_append_output_item(out, r, source, k) {
            Ok(()) => {},
            Err(e) => {
                proof {
                    assert(spec_concat_items(item, (k + 1) as nat) is Err);
                    lemma_concat_err_stays(item, (k + 1) as nat, n as nat);
                }
                return Err(e);
            },
        }
        proof {
            assert(out@.subrange(start.len() as int, out@.len() as int) =~= before.subrange(start.len() as int, before.len() as int)
                + item(k as int)->Ok_0);
            assert(out@.subrange(0, start.len() as int) =~= before.subrange(0, start.len() as int));
        }
        k = k + 1;
    }
    proof {
        assert(out@ =~= start + out@.subrange(start.len() as int, out@.len() as int));
    }
    Ok(())
}
fn write_append_outputs(out: &mut Vec<u8>, r: Range, source: &InMemorySource) -> (res: Result<(), CoreError>)
    ensures
        match spec_append_group(r.count as int, spec_concat_items(|k: int| spec_append_output_item(r, *source, k), r.count as nat)) {
            Ok(b) => res is Ok && final(out)@ == old(out)@ + b,
            Err(e) => res == Err::<(), CoreError>(e),
        },
{
    reveal(spec_append_group);
    let ghost o0 = out@;
    append_count(out, r.count)?;
    let ghost o1 = out@;
    write_append_outputs_items(out, r, source)?;
    proof {
        assert(out@ =~= o0 + (o1.subrange(o0.len() as int, o1.len() as int) + out@.subrange(o1.len() as int, out@.len() as int)));
    }
    Ok(())
}


fn write_append_cell_deps_items(out: &mut Vec<u8>, r: Range, source: &InMemorySource) -> (res: Result<(), CoreError>)
    ensures
        match spec_concat_items(|k: int| spec_append_cell_dep_item(r, *source, k), r.count as nat) {
            Ok(b) => res is Ok && final(out)@ == old(out)@ + b,
            Err(e) => res == Err::<(), CoreError>(e),
        },
{
    let ghost item = |k: int| spec_append_cell_dep_item(r, *source, k);
    let ghost start = out@;
    let n = r.count;
    let mut k: usize = 0;
    proof {
        assert(out@.subrange(start.len() as int, out@.len() as int) =~= Seq::<u8>::empty());
        assert(out@.subrange(0, start.len() as int) =~= start);
    }
    while k < n
        invariant
            n == r.count,
            item == (|k: int| spec_append_cell_dep_item(r, *source, k)),
            0 <= k <= n,
            spec_concat_items(item, k as nat) == Ok::<Seq<u8>, CoreError>(out@.subrange(start.len() as int, out@.len() as int)),
            out@.len() >= start.len(),
            out@.subrange(0, start.len() as int) == start,
        decreases n - k,
    {
        let ghost before = out@;
        match write_append_cell_dep_item(out, r, source, k) {
            Ok(()) => {},
            Err(e) => {
                proof {
                    assert(spec_concat_items(item, (k + 1) as nat) is Err);
                    lemma_concat_err_stays(item, (k + 1) as nat, n as nat);
                }
                return Err(e);
            },
        }
        proof {
            assert(out@.subrange(start.len() as int, out@.len() as int) =~= before.subrange(start.len() as int, before.len() as int)
                + item(k as int)->Ok_0);
            assert(out@.subrange(0, start.len() as int) =~= before.subrange(0, start.len() as int));
        }
        k = k + 1;
    }
    proof {
        assert(out@ =~= start + out@.subrange(start.len() as int, out@.len() as int));
    }
    Ok(())
}
fn write_append_cell_deps(out: &mut Vec<u8>, r: Range, source: &InMemorySource) -> (res: Result<(), CoreError>)
    ensures
        match spec_append_group(r.count as int, spec_concat_items(|k: int| spec_append_cell_dep_item(r, *source, k), r.count as nat)) {
            Ok(b) => res is Ok && final(out)@ == old(out)@ + b,
            Err(e) => res == Err::<(), CoreError>(e),
        },
{
    reveal(spec_append_group);
    let ghost o0 = out@;
    append_count(out, r.count)?;
    let ghost o1 = out@;
    write_append_cell_deps_items(out, r, source)?;
    proof {
        assert(out@ =~= o0 + (o1.subrange(o0.len() as int, o1.len() as int) + out@.subrange(o1.len() as int, out@.len() as int)));
    }
    Ok(())
}


fn write_append_header_deps_items(out: &mut Vec<u8>, r: Range, source: &InMemorySource) -> (res: Result<(), CoreError>)
    ensures
        match spec_concat_items(|k: int| spec_append_header_dep_item(r, *source, k), r.count as nat) {
            Ok(b) => res is Ok && final(out)@ == old(out)@ + b,
            Err(e) => res == Err::<(), CoreError>(e),
        },
{
    let ghost item = |k: int| spec_append_header_dep_item(r, *source, k);
    let ghost start = out@;
    let n = r.count;
    let mut k: usize = 0;
    proof {
        assert(out@.subrange(start.len() as int, out@.len() as int) =~= Seq::<u8>::empty());
        assert(out@.subrange(0, start.len() as int) =~= start);
    }
    while k < n
        invariant
            n == r.count,
            item == (|k: int| spec_append_header_dep_item(r, *source, k)),
            0 <= k <= n,
            spec_concat_items(item, k as nat) == Ok::<Seq<u8>, CoreError>(out@.subrange(start.len() as int, out@.len() as int)),
            out@.len() >= start.len(),
            out@.subrange(0, start.len() as int) == start,
        decreases n - k,
    {
        let ghost before = out@;
        match write_append_header_dep_item(out, r, source, k) {
            Ok(()) => {},
            Err(e) => {
                proof {
                    assert(spec_concat_items(item, (k + 1) as nat) is Err);
                    lemma_concat_err_stays(item, (k + 1) as nat, n as nat);
                }
                return Err(e);
            },
        }
        proof {
            assert(out@.subrange(start.len() as int, out@.len() as int) =~= before.subrange(start.len() as int, before.len() as int)
                + item(k as int)->Ok_0);
            assert(out@.subrange(0, start.len() as int) =~= before.subrange(0, start.len() as int));
        }
        k = k + 1;
    }
    proof {
        assert(out@ =~= start + out@.subrange(start.len() as int, out@.len() as int));
    }
    Ok(())
}
fn write_append_header_deps(out: &mut Vec<u8>, r: Range, source: &InMemorySource) -> (res: Result<(), CoreError>)
    ensures
        match spec_append_group(r.count as int, spec_concat_items(|k: int| spec_append_header_dep_item(r, *source, k), r.count as nat)) {
            Ok(b) => res is Ok && final(out)@ == old(out)@ + b,
            Err(e) => res == Err::<(), CoreError>(e),
        },
{
    reveal(spec_append_group);
    let ghost o0 = out@;
    append_count(out, r.count)?;
    let ghost o1 = out@;
    write_append_header_deps_items(out, r, source)?;
    proof {
        assert(out@ =~= o0 + (o1.subrange(o0.len() as int, o1.len() as int) + out@.subrange(o1.len() as int, out@.len() as int)));
    }
    Ok(())
}


fn append_preimage(
    message: &Cursor,
    base_hash: &[u8; 32],
    inputs: Range,
    outputs: Range,
    cell_deps: Range,
    header_deps: Range,
    source: &InMemorySource,
) -> (res: Result<Vec<u8>, CoreError>)
    ensures
        match spec_append_preimage(message@, base_hash@, inputs, outputs, cell_deps, header_deps, *source) {
            Ok(b) => res matches Ok(v) && v@ == b,
            Err(e) => res == Err::<Vec<u8>, CoreError>(e),
        },
{
    let mut out: Vec<u8> = Vec::new();
    update_cursor_with_error(&mut out, message, CoreError::MalformedCobuild)?;
    let ghost o1 = out@;
    append_bytes(&mut out, base_hash);
    let ghost o2 = out@;
    write_append_inputs(&mut out, inputs, source)?;
    let ghost o3 = out@;
    write_append_outputs(&mut out, outputs, source)?;
    let ghost o4 = out@;
    write_append_cell_deps(&mut out, cell_deps, source)?;
    let ghost o5 = out@;
    write_append_header_deps(&mut out, header_deps, source)?;
    proof {
        assert(out@ =~= o1 + (base_hash@ + (o3.subrange(o2.len() as int, o3.len() as int) + (o4.subrange(
            o3.len() as int,
            o4.len() as int,
        ) + (o5.subrange(o4.len() as int, o5.len() as int) + out@.subrange(o5.len() as int, out@.len() as int))))));
    }
    Ok(out)
}

/// The OTX append signing hash over everything appended to the OTX:
/// blake2b-256, personalized `ckbcb_ota_core1`, over [`spec_append_preimage`]
/// of the OTX's appended ranges.
pub fn otx_append_hash(otx: &OtxView, layout: &OtxLayout, source: &InMemorySource, base_hash: [u8; 32]) -> (res: Result<[u8; 32], CoreError>)
    ensures
        match spec_append_preimage(
            otx@.message,
            base_hash@,
            layout.append_inputs,
            layout.append_outputs,
            layout.append_cell_deps,
            layout.append_header_deps,
            *source,
        ) {
            Ok(p) => res matches Ok(h) && h@ == blake2b_personal_digest(OTX_APPEND_PERSONAL@, p),
            Err(e) => res == Err::<[u8; 32], CoreError>(e),
        },
{
    let preimage = append_preimage(
        &otx.message,
        &base_hash,
        layout.append_inputs,
        layout.append_outputs,
        layout.append_cell_deps,
        layout.append_header_deps,
        source,
    )?;
    Ok(blake2b_256_personal(&OTX_APPEND_PERSONAL, preimage.as_slice()))
}

/// The OTX append signing hash of one append segment: blake2b-256,
/// personalized `ckbcb_ota_core1`, over [`spec_append_preimage`] of the
/// segment's ranges.
pub fn otx_append_segment_hash(
    otx: &OtxView,
    layout: &OtxLayout,
    segment_index: usize,
    source: &InMemorySource,
    base_hash: [u8; 32],
) -> (res: Result<[u8; 32], CoreError>)
    ensures
        segment_index >= layout.append_segments@.len() ==> res == Err::<[u8; 32], CoreError>(CoreError::InvalidOtxLayout),
        segment_index < layout.append_segments@.len() ==> {
            let seg = layout.append_segments@[segment_index as int];
            match spec_append_preimage(otx@.message, base_hash@, seg.inputs, seg.outputs, seg.cell_deps, seg.header_deps, *source) {
                Ok(p) => res matches Ok(h) && h@ == blake2b_personal_digest(OTX_APPEND_PERSONAL@, p),
                Err(e) => res == Err::<[u8; 32], CoreError>(e),
            }
        },
{
    if segment_index >= layout.append_segments.len() {
        return Err(CoreError::InvalidOtxLayout);
    }
    let segment = layout.append_segments[segment_index];
    let preimage = append_preimage(
        &otx.message,
        &base_hash,
        segment.inputs,
        segment.outputs,
        segment.cell_deps,
        segment.header_deps,
        source,
    )?;
    Ok(blake2b_256_personal(&OTX_APPEND_PERSONAL, preimage.as_slice()))
}

// ---------------------------------------------------------------------------
// What the preimages hold
// ---------------------------------------------------------------------------

/// `x` occurs in `p` as one contiguous run of bytes.
pub open spec fn spec_contains_run(p: Seq<u8>, x: Seq<u8>) -> bool {
    exists|a: Seq<u8>, b: Seq<u8>| #[trigger] (a + x + b) == p
}

/// A successful concatenation holds each item whole: the items before it,
/// then the item, then the ones after it.
pub proof fn lemma_concat_items_holds_item(item: spec_fn(int) -> Result<Seq<u8>, CoreError>, n: nat, k: int) -> (rest: Seq<u8>)
    requires
        spec_concat_items(item, n) is Ok,
        0 <= k < n,
    ensures
        spec_concat_items(item, k as nat) is Ok,
        item(k) is Ok,
        spec_concat_items(item, n)->Ok_0 == spec_concat_items(item, k as nat)->Ok_0 + item(k)->Ok_0 + rest,
    decreases n,
{
    if n == k + 1 {
        let p = spec_concat_items(item, k as nat)->Ok_0;
        assert(p + item(k)->Ok_0 =~= p + item(k)->Ok_0 + Seq::<u8>::empty());
        Seq::empty()
    } else {
        let r = lemma_concat_items_holds_item(item, (n - 1) as nat, k);
        let p = spec_concat_items(item, k as nat)->Ok_0;
        let last = item(n - 1)->Ok_0;
        assert(p + item(k)->Ok_0 + r + last =~= p + item(k)->Ok_0 + (r + last));
        r + last
    }
}

/// A run inside a part stays a run of anything the part is put between.
proof fn lemma_run_in_middle(pre: Seq<u8>, mid: Seq<u8>, post: Seq<u8>, x: Seq<u8>)
    requires
        spec_contains_run(mid, x),
    ensures
        spec_contains_run(pre + mid + post, x),
{
    let (a, b) = choose|a: Seq<u8>, b: Seq<u8>| #[trigger] (a + x + b) == mid;
    assert(pre + a + x + (b + post) =~= pre + mid + post);
}

/// The transaction-level preimage covers every witness past the inputs: for
/// each such witness it holds the witness's 32-bit little-endian length
/// followed by its bytes.
pub proof fn tx_preimage_covers_every_trailing_witness(message: Option<CursorView>, s: InMemorySource, i: int)
    requires
        spec_tx_preimage(message, s) is Ok,
        s.raw_inputs@.len() <= i < s.witnesses@.len(),
    ensures
        spec_contains_run(
            spec_tx_preimage(message, s)->Ok_0,
            spec_le32_bytes(s.witnesses@[i]@.len() as int) + s.witnesses@[i]@,
        ),
{
    let ic = s.raw_inputs@.len() as int;
    let w = s.witnesses@[i]@;
    let g = |j: int| spec_trailing_witness_item(s, ic + j);
    let n = spec_trailing_witness_count(s);
    let m = match message {
        Some(mv) => spec_chunk(mv, CoreError::MalformedCobuild),
        None => Ok(Seq::<u8>::empty()),
    };
    let ins = spec_concat_items(|k: int| spec_resolved_input_item(s, k), s.raw_inputs@.len());
    let tail = spec_concat_items(g, n);
    let rest = lemma_concat_items_holds_item(g, n, i - ic);
    let before = spec_concat_items(g, (i - ic) as nat)->Ok_0;
    let item = g(i - ic)->Ok_0;
    assert(item == spec_le32_bytes(w.len() as int) + w);
    let p = spec_tx_preimage(message, s)->Ok_0;
    let pre = m->Ok_0 + s.tx_hash@ + ins->Ok_0 + before;
    assert(p =~= pre + item + rest);
}

/// A run of the first part of a successful `spec_then` is a run of the whole.
proof fn lemma_run_in_then_left(a: Result<Seq<u8>, CoreError>, b: Result<Seq<u8>, CoreError>, x: Seq<u8>)
    requires
        spec_then(a, b) is Ok,
        spec_contains_run(a->Ok_0, x),
    ensures
        spec_contains_run(spec_then(a, b)->Ok_0, x),
{
    lemma_run_in_middle(Seq::empty(), a->Ok_0, b->Ok_0, x);
    assert(Seq::<u8>::empty() + a->Ok_0 + b->Ok_0 =~= a->Ok_0 + b->Ok_0);
}

/// A run of the second part of a successful `spec_then` is a run of the whole.
proof fn lemma_run_in_then_right(a: Result<Seq<u8>, CoreError>, b: Result<Seq<u8>, CoreError>, x: Seq<u8>)
    requires
        spec_then(a, b) is Ok,
        spec_contains_run(b->Ok_0, x),
    ensures
        spec_contains_run(spec_then(a, b)->Ok_0, x),
{
    lemma_run_in_middle(a->Ok_0, b->Ok_0, Seq::empty(), x);
    assert(a->Ok_0 + b->Ok_0 + Seq::<u8>::empty() =~= a->Ok_0 + b->Ok_0);
}

/// A run of one item of a successful concatenation is a run of the whole.
proof fn lemma_run_in_concat(item: spec_fn(int) -> Result<Seq<u8>, CoreError>, n: nat, k: int, x: Seq<u8>)
    requires
        spec_concat_items(item, n) is Ok,
        0 <= k < n,
        item(k) is Ok ==> spec_contains_run(item(k)->Ok_0, x),
    ensures
        spec_contains_run(spec_concat_items(item, n)->Ok_0, x),
{
    let rest = lemma_concat_items_holds_item(item, n, k);
    lemma_run_in_middle(spec_concat_items(item, k as nat)->Ok_0, item(k)->Ok_0, rest, x);
}

/// A byte string is a run of itself.
proof fn lemma_run_of_itself(x: Seq<u8>)
    ensures
        spec_contains_run(x, x),
{
    assert(Seq::<u8>::empty() + x + Seq::<u8>::empty() =~= x);
}

/// Appended output `k` holds its local index, raw bytes, data length and data in one run.
proof fn lemma_append_output_item_run(outputs: Range, s: InMemorySource, k: int)
    requires
        spec_append_output_item(outputs, s, k) is Ok,
        0 <= k < outputs.count,
    ensures
        ({
            let t = outputs.start + k;
            &&& 0 <= t < s.raw_outputs@.len()
            &&& 0 <= t < s.raw_outputs_data@.len()
            &&& spec_contains_run(
                spec_append_output_item(outputs, s, k)->Ok_0,
                spec_le32_bytes(k) + s.raw_outputs@[t]@ + spec_le32_bytes(s.raw_outputs_data@[t]@.len() as int)
                    + s.raw_outputs_data@[t]@,
            )
        }),
{
    let t = outputs.start + k;
    let raw = s.raw_outputs@[t]@;
    let d = s.raw_outputs_data@[t]@;
    let x = spec_le32_bytes(k) + raw + spec_le32_bytes(d.len() as int) + d;
    assert(spec_append_output_item(outputs, s, k)->Ok_0 =~= x);
    lemma_run_of_itself(x);
}

/// The append preimage commits to every appended output's data: for each
/// output of the appended range it holds the output's local index, its raw
/// bytes, and right after them the 32-bit little-endian length of its data
/// followed by the data.
pub proof fn append_preimage_commits_to_appended_output_data(
    message: CursorView,
    base_hash: Seq<u8>,
    inputs: Range,
    outputs: Range,
    cell_deps: Range,
    header_deps: Range,
    s: InMemorySource,
    k: int,
)
    requires
        spec_append_preimage(message, base_hash, inputs, outputs, cell_deps, header_deps, s) is Ok,
        0 <= k < outputs.count,
    ensures
        ({
            let t = outputs.start + k;
            &&& 0 <= t < s.raw_outputs@.len()
            &&& 0 <= t < s.raw_outputs_data@.len()
            &&& spec_contains_run(
                spec_append_preimage(message, base_hash, inputs, outputs, cell_deps, header_deps, s)->Ok_0,
                spec_le32_bytes(k) + s.raw_outputs@[t]@ + spec_le32_bytes(s.raw_outputs_data@[t]@.len() as int)
                    + s.raw_outputs_data@[t]@,
            )
        }),
{
    reveal(spec_append_group);
    let t = outputs.start + k;
    let x = spec_le32_bytes(k) + s.raw_outputs@[t]@ + spec_le32_bytes(s.raw_outputs_data@[t]@.len() as int)
        + s.raw_outputs_data@[t]@;
    let f = |q: int| spec_append_output_item(outputs, s, q);
    let items = spec_concat_items(f, outputs.count as nat);
    let cnt = spec_count_bytes(outputs.count as int);
    let m = spec_chunk(message, CoreError::MalformedCobuild);
    let ig = spec_append_group(inputs.count as int, spec_concat_items(|q: int| spec_append_input_item(inputs, s, q), inputs.count as nat));
    let og = spec_append_group(outputs.count as int, items);
    let cg = spec_append_group(cell_deps.count as int, spec_concat_items(|q: int| spec_append_cell_dep_item(cell_deps, s, q), cell_deps.count as nat));
    let hg = spec_append_group(header_deps.count as int, spec_concat_items(|q: int| spec_append_header_dep_item(header_deps, s, q), header_deps.count as nat));
    let tail = spec_then(cg, hg);
    let from_og = spec_then(og, tail);
    let from_ig = spec_then(ig, from_og);
    let from_base = spec_then(Ok(base_hash), from_ig);
    assert(spec_append_preimage(message, base_hash, inputs, outputs, cell_deps, header_deps, s) == spec_then(m, from_base));
    assert(items is Ok);
    lemma_concat_items_holds_item(f, outputs.count as nat, k);
    lemma_append_output_item_run(outputs, s, k);
    lemma_run_in_concat(f, outputs.count as nat, k, x);
    lemma_run_in_then_right(cnt, items, x);
    lemma_run_in_then_left(og, tail, x);
    lemma_run_in_then_right(ig, from_og, x);
    lemma_run_in_then_right(Ok(base_hash), from_ig, x);
    lemma_run_in_then_right(m, from_base, x);
}

/// Base output `k` with its capacity selected holds its local index then its capacity.
proof fn lemma_base_output_item_capacity_run(o: OtxModel, r: Range, s: InMemorySource, k: int)
    requires
        spec_base_output_item(o, r, s, k) is Ok,
        spec_mask_bit(o.base_output_masks, k * 4) == Some(true),
        0 <= k,
    ensures
        ({
            let t = r.start + k;
            &&& 0 <= t < s.raw_outputs@.len()
            &&& field_u64(spec_bytes_cursor(s.raw_outputs@[t]@), 0) is Some
            &&& spec_contains_run(
                spec_base_output_item(o, r, s, k)->Ok_0,
                spec_le32_bytes(k) + spec_le64_bytes(field_u64(spec_bytes_cursor(s.raw_outputs@[t]@), 0)->0),
            )
        }),
{
    let t = r.start + k;
    let oc = spec_bytes_cursor(s.raw_outputs@[t]@);
    let x = spec_le32_bytes(k) + spec_le64_bytes(field_u64(oc, 0)->0);
    let lock_part = spec_masked(spec_mask_bit(o.base_output_masks, k * 4 + 1), spec_output_field(oc, 1))->Ok_0;
    let tail = spec_output_tail(o, oc, s, t, k)->Ok_0;
    assert(spec_base_output_item(o, r, s, k)->Ok_0 =~= x + (lock_part + tail));
    lemma_run_of_itself(x);
    lemma_run_in_middle(Seq::empty(), x, lock_part + tail, x);
    assert(Seq::<u8>::empty() + x + (lock_part + tail) =~= x + (lock_part + tail));
}

/// The base preimage commits to the capacity of every base output whose mask
/// selects it: right after the output's local index come its capacity's eight
/// little-endian bytes.
pub proof fn base_preimage_commits_to_selected_capacity(o: OtxModel, l: OtxLayoutModel, s: InMemorySource, k: int)
    requires
        spec_otx_base_preimage(o, l, s) is Ok,
        0 <= k < o.base_output_cells,
        spec_mask_bit(o.base_output_masks, k * 4) == Some(true),
    ensures
        ({
            let t = l.base_outputs.start + k;
            &&& 0 <= t < s.raw_outputs@.len()
            &&& field_u64(spec_bytes_cursor(s.raw_outputs@[t]@), 0) is Some
            &&& spec_contains_run(
                spec_otx_base_preimage(o, l, s)->Ok_0,
                spec_le32_bytes(k) + spec_le64_bytes(field_u64(spec_bytes_cursor(s.raw_outputs@[t]@), 0)->0),
            )
        }),
{
    reveal(spec_base_outputs_part);
    let t = l.base_outputs.start + k;
    let x = spec_le32_bytes(k) + spec_le64_bytes(field_u64(spec_bytes_cursor(s.raw_outputs@[t]@), 0)->0);
    let f = |q: int| spec_base_output_item(o, l.base_outputs, s, q);
    let items = spec_concat_items(f, o.base_output_cells as nat);
    let hd = spec_then(spec_count_bytes(o.base_output_cells), spec_len_prefixed(o.base_output_masks));
    let m = spec_chunk(o.message, CoreError::MalformedCobuild);
    let ip = spec_base_inputs_part(o, l, s);
    let op = spec_base_outputs_part(o, l, s);
    let deps = spec_then(spec_base_cell_deps_part(o, l, s), spec_base_header_deps_part(o, l, s));
    let from_op = spec_then(op, deps);
    let from_ip = spec_then(ip, from_op);
    let from_perm = spec_then(Ok(seq![o.append_permissions]), from_ip);
    assert(spec_otx_base_preimage(o, l, s) == spec_then(m, from_perm));
    assert(op == spec_then(hd, items));
    lemma_concat_items_holds_item(f, o.base_output_cells as nat, k);
    lemma_base_output_item_capacity_run(o, l.base_outputs, s, k);
    lemma_run_in_concat(f, o.base_output_cells as nat, k, x);
    lemma_run_in_then_right(hd, items, x);
    lemma_run_in_then_left(op, deps, x);
    lemma_run_in_then_right(ip, from_op, x);
    lemma_run_in_then_right(Ok(seq![o.append_permissions]), from_ip, x);
    lemma_run_in_then_right(m, from_perm, x);
}


/// A run in the appended-inputs group is a run of the append preimage.
proof fn lemma_append_run_from_inputs(
    message: CursorView,
    base_hash: Seq<u8>,
    inputs: Range,
    outputs: Range,
    cell_deps: Range,
    header_deps: Range,
    s: InMemorySource,
    x: Seq<u8>,
)
    requires
        spec_append_preimage(message, base_hash, inputs, outputs, cell_deps, header_deps, s) is Ok,
        spec_concat_items(|q: int| spec_append_input_item(inputs, s, q), inputs.count as nat) is Ok ==> spec_contains_run(
            spec_concat_items(|q: int| spec_append_input_item(inputs, s, q), inputs.count as nat)->Ok_0,
            x,
        ),
    ensures
        spec_contains_run(spec_append_preimage(message, base_hash, inputs, outputs, cell_deps, header_deps, s)->Ok_0, x),
{
    reveal(spec_append_group);
    let items = spec_concat_items(|q: int| spec_append_input_item(inputs, s, q), inputs.count as nat);
    let m = spec_chunk(message, CoreError::MalformedCobuild);
    let ig = spec_append_group(inputs.count as int, items);
    let og = spec_append_group(outputs.count as int, spec_concat_items(|q: int| spec_append_output_item(outputs, s, q), outputs.count as nat));
    let cg = spec_append_group(cell_deps.count as int, spec_concat_items(|q: int| spec_append_cell_dep_item(cell_deps, s, q), cell_deps.count as nat));
    let hg = spec_append_group(header_deps.count as int, spec_concat_items(|q: int| spec_append_header_dep_item(header_deps, s, q), header_deps.count as nat));
    let from_og = spec_then(og, spec_then(cg, hg));
    let from_ig = spec_then(ig, from_og);
    let from_base = spec_then(Ok(base_hash), from_ig);
    assert(spec_append_preimage(message, base_hash, inputs, outputs, cell_deps, header_deps, s) == spec_then(m, from_base));
    lemma_run_in_then_right(spec_count_bytes(inputs.count as int), items, x);
    lemma_run_in_then_left(ig, from_og, x);
    lemma_run_in_then_right(Ok(base_hash), from_ig, x);
    lemma_run_in_then_right(m, from_base, x);
}

/// A run in the appended cell-dep or header-dep groups is a run of the append preimage.
proof fn lemma_append_run_from_deps(
    message: CursorView,
    base_hash: Seq<u8>,
    inputs: Range,
    outputs: Range,
    cell_deps: Range,
    header_deps: Range,
    s: InMemorySource,
    x: Seq<u8>,
    in_cell_deps: bool,
)
    requires
        spec_append_preimage(message, base_hash, inputs, outputs, cell_deps, header_deps, s) is Ok,
        in_cell_deps ==> (spec_concat_items(|q: int| spec_append_cell_dep_item(cell_deps, s, q), cell_deps.count as nat) is Ok
            ==> spec_contains_run(
            spec_concat_items(|q: int| spec_append_cell_dep_item(cell_deps, s, q), cell_deps.count as nat)->Ok_0,
            x,
        )),
        !in_cell_deps ==> (spec_concat_items(|q: int| spec_append_header_dep_item(header_deps, s, q), header_deps.count as nat) is Ok
            ==> spec_contains_run(
            spec_concat_items(|q: int| spec_append_header_dep_item(header_deps, s, q), header_deps.count as nat)->Ok_0,
            x,
        )),
    ensures
        spec_contains_run(spec_append_preimage(message, base_hash, inputs, outputs, cell_deps, header_deps, s)->Ok_0, x),
{
    reveal(spec_append_group);
    let ci = spec_concat_items(|q: int| spec_append_cell_dep_item(cell_deps, s, q), cell_deps.count as nat);
    let hi = spec_concat_items(|q: int| spec_append_header_dep_item(header_deps, s, q), header_deps.count as nat);
    let m = spec_chunk(message, CoreError::MalformedCobuild);
    let ig = spec_append_group(inputs.count as int, spec_concat_items(|q: int| spec_append_input_item(inputs, s, q), inputs.count as nat));
    let og = spec_append_group(outputs.count as int, spec_concat_items(|q: int| spec_append_output_item(outputs, s, q), outputs.count as nat));
    let cg = spec_append_group(cell_deps.count as int, ci);
    let hg = spec_append_group(header_deps.count as int, hi);
    let deps = spec_then(cg, hg);
    let from_og = spec_then(og, deps);
    let from_ig = spec_then(ig, from_og);
    let from_base = spec_then(Ok(base_hash), from_ig);
    assert(spec_append_preimage(message, base_hash, inputs, outputs, cell_deps, header_deps, s) == spec_then(m, from_base));
    if in_cell_deps {
        lemma_run_in_then_right(spec_count_bytes(cell_deps.count as int), ci, x);
        lemma_run_in_then_left(cg, hg, x);
    } else {
        lemma_run_in_then_right(spec_count_bytes(header_deps.count as int), hi, x);
        lemma_run_in_then_right(cg, hg, x);
    }
    lemma_run_in_then_right(og, deps, x);
    lemma_run_in_then_right(ig, from_og, x);
    lemma_run_in_then_right(Ok(base_hash), from_ig, x);
    lemma_run_in_then_right(m, from_base, x);
}

/// The append preimage commits to every appended input: its local index, its
/// raw bytes, its resolved cell, then its data's 32-bit length and the data.
pub proof fn append_preimage_commits_to_appended_inputs(
    message: CursorView,
    base_hash: Seq<u8>,
    inputs: Range,
    outputs: Range,
    cell_deps: Range,
    header_deps: Range,
    s: InMemorySource,
    k: int,
)
    requires
        spec_append_preimage(message, base_hash, inputs, outputs, cell_deps, header_deps, s) is Ok,
        0 <= k < inputs.count,
    ensures
        ({
            let t = inputs.start + k;
            &&& 0 <= t < s.raw_inputs@.len()
            &&& 0 <= t < s.resolved_outputs@.len()
            &&& 0 <= t < s.resolved_data@.len()
            &&& spec_contains_run(
                spec_append_preimage(message, base_hash, inputs, outputs, cell_deps, header_deps, s)->Ok_0,
                spec_le32_bytes(k) + s.raw_inputs@[t]@ + s.resolved_outputs@[t]@ + spec_le32_bytes(
                    s.resolved_data@[t]@.len() as int,
                ) + s.resolved_data@[t]@,
            )
        }),
{
    reveal(spec_append_group);
    let t = inputs.start + k;
    let x = spec_le32_bytes(k) + s.raw_inputs@[t]@ + s.resolved_outputs@[t]@ + spec_le32_bytes(s.resolved_data@[t]@.len() as int)
        + s.resolved_data@[t]@;
    let f = |q: int| spec_append_input_item(inputs, s, q);
    let items = spec_concat_items(f, inputs.count as nat);
    assert(items is Ok);
    lemma_concat_items_holds_item(f, inputs.count as nat, k);
    assert(f(k)->Ok_0 =~= x);
    lemma_run_of_itself(x);
    lemma_run_in_concat(f, inputs.count as nat, k, x);
    lemma_append_run_from_inputs(message, base_hash, inputs, outputs, cell_deps, header_deps, s, x);
}

/// The append preimage commits to every appended cell dep (its local index,
/// then the dep) and every appended header dep (its local index, then the hash).
pub proof fn append_preimage_commits_to_appended_deps(
    message: CursorView,
    base_hash: Seq<u8>,
    inputs: Range,
    outputs: Range,
    cell_deps: Range,
    header_deps: Range,
    s: InMemorySource,
    k: int,
)
    requires
        spec_append_preimage(message, base_hash, inputs, outputs, cell_deps, header_deps, s) is Ok,
    ensures
        0 <= k < cell_deps.count ==> {
            let t = cell_deps.start + k;
            &&& 0 <= t < s.raw_cell_deps@.len()
            &&& spec_contains_run(
                spec_append_preimage(message, base_hash, inputs, outputs, cell_deps, header_deps, s)->Ok_0,
                spec_le32_bytes(k) + s.raw_cell_deps@[t]@,
            )
        },
        0 <= k < header_deps.count ==> {
            let t = header_deps.start + k;
            &&& 0 <= t < s.raw_header_deps@.len()
            &&& spec_contains_run(
                spec_append_preimage(message, base_hash, inputs, outputs, cell_deps, header_deps, s)->Ok_0,
                spec_le32_bytes(k) + s.raw_header_deps@[t]@,
            )
        },
{
    reveal(spec_append_group);
    if 0 <= k < cell_deps.count {
        let t = cell_deps.start + k;
        let x = spec_le32_bytes(k) + s.raw_cell_deps@[t]@;
        let f = |q: int| spec_append_cell_dep_item(cell_deps, s, q);
        assert(spec_concat_items(f, cell_deps.count as nat) is Ok);
        lemma_concat_items_holds_item(f, cell_deps.count as nat, k);
        assert(f(k)->Ok_0 =~= x);
        lemma_run_of_itself(x);
        lemma_run_in_concat(f, cell_deps.count as nat, k, x);
        lemma_append_run_from_deps(message, base_hash, inputs, outputs, cell_deps, header_deps, s, x, true);
    }
    if 0 <= k < header_deps.count {
        let t = header_deps.start + k;
        let x = spec_le32_bytes(k) + s.raw_header_deps@[t]@;
        let f = |q: int| spec_append_header_dep_item(header_deps, s, q);
        assert(spec_concat_items(f, header_deps.count as nat) is Ok);
        lemma_concat_items_holds_item(f, header_deps.count as nat, k);
        assert(f(k)->Ok_0 =~= x);
        lemma_run_of_itself(x);
        lemma_run_in_concat(f, header_deps.count as nat, k, x);
        lemma_append_run_from_deps(message, base_hash, inputs, outputs, cell_deps, header_deps, s, x, false);
    }
}

/// The transaction-level preimage covers every input's resolved cell, then
/// its data's 32-bit length and the data.
pub proof fn tx_preimage_covers_every_resolved_input(message: Option<CursorView>, s: InMemorySource, i: int)
    requires
        spec_tx_preimage(message, s) is Ok,
        0 <= i < s.raw_inputs@.len(),
    ensures
        0 <= i < s.resolved_outputs@.len(),
        0 <= i < s.resolved_data@.len(),
        spec_contains_run(
            spec_tx_preimage(message, s)->Ok_0,
            s.resolved_outputs@[i]@ + spec_le32_bytes(s.resolved_data@[i]@.len() as int) + s.resolved_data@[i]@,
        ),
{
    let ic = s.raw_inputs@.len() as int;
    let f = |k: int| spec_resolved_input_item(s, k);
    let g = |j: int| spec_trailing_witness_item(s, ic + j);
    let m = match message {
        Some(mv) => spec_chunk(mv, CoreError::MalformedCobuild),
        None => Ok(Seq::<u8>::empty()),
    };
    let ins = spec_concat_items(f, s.raw_inputs@.len());
    let tail = spec_concat_items(g, spec_trailing_witness_count(s));
    let x = s.resolved_outputs@[i]@ + spec_le32_bytes(s.resolved_data@[i]@.len() as int) + s.resolved_data@[i]@;
    assert(ins is Ok);
    lemma_concat_items_holds_item(f, s.raw_inputs@.len(), i);
    assert(f(i)->Ok_0 =~= x);
    lemma_run_of_itself(x);
    lemma_run_in_concat(f, s.raw_inputs@.len(), i, x);
    let rest = spec_then(Ok(s.tx_hash@), spec_then(ins, tail));
    assert(spec_tx_preimage(message, s) == spec_then(m, rest));
    lemma_run_in_then_left(ins, tail, x);
    lemma_run_in_then_right(Ok(s.tx_hash@), spec_then(ins, tail), x);
    lemma_run_in_then_right(m, rest, x);
}

/// The base preimage commits to every selected base cell dep (its local
/// index, then the dep) and header dep (its local index, then the hash).
pub proof fn base_preimage_commits_to_selected_deps(o: OtxModel, l: OtxLayoutModel, s: InMemorySource, k: int)
    requires
        spec_otx_base_preimage(o, l, s) is Ok,
    ensures
        0 <= k < o.base_cell_deps && spec_mask_bit(o.base_cell_dep_masks, k) == Some(true) ==> {
            let t = l.base_cell_deps.start + k;
            &&& 0 <= t < s.raw_cell_deps@.len()
            &&& spec_contains_run(spec_otx_base_preimage(o, l, s)->Ok_0, spec_le32_bytes(k) + s.raw_cell_deps@[t]@)
        },
        0 <= k < o.base_header_deps && spec_mask_bit(o.base_header_dep_masks, k) == Some(true) ==> {
            let t = l.base_header_deps.start + k;
            &&& 0 <= t < s.raw_header_deps@.len()
            &&& spec_contains_run(spec_otx_base_preimage(o, l, s)->Ok_0, spec_le32_bytes(k) + s.raw_header_deps@[t]@)
        },
{
    reveal(spec_base_cell_deps_part);
    reveal(spec_base_header_deps_part);
    let m = spec_chunk(o.message, CoreError::MalformedCobuild);
    let ip = spec_base_inputs_part(o, l, s);
    let op = spec_base_outputs_part(o, l, s);
    let cp = spec_base_cell_deps_part(o, l, s);
    let hp = spec_base_header_deps_part(o, l, s);
    let deps = spec_then(cp, hp);
    let from_op = spec_then(op, deps);
    let from_ip = spec_then(ip, from_op);
    let from_perm = spec_then(Ok(seq![o.append_permissions]), from_ip);
    assert(spec_otx_base_preimage(o, l, s) == spec_then(m, from_perm));
    if 0 <= k < o.base_cell_deps && spec_mask_bit(o.base_cell_dep_masks, k) == Some(true) {
        let t = l.base_cell_deps.start + k;
        let x = spec_le32_bytes(k) + s.raw_cell_deps@[t]@;
        let f = |q: int| spec_base_cell_dep_item(o, l.base_cell_deps, s, q);
        let items = spec_concat_items(f, o.base_cell_deps as nat);
        let hd = spec_then(spec_count_bytes(o.base_cell_deps), spec_len_prefixed(o.base_cell_dep_masks));
        assert(cp == spec_then(hd, items));
        lemma_concat_items_holds_item(f, o.base_cell_deps as nat, k);
        assert(f(k)->Ok_0 =~= x);
        lemma_run_of_itself(x);
        lemma_run_in_concat(f, o.base_cell_deps as nat, k, x);
        lemma_run_in_then_right(hd, items, x);
        lemma_run_in_then_left(cp, hp, x);
        lemma_run_in_then_right(op, deps, x);
        lemma_run_in_then_right(ip, from_op, x);
        lemma_run_in_then_right(Ok(seq![o.append_permissions]), from_ip, x);
        lemma_run_in_then_right(m, from_perm, x);
    }
    if 0 <= k < o.base_header_deps && spec_mask_bit(o.base_header_dep_masks, k) == Some(true) {
        let t = l.base_header_deps.start + k;
        let x = spec_le32_bytes(k) + s.raw_header_deps@[t]@;
        let f = |q: int| spec_base_header_dep_item(o, l.base_header_deps, s, q);
        let items = spec_concat_items(f, o.base_header_deps as nat);
        let hd = spec_then(spec_count_bytes(o.base_header_deps), spec_len_prefixed(o.base_header_dep_masks));
        assert(hp == spec_then(hd, items));
        lemma_concat_items_holds_item(f, o.base_header_deps as nat, k);
        assert(f(k)->Ok_0 =~= x);
        lemma_run_of_itself(x);
        lemma_run_in_concat(f, o.base_header_deps as nat, k, x);
        lemma_run_in_then_right(hd, items, x);
        lemma_run_in_then_right(cp, hp, x);
        lemma_run_in_then_right(op, deps, x);
        lemma_run_in_then_right(ip, from_op, x);
        lemma_run_in_then_right(Ok(seq![o.append_permissions]), from_ip, x);
        lemma_run_in_then_right(m, from_perm, x);
    }
}


/// A run of base output item `k` is a run of the base preimage.
proof fn lemma_base_run_from_output_item(o: OtxModel, l: OtxLayoutModel, s: InMemorySource, k: int, x: Seq<u8>)
    requires
        spec_otx_base_preimage(o, l, s) is Ok,
        0 <= k < o.base_output_cells,
        spec_base_output_item(o, l.base_outputs, s, k) is Ok ==> spec_contains_run(spec_base_output_item(o, l.base_outputs, s, k)->Ok_0, x),
    ensures
        spec_contains_run(spec_otx_base_preimage(o, l, s)->Ok_0, x),
{
    reveal(spec_base_outputs_part);
    let f = |q: int| spec_base_output_item(o, l.base_outputs, s, q);
    let items = spec_concat_items(f, o.base_output_cells as nat);
    let hd = spec_then(spec_count_bytes(o.base_output_cells), spec_len_prefixed(o.base_output_masks));
    let m = spec_chunk(o.message, CoreError::MalformedCobuild);
    let ip = spec_base_inputs_part(o, l, s);
    let op = spec_base_outputs_part(o, l, s);
    let deps = spec_then(spec_base_cell_deps_part(o, l, s), spec_base_header_deps_part(o, l, s));
    let from_op = spec_then(op, deps);
    let from_ip = spec_then(ip, from_op);
    let from_perm = spec_then(Ok(seq![o.append_permissions]), from_ip);
    assert(spec_otx_base_preimage(o, l, s) == spec_then(m, from_perm));
    assert(op == spec_then(hd, items));
    lemma_concat_items_holds_item(f, o.base_output_cells as nat, k);
    lemma_run_in_concat(f, o.base_output_cells as nat, k, x);
    lemma_run_in_then_right(hd, items, x);
    lemma_run_in_then_left(op, deps, x);
    lemma_run_in_then_right(ip, from_op, x);
    lemma_run_in_then_right(Ok(seq![o.append_permissions]), from_ip, x);
    lemma_run_in_then_right(m, from_perm, x);
}

/// A run of base input item `k` is a run of the base preimage.
proof fn lemma_base_run_from_input_item(o: OtxModel, l: OtxLayoutModel, s: InMemorySource, k: int, x: Seq<u8>)
    requires
        spec_otx_base_preimage(o, l, s) is Ok,
        0 <= k < o.base_input_cells,
        spec_base_input_item(o, l.base_inputs, s, k) is Ok ==> spec_contains_run(spec_base_input_item(o, l.base_inputs, s, k)->Ok_0, x),
    ensures
        spec_contains_run(spec_otx_base_preimage(o, l, s)->Ok_0, x),
{
    reveal(spec_base_inputs_part);
    let f = |q: int| spec_base_input_item(o, l.base_inputs, s, q);
    let items = spec_concat_items(f, o.base_input_cells as nat);
    let hd = spec_then(spec_count_bytes(o.base_input_cells), spec_len_prefixed(o.base_input_masks));
    let m = spec_chunk(o.message, CoreError::MalformedCobuild);
    let ip = spec_base_inputs_part(o, l, s);
    let op = spec_base_outputs_part(o, l, s);
    let deps = spec_then(spec_base_cell_deps_part(o, l, s), spec_base_header_deps_part(o, l, s));
    let from_op = spec_then(op, deps);
    let from_ip = spec_then(ip, from_op);
    let from_perm = spec_then(Ok(seq![o.append_permissions]), from_ip);
    assert(spec_otx_base_preimage(o, l, s) == spec_then(m, from_perm));
    assert(ip == spec_then(hd, items));
    lemma_concat_items_holds_item(f, o.base_input_cells as nat, k);
    lemma_run_in_concat(f, o.base_input_cells as nat, k, x);
    lemma_run_in_then_right(hd, items, x);
    lemma_run_in_then_left(ip, from_op, x);
    lemma_run_in_then_right(Ok(seq![o.append_permissions]), from_ip, x);
    lemma_run_in_then_right(m, from_perm, x);
}

/// The base preimage commits to every field of a base output its mask
/// selects: the lock (bit `4k + 1`), the type (bit `4k + 2`), and the data's
/// 32-bit length followed by the data (bit `4k + 3`).
pub proof fn base_preimage_commits_to_selected_output_fields(o: OtxModel, l: OtxLayoutModel, s: InMemorySource, k: int)
    requires
        spec_otx_base_preimage(o, l, s) is Ok,
        0 <= k < o.base_output_cells,
    ensures
        ({
            let t = l.base_outputs.start + k;
            let oc = spec_bytes_cursor(s.raw_outputs@[t]@);
            let p = spec_otx_base_preimage(o, l, s)->Ok_0;
            &&& 0 <= t < s.raw_outputs@.len()
            &&& spec_mask_bit(o.base_output_masks, k * 4 + 1) == Some(true) ==> spec_output_field(oc, 1) is Ok
                && spec_contains_run(p, spec_output_field(oc, 1)->Ok_0)
            &&& spec_mask_bit(o.base_output_masks, k * 4 + 2) == Some(true) ==> spec_output_field(oc, 2) is Ok
                && spec_contains_run(p, spec_output_field(oc, 2)->Ok_0)
            &&& spec_mask_bit(o.base_output_masks, k * 4 + 3) == Some(true) ==> 0 <= t < s.raw_outputs_data@.len()
                && spec_contains_run(p, spec_le32_bytes(s.raw_outputs_data@[t]@.len() as int) + s.raw_outputs_data@[t]@)
        }),
{
    let r = l.base_outputs;
    let t = r.start + k;
    reveal(spec_base_outputs_part);
    let f = |q: int| spec_base_output_item(o, r, s, q);
    lemma_concat_items_holds_item(f, o.base_output_cells as nat, k);
    let oc = spec_bytes_cursor(s.raw_outputs@[t]@);
    let cap = spec_masked(spec_mask_bit(o.base_output_masks, k * 4), spec_output_capacity(oc));
    let lk = spec_masked(spec_mask_bit(o.base_output_masks, k * 4 + 1), spec_output_field(oc, 1));
    let ty = spec_masked(spec_mask_bit(o.base_output_masks, k * 4 + 2), spec_output_field(oc, 2));
    let da = spec_masked(spec_mask_bit(o.base_output_masks, k * 4 + 3), spec_output_data(s, t));
    let head = spec_then(cap, lk);
    let tail = spec_then(ty, da);
    let body = spec_then(head, tail);
    let idx = spec_count_bytes(k);
    assert(spec_base_output_item(o, r, s, k) == spec_then(idx, body));
    if spec_mask_bit(o.base_output_masks, k * 4 + 1) == Some(true) {
        let x = spec_output_field(oc, 1)->Ok_0;
        lemma_run_of_itself(x);
        lemma_run_in_then_right(cap, lk, x);
        lemma_run_in_then_left(head, tail, x);
        lemma_run_in_then_right(idx, body, x);
        lemma_base_run_from_output_item(o, l, s, k, x);
    }
    if spec_mask_bit(o.base_output_masks, k * 4 + 2) == Some(true) {
        let x = spec_output_field(oc, 2)->Ok_0;
        lemma_run_of_itself(x);
        lemma_run_in_then_left(ty, da, x);
        lemma_run_in_then_right(head, tail, x);
        lemma_run_in_then_right(idx, body, x);
        lemma_base_run_from_output_item(o, l, s, k, x);
    }
    if spec_mask_bit(o.base_output_masks, k * 4 + 3) == Some(true) {
        let d = s.raw_outputs_data@[t]@;
        let x = spec_le32_bytes(d.len() as int) + d;
        assert(da->Ok_0 =~= x);
        lemma_run_of_itself(x);
        lemma_run_in_then_right(ty, da, x);
        lemma_run_in_then_right(head, tail, x);
        lemma_run_in_then_right(idx, body, x);
        lemma_base_run_from_output_item(o, l, s, k, x);
    }
}

/// The base preimage commits to the fields of a base input its mask selects:
/// the local index followed by the `since`'s eight little-endian bytes (bit
/// `2k`), and the previous output (bit `2k + 1`); and always to the input's
/// resolved cell, then its data's 32-bit length and the data.
pub proof fn base_preimage_commits_to_selected_input_fields(o: OtxModel, l: OtxLayoutModel, s: InMemorySource, k: int)
    requires
        spec_otx_base_preimage(o, l, s) is Ok,
        0 <= k < o.base_input_cells,
    ensures
        ({
            let t = l.base_inputs.start + k;
            let ic = spec_bytes_cursor(s.raw_inputs@[t]@);
            let p = spec_otx_base_preimage(o, l, s)->Ok_0;
            &&& 0 <= t < s.raw_inputs@.len()
            &&& 0 <= t < s.resolved_outputs@.len()
            &&& 0 <= t < s.resolved_data@.len()
            &&& spec_contains_run(
                p,
                s.resolved_outputs@[t]@ + spec_le32_bytes(s.resolved_data@[t]@.len() as int) + s.resolved_data@[t]@,
            )
            &&& spec_mask_bit(o.base_input_masks, k * 2) == Some(true) ==> spec_struct_u64(ic, 0) is Some
                && spec_contains_run(p, spec_le32_bytes(k) + spec_le64_bytes(spec_struct_u64(ic, 0)->0))
            &&& spec_mask_bit(o.base_input_masks, k * 2 + 1) == Some(true) ==> spec_input_previous_output(ic) is Ok
                && spec_contains_run(p, spec_input_previous_output(ic)->Ok_0)
        }),
{
    let r = l.base_inputs;
    let t = r.start + k;
    reveal(spec_base_inputs_part);
    let f = |q: int| spec_base_input_item(o, r, s, q);
    lemma_concat_items_holds_item(f, o.base_input_cells as nat, k);
    let ic = spec_bytes_cursor(s.raw_inputs@[t]@);
    let since = spec_masked(spec_mask_bit(o.base_input_masks, k * 2), spec_input_since(ic));
    let prev = spec_masked(spec_mask_bit(o.base_input_masks, k * 2 + 1), spec_input_previous_output(ic));
    let fields = spec_then(since, prev);
    let resolved = spec_resolved_input_item(s, t);
    let body = spec_then(fields, resolved);
    let idx = spec_count_bytes(k);
    assert(spec_base_input_item(o, r, s, k) == spec_then(idx, body));
    {
        let x = s.resolved_outputs@[t]@ + spec_le32_bytes(s.resolved_data@[t]@.len() as int) + s.resolved_data@[t]@;
        assert(resolved->Ok_0 =~= x);
        lemma_run_of_itself(x);
        lemma_run_in_then_right(fields, resolved, x);
        lemma_run_in_then_right(idx, body, x);
        lemma_base_run_from_input_item(o, l, s, k, x);
    }
    if spec_mask_bit(o.base_input_masks, k * 2) == Some(true) {
        let x = spec_le32_bytes(k) + spec_le64_bytes(spec_struct_u64(ic, 0)->0);
        let item = spec_base_input_item(o, r, s, k)->Ok_0;
        assert(item =~= x + (prev->Ok_0 + resolved->Ok_0));
        lemma_run_of_itself(x);
        lemma_run_in_middle(Seq::empty(), x, prev->Ok_0 + resolved->Ok_0, x);
        assert(Seq::<u8>::empty() + x + (prev->Ok_0 + resolved->Ok_0) =~= item);
        lemma_base_run_from_input_item(o, l, s, k, x);
    }
    if spec_mask_bit(o.base_input_masks, k * 2 + 1) == Some(true) {
        let x = spec_input_previous_output(ic)->Ok_0;
        lemma_run_of_itself(x);
        lemma_run_in_then_right(since, prev, x);
        lemma_run_in_then_left(fields, resolved, x);
        lemma_run_in_then_right(idx, body, x);
        lemma_base_run_from_input_item(o, l, s, k, x);
    }
}


/// The transaction-level preimage starts with the message's bytes, when there
/// is a message, followed by the transaction hash.
pub proof fn tx_preimage_starts_with_message_then_tx_hash(message: Option<CursorView>, s: InMemorySource)
    requires
        spec_tx_preimage(message, s) is Ok,
    ensures
        ({
            let head = match message {
                Some(m) => m.bytes(),
                None => Seq::<u8>::empty(),
            };
            let p = spec_tx_preimage(message, s)->Ok_0;
            &&& head.len() + s.tx_hash@.len() <= p.len()
            &&& p.subrange(0, (head.len() + s.tx_hash@.len()) as int) == head + s.tx_hash@
        }),
{
    let ic = s.raw_inputs@.len() as int;
    let m = match message {
        Some(mv) => spec_chunk(mv, CoreError::MalformedCobuild),
        None => Ok(Seq::<u8>::empty()),
    };
    let ins = spec_concat_items(|k: int| spec_resolved_input_item(s, k), s.raw_inputs@.len());
    let tail = spec_concat_items(|j: int| spec_trailing_witness_item(s, ic + j), spec_trailing_witness_count(s));
    let head = m->Ok_0;
    let p = spec_tx_preimage(message, s)->Ok_0;
    assert(p =~= head + s.tx_hash@ + (ins->Ok_0 + tail->Ok_0));
    assert(p.subrange(0, (head.len() + s.tx_hash@.len()) as int) =~= head + s.tx_hash@);
}

} // verus!
