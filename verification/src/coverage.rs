//! Which signatures cover which inputs of a lock: every input of the lock is
//! signed for by a signature its plan requires.

use vstd::prelude::*;

use crate::context::{spec_any_in, spec_any_outside, spec_range_holds};
use crate::error::CoreError;
use crate::engine::{
    lock_plan_covers_lock_group, spec_required_segments, spec_segment_requirement, spec_segment_requirements,
    spec_otx_signatures, CobuildContext,
};
use crate::hash::{blake2b_personal_digest, spec_otx_base_preimage, OTX_BASE_PERSONAL};
use crate::layout::{
    lemma_after_segments_monotone, lemma_entries_end_monotone, lemma_otx_end_grows, spec_after_base,
    spec_after_segments, spec_built_layout_is, spec_entries_end, spec_otx_counts_nonneg, spec_otx_end,
    spec_run_complete, spec_start_next, BuiltLayoutModel, CollectorModel, NextModel, OtxAppendSegmentLayout,
    OtxLayoutModel,
};
use crate::plan::{RequirementModel, SignatureOrigin};
use crate::source::InMemorySource;
use crate::view::{OtxModel, SegmentModel};

verus! {

/// Index `x` lies in the base inputs of an OTX or in one of its append segments.
pub open spec fn spec_input_in_otx(l: OtxLayoutModel, x: int) -> bool {
    spec_range_holds(l.base_inputs, x) || exists|k: int|
        0 <= k < l.append_segments.len() && spec_range_holds(#[trigger] l.append_segments[k].inputs, x)
}

/// Every index of the run's input range lies in one of its OTXs.
pub open spec fn spec_run_covers_inputs(b: BuiltLayoutModel) -> bool {
    forall|x: int| spec_range_holds(b.input_range, x) ==> exists|j: int|
        0 <= j < b.entries.len() && spec_input_in_otx((#[trigger] b.entries[j]).0, x)
}

/// Some requirement has the origin `origin` and is carried by witness `w`.
pub open spec fn spec_requires_signature(reqs: Seq<RequirementModel>, origin: SignatureOrigin, w: int) -> bool {
    exists|i: int| 0 <= i < reqs.len() && (#[trigger] reqs[i]).origin == origin && reqs[i].carrier_witness_index == w
}

/// Input `x` is signed for: by a transaction-level signature, or by the base
/// signature of an OTX whose base inputs hold it, or by the append signature of
/// a segment whose inputs hold it.
pub open spec fn spec_input_signed_for(reqs: Seq<RequirementModel>, layouts: Option<BuiltLayoutModel>, x: int) -> bool {
    ||| exists|i: int| 0 <= i < reqs.len() && (#[trigger] reqs[i]).origin == SignatureOrigin::TxLevel
    ||| (layouts matches Some(b) && exists|j: int|
        0 <= j < b.entries.len() && {
            let l = (#[trigger] b.entries[j]).0;
            ||| (spec_range_holds(l.base_inputs, x) && spec_requires_signature(reqs, SignatureOrigin::OtxBase, l.witness_index))
            ||| exists|k: int|
                0 <= k < l.append_segments.len() && spec_range_holds(#[trigger] l.append_segments[k].inputs, x)
                    && spec_requires_signature(reqs, SignatureOrigin::OtxAppend, l.witness_index)
        })
}

/// A required append segment requires an append signature carried by the OTX's witness.
proof fn lemma_segment_requirement_origin(
    s: InMemorySource,
    lock: Seq<u8>,
    l: OtxLayoutModel,
    o: OtxModel,
    base_hash: Seq<u8>,
    j: int,
)
    ensures
        spec_segment_requirement(s, lock, l, o, base_hash, j) matches Ok(r) ==> r.origin == SignatureOrigin::OtxAppend
            && r.carrier_witness_index == l.witness_index,
{
}

/// The signatures of the first `n` required segments are, in order, the signature of each.
proof fn lemma_segment_requirements_items(
    s: InMemorySource,
    lock: Seq<u8>,
    l: OtxLayoutModel,
    o: OtxModel,
    base_hash: Seq<u8>,
    segments: Seq<usize>,
    n: nat,
)
    requires
        n <= segments.len(),
    ensures
        spec_segment_requirements(s, lock, l, o, base_hash, segments, n) matches Ok(sr) ==> {
            &&& sr.len() == n
            &&& forall|m: int| 0 <= m < n ==> spec_segment_requirement(s, lock, l, o, base_hash, segments[m] as int) == Ok::<
                RequirementModel,
                CoreError,
            >(#[trigger] sr[m])
        },
    decreases n,
{
    if n > 0 {
        lemma_segment_requirements_items(s, lock, l, o, base_hash, segments, (n - 1) as nat);
        if let Ok(sr) = spec_segment_requirements(s, lock, l, o, base_hash, segments, n) {
            let prev = spec_segment_requirements(s, lock, l, o, base_hash, segments, (n - 1) as nat)->Ok_0;
            assert forall|m: int| 0 <= m < n implies spec_segment_requirement(s, lock, l, o, base_hash, segments[m] as int)
                == Ok::<RequirementModel, CoreError>(#[trigger] sr[m]) by {
                if m < n - 1 {
                    assert(sr[m] == prev[m]);
                }
            }
        }
    }
}

/// A segment among the first `n` whose inputs hold an input of the lock is required.
proof fn lemma_required_segments_contain(lock_inputs: Seq<usize>, segments: Seq<OtxAppendSegmentLayout>, n: nat, k: int)
    requires
        0 <= k < n,
        n <= usize::MAX,
        spec_any_in(lock_inputs, segments[k].inputs),
    ensures
        exists|m: int| 0 <= m < spec_required_segments(lock_inputs, segments, n).len()
            && (#[trigger] spec_required_segments(lock_inputs, segments, n)[m]) as int == k,
    decreases n,
{
    let req = spec_required_segments(lock_inputs, segments, n);
    let prev = spec_required_segments(lock_inputs, segments, (n - 1) as nat);
    if k == n - 1 {
        assert(req == prev.push((n - 1) as usize));
        assert(req[prev.len() as int] as int == k);
    } else {
        lemma_required_segments_contain(lock_inputs, segments, (n - 1) as nat, k);
        let m = choose|m: int| 0 <= m < prev.len() && (#[trigger] prev[m]) as int == k;
        if spec_any_in(lock_inputs, segments[n - 1].inputs) {
            assert(req[m] == prev[m]);
        } else {
            assert(req == prev);
        }
        assert(req[m] as int == k);
    }
}


/// What OTX `j` requires of the lock is part of what the first `n` OTXs require.
proof fn lemma_contribution_in_total(c: &CobuildContext, lock: Seq<u8>, lock_inputs: Seq<usize>, n: nat, j: int)
    requires
        0 <= j < n,
        c.spec_otx_lock_contributions(lock, lock_inputs, n) is Ok,
    ensures
        c.spec_otx_lock_contribution(lock, lock_inputs, j) is Ok,
        forall|i: int|
            0 <= i < c.spec_otx_lock_contribution(lock, lock_inputs, j)->Ok_0.0.len() ==> c.spec_otx_lock_contributions(
                lock,
                lock_inputs,
                n,
            )->Ok_0.0.contains(#[trigger] c.spec_otx_lock_contribution(lock, lock_inputs, j)->Ok_0.0[i]),
    decreases n,
{
    let total = c.spec_otx_lock_contributions(lock, lock_inputs, n)->Ok_0.0;
    let prev = c.spec_otx_lock_contributions(lock, lock_inputs, (n - 1) as nat);
    let last = c.spec_otx_lock_contribution(lock, lock_inputs, n - 1);
    assert(prev is Ok && last is Ok);
    assert(total == prev->Ok_0.0 + last->Ok_0.0);
    if j == n - 1 {
        let rj = last->Ok_0.0;
        assert forall|i: int| 0 <= i < rj.len() implies total.contains(#[trigger] rj[i]) by {
            assert(total[prev->Ok_0.0.len() + i] == rj[i]);
        }
    } else {
        lemma_contribution_in_total(c, lock, lock_inputs, (n - 1) as nat, j);
        let rj = c.spec_otx_lock_contribution(lock, lock_inputs, j)->Ok_0.0;
        let p0 = prev->Ok_0.0;
        assert forall|i: int| 0 <= i < rj.len() implies total.contains(#[trigger] rj[i]) by {
            assert(p0.contains(rj[i]));
            let t = choose|t: int| 0 <= t < p0.len() && p0[t] == rj[i];
            assert(total[t] == p0[t]);
        }
    }
}

/// An OTX whose base inputs or one of whose append segments hold an input of
/// the lock requires of the lock the matching signature, carried by the OTX's witness.
proof fn lemma_contribution_signs_input(c: &CobuildContext, lock: Seq<u8>, lock_inputs: Seq<usize>, j: int, xp: int)
    requires
        c.spec_layouts() is Some,
        0 <= j < c.spec_layouts()->Some_0.entries.len(),
        0 <= xp < lock_inputs.len(),
        c.spec_layouts()->Some_0.entries[j].0.append_segments.len() <= usize::MAX,
        c.spec_otx_lock_contribution(lock, lock_inputs, j) is Ok,
    ensures
        ({
            let l = c.spec_layouts()->Some_0.entries[j].0;
            let rj = c.spec_otx_lock_contribution(lock, lock_inputs, j)->Ok_0.0;
            let x = lock_inputs[xp] as int;
            &&& spec_range_holds(l.base_inputs, x) ==> spec_requires_signature(rj, SignatureOrigin::OtxBase, l.witness_index)
            &&& (exists|k: int| 0 <= k < l.append_segments.len() && spec_range_holds(#[trigger] l.append_segments[k].inputs, x))
                ==> spec_requires_signature(rj, SignatureOrigin::OtxAppend, l.witness_index)
        }),
{
    reveal(CobuildContext::spec_otx_lock_contribution);
    let (l, o) = c.spec_layouts()->Some_0.entries[j];
    let x = lock_inputs[xp] as int;
    let rj = c.spec_otx_lock_contribution(lock, lock_inputs, j)->Ok_0.0;
    let base_signature = spec_any_in(lock_inputs, l.base_inputs);
    let segments = spec_required_segments(lock_inputs, l.append_segments, l.append_segments.len());
    let in_segment = exists|k: int| 0 <= k < l.append_segments.len() && spec_range_holds(#[trigger] l.append_segments[k].inputs, x);
    if spec_range_holds(l.base_inputs, x) || in_segment {
        let s = c.spec_source();
        let bp = spec_otx_base_preimage(o, l, s)->Ok_0;
        let base_hash = blake2b_personal_digest(OTX_BASE_PERSONAL@, bp);
        if spec_range_holds(l.base_inputs, x) {
            assert(base_signature);
        }
        if in_segment {
            let k = choose|k: int| 0 <= k < l.append_segments.len() && spec_range_holds(#[trigger] l.append_segments[k].inputs, x);
            assert(spec_any_in(lock_inputs, l.append_segments[k].inputs));
            lemma_required_segments_contain(lock_inputs, l.append_segments, l.append_segments.len(), k);
            assert(segments.len() > 0);
        }
        assert(rj == spec_otx_signatures(s, lock, l, o, base_signature, segments)->Ok_0);
        let sr = spec_segment_requirements(s, lock, l, o, base_hash, segments, segments.len())->Ok_0;
        let br: Seq<RequirementModel> = if base_signature {
            seq![RequirementModel {
                origin: SignatureOrigin::OtxBase,
                carrier_witness_index: l.witness_index,
                seal: crate::seal::spec_unique_lock_seal(o.base_seals, lock)->Ok_0,
                signing_message_hash: base_hash,
            }]
        } else {
            Seq::empty()
        };
        assert(rj == br + sr);
        if spec_range_holds(l.base_inputs, x) {
            assert(rj[0].origin == SignatureOrigin::OtxBase && rj[0].carrier_witness_index == l.witness_index);
        }
        if in_segment {
            let k = choose|k: int| 0 <= k < l.append_segments.len() && spec_range_holds(#[trigger] l.append_segments[k].inputs, x);
            let m = choose|m: int| 0 <= m < segments.len() && (#[trigger] segments[m]) as int == k;
            lemma_segment_requirements_items(s, lock, l, o, base_hash, segments, segments.len());
            lemma_segment_requirement_origin(s, lock, l, o, base_hash, segments[m] as int);
            assert(rj[br.len() + m] == sr[m]);
            assert(rj[br.len() + m].origin == SignatureOrigin::OtxAppend);
        }
    }
}


/// Requirements a longer list contains are required by it too.
proof fn lemma_requires_signature_in(part: Seq<RequirementModel>, whole: Seq<RequirementModel>, origin: SignatureOrigin, w: int)
    requires
        spec_requires_signature(part, origin, w),
        forall|i: int| 0 <= i < part.len() ==> whole.contains(#[trigger] part[i]),
    ensures
        spec_requires_signature(whole, origin, w),
{
    let i = choose|i: int| 0 <= i < part.len() && (#[trigger] part[i]).origin == origin && part[i].carrier_witness_index == w;
    assert(whole.contains(part[i]));
    let t = choose|t: int| 0 <= t < whole.len() && whole[t] == part[i];
    assert(whole[t].origin == origin && whole[t].carrier_witness_index == w);
}

/// Every input of the lock is signed for by the lock's plan: whenever the
/// plan requires any signature, each input of the lock is covered by a
/// transaction-level signature, or by the base or append signature of the OTX
/// part that holds it. This holds of every context whose OTX run covers its
/// input range with its OTXs, as every built run does.
pub proof fn lock_plan_signs_every_lock_input(c: &CobuildContext, xp: int)
    requires
        c.wf(),
        c.spec_lock_plan() is Ok,
        0 <= xp < c.spec_script_context().spec_lock_inputs()->Some_0.len(),
        c.spec_layouts() matches Some(b) ==> {
            &&& spec_run_covers_inputs(b)
            &&& forall|j: int| 0 <= j < b.entries.len() ==> (#[trigger] b.entries[j]).0.append_segments.len() <= usize::MAX
        },
    ensures
        ({
            let p = c.spec_lock_plan()->Ok_0;
            let x = c.spec_script_context().spec_lock_inputs()->Some_0[xp] as int;
            p.required_signatures.len() > 0 ==> spec_input_signed_for(p.required_signatures, c.spec_layouts(), x)
        }),
{
    let sc = c.spec_script_context();
    let lock = sc.spec_script()->InputLock_0@;
    let lock_inputs = sc.spec_lock_inputs()->Some_0;
    let x = lock_inputs[xp] as int;
    let p = c.spec_lock_plan()->Ok_0;
    let reqs = p.required_signatures;
    if reqs.len() > 0 && !(exists|i: int| 0 <= i < reqs.len() && (#[trigger] reqs[i]).origin == SignatureOrigin::TxLevel) {
        lock_plan_covers_lock_group(c);
        let b = c.spec_layouts()->Some_0;
        assert(!spec_any_outside(lock_inputs, b.input_range));
        assert(spec_range_holds(b.input_range, lock_inputs[xp] as int));
        let j = choose|j: int| 0 <= j < b.entries.len() && spec_input_in_otx((#[trigger] b.entries[j]).0, x);
        let n = b.entries.len();
        let tr = c.spec_tx_requirement(lock, lock_inputs)->Ok_0;
        let otx_reqs = c.spec_otx_lock_contributions(lock, lock_inputs, n)->Ok_0.0;
        let first: Seq<RequirementModel> = match tr {
            Some(r) => seq![r],
            None => Seq::empty(),
        };
        assert(reqs == first + otx_reqs);
        lemma_contribution_in_total(c, lock, lock_inputs, n, j);
        lemma_contribution_signs_input(c, lock, lock_inputs, j, xp);
        let l = b.entries[j].0;
        let rj = c.spec_otx_lock_contribution(lock, lock_inputs, j)->Ok_0.0;
        assert forall|i: int| 0 <= i < otx_reqs.len() implies reqs.contains(#[trigger] otx_reqs[i]) by {
            assert(reqs[first.len() + i] == otx_reqs[i]);
        }
        assert forall|i: int| 0 <= i < rj.len() implies reqs.contains(#[trigger] rj[i]) by {
            assert(otx_reqs.contains(rj[i]));
            let t = choose|t: int| 0 <= t < otx_reqs.len() && otx_reqs[t] == rj[i];
            assert(reqs.contains(otx_reqs[t]));
        }
        if spec_range_holds(l.base_inputs, x) {
            lemma_requires_signature_in(rj, reqs, SignatureOrigin::OtxBase, l.witness_index);
        } else {
            lemma_requires_signature_in(rj, reqs, SignatureOrigin::OtxAppend, l.witness_index);
            let k = choose|k: int| 0 <= k < l.append_segments.len() && spec_range_holds(#[trigger] l.append_segments[k].inputs, x);
            assert(0 <= k < l.append_segments.len() && spec_range_holds(l.append_segments[k].inputs, x)
                && spec_requires_signature(reqs, SignatureOrigin::OtxAppend, l.witness_index));
        }
    }
}


/// An input index between the start of a run and the end of its first `n`
/// OTXs lies within one of them.
proof fn lemma_index_in_some_entry(start: NextModel, entries: Seq<(int, OtxModel)>, n: nat, x: int)
    requires
        n <= entries.len(),
        forall|k: int| 0 <= k < entries.len() ==> spec_otx_counts_nonneg(#[trigger] entries[k].1),
        start.input <= x < spec_entries_end(start, entries, n).input,
    ensures
        exists|j: int| 0 <= j < n && spec_entries_end(start, entries, j as nat).input <= x
            && x < #[trigger] spec_entries_end(start, entries, (j + 1) as nat).input,
    decreases n,
{
    if n > 0 {
        let prev = spec_entries_end(start, entries, (n - 1) as nat);
        if x < prev.input {
            lemma_index_in_some_entry(start, entries, (n - 1) as nat, x);
            let j = choose|j: int| 0 <= j < n - 1 && spec_entries_end(start, entries, j as nat).input <= x
                && x < #[trigger] spec_entries_end(start, entries, (j + 1) as nat).input;
            assert(0 <= j < n);
        } else {
            assert(spec_entries_end(start, entries, ((n - 1) + 1) as nat) == spec_entries_end(start, entries, n));
        }
    }
}

/// An input index between the end of an OTX's base inputs and the end of its
/// first `n` append segments lies within one of them.
proof fn lemma_index_in_some_segment(from: NextModel, segs: Seq<SegmentModel>, n: nat, x: int)
    requires
        n <= segs.len(),
        from.input <= x < spec_after_segments(from, segs, n).input,
    ensures
        exists|k: int| 0 <= k < n && spec_after_segments(from, segs, k as nat).input <= x
            && x < #[trigger] spec_after_segments(from, segs, (k + 1) as nat).input,
    decreases n,
{
    if n > 0 {
        let prev = spec_after_segments(from, segs, (n - 1) as nat);
        if x < prev.input {
            lemma_index_in_some_segment(from, segs, (n - 1) as nat, x);
            let k = choose|k: int| 0 <= k < n - 1 && spec_after_segments(from, segs, k as nat).input <= x
                && x < #[trigger] spec_after_segments(from, segs, (k + 1) as nat).input;
            assert(0 <= k < n);
        } else {
            assert(spec_after_segments(from, segs, ((n - 1) + 1) as nat) == spec_after_segments(from, segs, n));
        }
    }
}

/// A built OTX run covers its input range with its OTXs: every input index of
/// the run lies in the base inputs or in an append segment of one of its OTXs.
pub proof fn built_run_covers_its_inputs(b: BuiltLayoutModel, state: CollectorModel, counts: NextModel)
    requires
        state.start is Some,
        spec_run_complete(state, counts),
        spec_built_layout_is(b, state),
        counts.input <= usize::MAX,
        spec_start_next((state.start->0).1).input >= 0,
        forall|k: int| 0 <= k < state.entries.len() ==> spec_otx_counts_nonneg(#[trigger] state.entries[k].1),
    ensures
        spec_run_covers_inputs(b),
{
    let start = spec_start_next((state.start->0).1);
    let entries = state.entries;
    let n = entries.len();
    let end = spec_entries_end(start, entries, n);
    lemma_entries_end_monotone(start, entries, 0, n);
    assert forall|x: int| spec_range_holds(b.input_range, x) implies exists|j: int|
        0 <= j < b.entries.len() && spec_input_in_otx((#[trigger] b.entries[j]).0, x) by {
        assert(start.input <= x < end.input);
        lemma_index_in_some_entry(start, entries, n, x);
        let j = choose|j: int| 0 <= j < n && spec_entries_end(start, entries, j as nat).input <= x
            && x < #[trigger] spec_entries_end(start, entries, (j + 1) as nat).input;
        let nj = spec_entries_end(start, entries, j as nat);
        let o = entries[j].1;
        let l = b.entries[j].0;
        assert(b.entries[j].1 == o);
        assert(spec_entries_end(start, entries, (j + 1) as nat) == spec_otx_end(nj, o));
        lemma_entries_end_monotone(start, entries, (j + 1) as nat, n);
        lemma_entries_end_monotone(start, entries, 0, j as nat);
        lemma_otx_end_grows(nj, o);
        let after_base = spec_after_base(nj, o);
        if x < after_base.input {
            assert(spec_range_holds(l.base_inputs, x));
        } else {
            let segs = o.append_segments;
            lemma_index_in_some_segment(after_base, segs, segs.len(), x);
            let k = choose|k: int| 0 <= k < segs.len() && spec_after_segments(after_base, segs, k as nat).input <= x
                && x < #[trigger] spec_after_segments(after_base, segs, (k + 1) as nat).input;
            lemma_after_segments_monotone(after_base, segs, (k + 1) as nat, segs.len());
            assert(spec_after_segments(after_base, segs, (k + 1) as nat) == crate::layout::spec_add_segment(
                spec_after_segments(after_base, segs, k as nat),
                segs[k],
            ));
            assert(spec_range_holds(l.append_segments[k].inputs, x));
        }
        assert(spec_input_in_otx(b.entries[j].0, x));
    }
}

} // verus!
