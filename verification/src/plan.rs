//! Validation plans: the signatures a lock must check, the actions that
//! concern a lock or a type script, and the canonical references to them.

use vstd::prelude::*;

use crate::error::CoreError;
use crate::hash::{blake2b_256_personal, blake2b_personal_digest, checked_len_prefix, spec_le32_bytes};
use crate::layout::{IndexRange, Range};
use crate::lazy_reader::support::CursorView;
use crate::protocol::ScriptRole;
use crate::reader::cursor_bytes;
use crate::view::{ActionModel, ActionView};

verus! {

/// Personalization of the action hash.
pub const ACTION_HASH_PERSONAL: [u8; 16] = [
    99, 107, 98, 99, 98, 95, 97, 99, 116, 95, 99, 111, 114, 101, 49, 0,
];

/// The signatures a lock script must check and the actions that concern it.
#[derive(Clone)]
pub struct LockValidationPlan {
    pub lock_script_hash: [u8; 32],
    pub required_signatures: Vec<SigningRequirement>,
    pub related_actions: Vec<RelatedAction>,
}

/// The only item of a list, none for an empty list, a duplicate error otherwise.
pub fn unique_slice_item<T>(items: &[T]) -> (res: Result<Option<&T>, CoreError>)
    ensures
        items@.len() == 0 ==> res == Ok::<Option<&T>, CoreError>(None),
        items@.len() == 1 ==> (res matches Ok(Some(r)) && *r == items@[0]),
        items@.len() > 1 ==> res == Err::<Option<&T>, CoreError>(CoreError::DuplicateMatchingAction),
{
    if items.len() == 0 {
        Ok(None)
    } else if items.len() == 1 {
        Ok(Some(&items[0]))
    } else {
        Err(CoreError::DuplicateMatchingAction)
    }
}

impl LockValidationPlan {
    /// The only related action, if there is exactly one.
    pub fn unique_related_action(&self) -> (res: Result<Option<&RelatedAction>, CoreError>)
        ensures
            self.related_actions@.len() == 0 ==> res == Ok::<Option<&RelatedAction>, CoreError>(None),
            self.related_actions@.len() == 1 ==> (res matches Ok(Some(r)) && *r == self.related_actions@[0]),
            self.related_actions@.len() > 1 ==> res == Err::<Option<&RelatedAction>, CoreError>(
                CoreError::DuplicateMatchingAction,
            ),
    {
        unique_slice_item(self.related_actions.as_slice())
    }
}

/// The abstract value of a signing requirement.
pub struct RequirementModel {
    pub origin: SignatureOrigin,
    pub carrier_witness_index: int,
    pub seal: Seq<u8>,
    pub signing_message_hash: Seq<u8>,
}

impl View for SigningRequirement {
    type V = RequirementModel;

    open spec fn view(&self) -> RequirementModel {
        RequirementModel {
            origin: self.origin,
            carrier_witness_index: self.carrier_witness_index as int,
            seal: self.seal@,
            signing_message_hash: self.signing_message_hash@,
        }
    }
}

/// The abstract value of a lock validation plan.
pub struct LockPlanModel {
    pub lock_script_hash: Seq<u8>,
    pub required_signatures: Seq<RequirementModel>,
    pub related_actions: Seq<RelatedActionModel>,
}

impl View for LockValidationPlan {
    type V = LockPlanModel;

    open spec fn view(&self) -> LockPlanModel {
        LockPlanModel {
            lock_script_hash: self.lock_script_hash@,
            required_signatures: self.required_signatures@.map_values(|r: SigningRequirement| r@),
            related_actions: self.related_actions@.map_values(|r: RelatedAction| r@),
        }
    }
}

/// One signature a lock must check: where its seal is and what it signs.
#[derive(Clone, Debug, PartialEq, Eq)]
pub struct SigningRequirement {
    pub origin: SignatureOrigin,
    pub carrier_witness_index: usize,
    pub seal: Vec<u8>,
    pub signing_message_hash: [u8; 32],
}

/// Which part of the transaction a signature covers.
#[derive(Clone, Copy, Debug, PartialEq, Eq, Structural)]
pub enum SignatureOrigin {
    TxLevel,
    OtxBase,
    OtxAppend,
}

/// The actions that concern a type script.
#[derive(Clone)]
pub struct TypeValidationPlan {
    pub type_script_hash: [u8; 32],
    pub related_actions: Vec<TypeRelatedAction>,
}

impl TypeValidationPlan {
    /// The only related action, if there is exactly one.
    pub fn unique_related_action(&self) -> (res: Result<Option<&TypeRelatedAction>, CoreError>)
        ensures
            self.related_actions@.len() == 0 ==> res == Ok::<Option<&TypeRelatedAction>, CoreError>(None),
            self.related_actions@.len() == 1 ==> (res matches Ok(Some(r)) && *r == self.related_actions@[0]),
            self.related_actions@.len() > 1 ==> res == Err::<Option<&TypeRelatedAction>, CoreError>(
                CoreError::DuplicateMatchingAction,
            ),
    {
        unique_slice_item(self.related_actions.as_slice())
    }
}

/// The abstract value of a type-related action.
pub struct TypeRelatedActionModel {
    pub action: RelatedActionModel,
    pub otx_type_scope: TypeActionOtxScope,
}

impl View for TypeRelatedAction {
    type V = TypeRelatedActionModel;

    open spec fn view(&self) -> TypeRelatedActionModel {
        TypeRelatedActionModel { action: self.action@, otx_type_scope: self.otx_type_scope }
    }
}

/// The abstract value of a type validation plan.
pub struct TypePlanModel {
    pub type_script_hash: Seq<u8>,
    pub related_actions: Seq<TypeRelatedActionModel>,
}

impl View for TypeValidationPlan {
    type V = TypePlanModel;

    open spec fn view(&self) -> TypePlanModel {
        TypePlanModel {
            type_script_hash: self.type_script_hash@,
            related_actions: self.related_actions@.map_values(|r: TypeRelatedAction| r@),
        }
    }
}

/// An action that concerns a type script, with how the type relates to the OTX it came from.
#[derive(Clone)]
pub struct TypeRelatedAction {
    pub action: RelatedAction,
    pub otx_type_scope: TypeActionOtxScope,
}

impl TypeRelatedAction {
    /// The canonical reference of the action.
    pub fn action_ref(&self) -> (res: ActionRef)
        ensures
            res == self.action.origin.spec_action_ref(self.action.action.index),
    {
        self.action.action_ref()
    }
}

/// Whether a type action's OTX also holds cells of the type, and which.
#[derive(Clone, Copy, Debug, PartialEq, Eq, Structural)]
pub enum TypeActionOtxScope {
    TargetOnly,
    InOtxScope(OtxTypeRelation),
}

impl TypeActionOtxScope {
    /// The relation, when the OTX holds cells of the type.
    pub fn in_otx_scope(self) -> (res: Option<OtxTypeRelation>)
        ensures
            res == match self {
                TypeActionOtxScope::TargetOnly => None::<OtxTypeRelation>,
                TypeActionOtxScope::InOtxScope(r) => Some(r),
            },
    {
        match self {
            TypeActionOtxScope::TargetOnly => None,
            TypeActionOtxScope::InOtxScope(relation) => Some(relation),
        }
    }
}

/// The abstract value of a related action.
pub struct RelatedActionModel {
    pub origin: ActionOrigin,
    pub action: ActionModel,
}

/// An action with the witness (and OTX) it came from.
#[derive(Clone)]
pub struct RelatedAction {
    pub origin: ActionOrigin,
    pub action: ActionView,
}

impl View for RelatedAction {
    type V = RelatedActionModel;

    open spec fn view(&self) -> RelatedActionModel {
        RelatedActionModel { origin: self.origin, action: self.action@ }
    }
}

impl RelatedAction {
    /// The canonical reference of the action.
    pub fn action_ref(&self) -> (res: ActionRef)
        ensures
            res == self.origin.spec_action_ref(self.action.index),
    {
        self.origin.action_ref(self.action.index)
    }

    /// The hash that binds the action to its reference.
    pub fn action_hash(&self) -> (res: Result<[u8; 32], CoreError>)
        ensures
            spec_action_preimage(self.origin.spec_action_ref(self.action.index), self.action@) matches Ok(p)
                ==> res matches Ok(h) && h@ == blake2b_personal_digest(ACTION_HASH_PERSONAL@, p),
            spec_action_preimage(self.origin.spec_action_ref(self.action.index), self.action@) matches Err(e)
                ==> res == Err::<[u8; 32], CoreError>(e),
    {
        action_hash(self.action_ref(), &self.action)
    }
}

/// Four little-endian bytes of a count, if it fits in 32 bits.
pub open spec fn spec_len_prefix(n: int) -> Option<Seq<u8>> {
    if 0 <= n <= 0xffff_ffff {
        Some(spec_le32_bytes(n))
    } else {
        None
    }
}

/// The bytes that name an action reference in the action hash.
pub open spec fn spec_action_ref_bytes(r: ActionRef) -> Option<Seq<u8>> {
    match r {
        ActionRef::TxLevel { witness_index, action_index } => match (
            spec_len_prefix(witness_index as int),
            spec_len_prefix(action_index as int),
        ) {
            (Some(w), Some(a)) => Some(seq![0u8] + w + seq![0u8, 0u8, 0u8, 0u8] + a),
            _ => None,
        },
        ActionRef::Otx { witness_index, otx_index, action_index } => match (
            spec_len_prefix(witness_index as int),
            spec_len_prefix(otx_index as int),
            spec_len_prefix(action_index as int),
        ) {
            (Some(w), Some(o), Some(a)) => Some(seq![1u8] + w + o + a),
            _ => None,
        },
    }
}

/// The raw role byte of a script role.
pub open spec fn spec_role_byte(role: ScriptRole) -> u8 {
    match role {
        ScriptRole::InputLock => 0u8,
        ScriptRole::InputType => 1u8,
        ScriptRole::OutputType => 2u8,
    }
}

/// What the action hash hashes: the reference, the script-info hash, the
/// role byte, the script hash and the length-prefixed data.
pub open spec fn spec_action_preimage(r: ActionRef, a: ActionModel) -> Result<Seq<u8>, CoreError> {
    match spec_action_ref_bytes(r) {
        None => Err(CoreError::HashInputTooLarge),
        Some(rb) => match spec_len_prefix(a.data.size) {
            None => Err(CoreError::HashInputTooLarge),
            Some(lp) => if !a.data.readable() {
                Err(CoreError::MalformedCobuild)
            } else {
                Ok(rb + a.script_info_hash + seq![spec_role_byte(a.script_role)] + a.script_hash + lp + a.data.bytes())
            },
        },
    }
}

/// Four little-endian bytes name a 32-bit count: two counts with the same bytes are equal.
proof fn lemma_le32_bytes_injective(x: u32, y: u32)
    requires
        spec_le32_bytes(x as int) == spec_le32_bytes(y as int),
    ensures
        x == y,
{
    let bx = spec_le32_bytes(x as int);
    let by_ = spec_le32_bytes(y as int);
    assert(bx[0] == by_[0] && bx[1] == by_[1] && bx[2] == by_[2] && bx[3] == by_[3]);
    assert((x % 256) as u8 == (x % 256)) by (bit_vector);
    assert((y % 256) as u8 == (y % 256)) by (bit_vector);
    assert(((x / 256) % 256) as u8 == ((x / 256) % 256)) by (bit_vector);
    assert(((y / 256) % 256) as u8 == ((y / 256) % 256)) by (bit_vector);
    assert(((x / 65536) % 256) as u8 == ((x / 65536) % 256)) by (bit_vector);
    assert(((y / 65536) % 256) as u8 == ((y / 65536) % 256)) by (bit_vector);
    assert(((x / 16777216) % 256) as u8 == ((x / 16777216) % 256)) by (bit_vector);
    assert(((y / 16777216) % 256) as u8 == ((y / 16777216) % 256)) by (bit_vector);
    assert(x == y) by (bit_vector)
        requires
            x % 256 == y % 256,
            (x / 256) % 256 == (y / 256) % 256,
            (x / 65536) % 256 == (y / 65536) % 256,
            (x / 16777216) % 256 == (y / 16777216) % 256,
    ;
}

/// Two counts of at most 32 bits with equal length prefixes are equal.
proof fn lemma_len_prefix_injective(x: int, y: int)
    requires
        spec_len_prefix(x) is Some,
        spec_len_prefix(x) == spec_len_prefix(y),
    ensures
        x == y,
{
    lemma_le32_bytes_injective(x as u32, y as u32);
}

/// The bytes of a reference name it: equal bytes are equal references.
proof fn lemma_action_ref_bytes_injective(r1: ActionRef, r2: ActionRef)
    requires
        spec_action_ref_bytes(r1) is Some,
        spec_action_ref_bytes(r1) == spec_action_ref_bytes(r2),
    ensures
        r1 == r2,
{
    let b = spec_action_ref_bytes(r1)->Some_0;
    assert(b.len() == 13);
    match (r1, r2) {
        (ActionRef::TxLevel { witness_index: w1, action_index: a1 }, ActionRef::TxLevel { witness_index: w2, action_index: a2 }) => {
            let (p1, p2) = (spec_len_prefix(w1 as int)->Some_0, spec_len_prefix(w2 as int)->Some_0);
            assert(b.subrange(1, 5) =~= p1);
            assert(b.subrange(1, 5) =~= p2);
            lemma_len_prefix_injective(w1 as int, w2 as int);
            assert(b.subrange(9, 13) =~= spec_len_prefix(a1 as int)->Some_0);
            assert(b.subrange(9, 13) =~= spec_len_prefix(a2 as int)->Some_0);
            lemma_len_prefix_injective(a1 as int, a2 as int);
        },
        (ActionRef::Otx { witness_index: w1, otx_index: o1, action_index: a1 }, ActionRef::Otx { witness_index: w2, otx_index: o2, action_index: a2 }) => {
            assert(b.subrange(1, 5) =~= spec_len_prefix(w1 as int)->Some_0);
            assert(b.subrange(1, 5) =~= spec_len_prefix(w2 as int)->Some_0);
            lemma_len_prefix_injective(w1 as int, w2 as int);
            assert(b.subrange(5, 9) =~= spec_len_prefix(o1 as int)->Some_0);
            assert(b.subrange(5, 9) =~= spec_len_prefix(o2 as int)->Some_0);
            lemma_len_prefix_injective(o1 as int, o2 as int);
            assert(b.subrange(9, 13) =~= spec_len_prefix(a1 as int)->Some_0);
            assert(b.subrange(9, 13) =~= spec_len_prefix(a2 as int)->Some_0);
            lemma_len_prefix_injective(a1 as int, a2 as int);
        },
        (ActionRef::TxLevel { .. }, ActionRef::Otx { .. }) => {
            assert(b[0] == 0u8);
            assert(b[0] == 1u8);
        },
        (ActionRef::Otx { .. }, ActionRef::TxLevel { .. }) => {
            assert(b[0] == 1u8);
            assert(b[0] == 0u8);
        },
    }
}

/// The action hash binds both the reference and the action: two actions whose
/// hash preimages are equal have the same reference, script-info hash, role,
/// script hash and data.
pub proof fn action_preimage_binds_ref_and_content(r1: ActionRef, a1: ActionModel, r2: ActionRef, a2: ActionModel)
    requires
        a1.script_info_hash.len() == 32,
        a1.script_hash.len() == 32,
        a2.script_info_hash.len() == 32,
        a2.script_hash.len() == 32,
        spec_action_preimage(r1, a1) is Ok,
        spec_action_preimage(r1, a1) == spec_action_preimage(r2, a2),
    ensures
        r1 == r2,
        a1.script_info_hash == a2.script_info_hash,
        a1.script_role == a2.script_role,
        a1.script_hash == a2.script_hash,
        a1.data.bytes() == a2.data.bytes(),
{
    let p = spec_action_preimage(r1, a1)->Ok_0;
    let rb1 = spec_action_ref_bytes(r1)->Some_0;
    let rb2 = spec_action_ref_bytes(r2)->Some_0;
    let lp1 = spec_len_prefix(a1.data.size)->Some_0;
    let lp2 = spec_len_prefix(a2.data.size)->Some_0;
    assert(rb1.len() == 13 && rb2.len() == 13);
    assert(p == rb1 + a1.script_info_hash + seq![spec_role_byte(a1.script_role)] + a1.script_hash + lp1 + a1.data.bytes());
    assert(p == rb2 + a2.script_info_hash + seq![spec_role_byte(a2.script_role)] + a2.script_hash + lp2 + a2.data.bytes());
    assert(p.subrange(0, 13) =~= rb1);
    assert(p.subrange(0, 13) =~= rb2);
    lemma_action_ref_bytes_injective(r1, r2);
    assert(p.subrange(13, 45) =~= a1.script_info_hash);
    assert(p.subrange(13, 45) =~= a2.script_info_hash);
    assert(p[45] == spec_role_byte(a1.script_role));
    assert(p[45] == spec_role_byte(a2.script_role));
    assert(p.subrange(46, 78) =~= a1.script_hash);
    assert(p.subrange(46, 78) =~= a2.script_hash);
    assert(p.subrange(82, p.len() as int) =~= a1.data.bytes());
    assert(p.subrange(82, p.len() as int) =~= a2.data.bytes());
}

fn append_bytes(out: &mut Vec<u8>, bytes: &[u8])
    ensures
        final(out)@ == old(out)@ + bytes@,
{
    let mut i: usize = 0;
    let ghost start = out@;
    while i < bytes.len()
        invariant
            0 <= i <= bytes@.len(),
            out@ == start + bytes@.take(i as int),
        decreases bytes@.len() - i,
    {
        out.push(bytes[i]);
        proof {
            assert(bytes@.take(i + 1) =~= bytes@.take(i as int).push(bytes@[i as int]));
        }
        i = i + 1;
    }
    proof {
        assert(bytes@.take(bytes@.len() as int) =~= bytes@);
    }
}

fn write_action_ref(out: &mut Vec<u8>, action_ref: ActionRef) -> (res: Result<(), CoreError>)
    ensures
        spec_action_ref_bytes(action_ref) matches Some(b) ==> res is Ok && final(out)@ == old(out)@ + b,
        spec_action_ref_bytes(action_ref) is None ==> res == Err::<(), CoreError>(CoreError::HashInputTooLarge),
{
    match action_ref {
        ActionRef::TxLevel { witness_index, action_index } => {
            let w = checked_len_prefix(witness_index)?;
            let a = checked_len_prefix(action_index)?;
            let ghost start = out@;
            out.push(0u8);
            append_bytes(out, &w);
            append_bytes(out, &[0u8, 0u8, 0u8, 0u8]);
            append_bytes(out, &a);
            proof {
                assert(out@ =~= start + (seq![0u8] + w@ + seq![0u8, 0u8, 0u8, 0u8] + a@));
            }
        },
        ActionRef::Otx { witness_index, otx_index, action_index } => {
            let w = checked_len_prefix(witness_index)?;
            let o = checked_len_prefix(otx_index)?;
            let a = checked_len_prefix(action_index)?;
            let ghost start = out@;
            out.push(1u8);
            append_bytes(out, &w);
            append_bytes(out, &o);
            append_bytes(out, &a);
            proof {
                assert(out@ =~= start + (seq![1u8] + w@ + o@ + a@));
            }
        },
    }
    Ok(())
}

fn script_role_raw(role: ScriptRole) -> (res: u8)
    ensures
        res == spec_role_byte(role),
{
    match role {
        ScriptRole::InputLock => 0,
        ScriptRole::InputType => 1,
        ScriptRole::OutputType => 2,
    }
}

/// The hash that binds an action to its reference: blake2b-256, personalized
/// for actions, over [`spec_action_preimage`].
pub fn action_hash(action_ref: ActionRef, action: &ActionView) -> (res: Result<[u8; 32], CoreError>)
    ensures
        spec_action_preimage(action_ref, action@) matches Ok(p) ==> res matches Ok(h) && h@ == blake2b_personal_digest(
            ACTION_HASH_PERSONAL@,
            p,
        ),
        spec_action_preimage(action_ref, action@) matches Err(e) ==> res == Err::<[u8; 32], CoreError>(e),
{
    let mut preimage: Vec<u8> = Vec::new();
    write_action_ref(&mut preimage, action_ref)?;
    append_bytes(&mut preimage, &action.script_info_hash);
    preimage.push(script_role_raw(action.script_role));
    append_bytes(&mut preimage, &action.script_hash);
    let prefix = checked_len_prefix(action.data.size)?;
    append_bytes(&mut preimage, &prefix);
    let data = cursor_bytes(&action.data)?;
    append_bytes(&mut preimage, data.as_slice());
    proof {
        let rb = spec_action_ref_bytes(action_ref)->0;
        assert(preimage@ =~= rb + action@.script_info_hash + seq![spec_role_byte(action@.script_role)]
            + action@.script_hash + prefix@ + action@.data.bytes());
    }
    Ok(blake2b_256_personal(&ACTION_HASH_PERSONAL, preimage.as_slice()))
}

/// A canonical reference to an action: its witness, its OTX for an OTX
/// message, and its position in the message.
#[derive(Clone, Copy, Debug, PartialEq, Eq, Structural)]
pub enum ActionRef {
    TxLevel { witness_index: usize, action_index: usize },
    Otx { witness_index: usize, otx_index: usize, action_index: usize },
}

/// Lexicographic order of four-part keys.
pub open spec fn spec_key_le(a: (int, int, int, int), b: (int, int, int, int)) -> bool {
    a.0 < b.0 || (a.0 == b.0 && (a.1 < b.1 || (a.1 == b.1 && (a.2 < b.2 || (a.2 == b.2 && a.3 <= b.3)))))
}

impl ActionRef {
    /// The key references are ordered by: witness first, then transaction level
    /// before OTX, then the OTX, then the action.
    pub open spec fn spec_sort_key(self) -> (int, int, int, int) {
        match self {
            ActionRef::TxLevel { witness_index, action_index } => (witness_index as int, 0, 0, action_index as int),
            ActionRef::Otx { witness_index, otx_index, action_index } => (
                witness_index as int,
                1,
                otx_index as int,
                action_index as int,
            ),
        }
    }

    /// `self` comes no later than `other` in the canonical order.
    pub open spec fn spec_le(self, other: ActionRef) -> bool {
        spec_key_le(self.spec_sort_key(), other.spec_sort_key())
    }

    /// The key references are ordered by.
    pub fn sort_key(self) -> (res: (usize, u8, usize, usize))
        ensures
            (res.0 as int, res.1 as int, res.2 as int, res.3 as int) == self.spec_sort_key(),
    {
        match self {
            ActionRef::TxLevel { witness_index, action_index } => (witness_index, 0, 0, action_index),
            ActionRef::Otx { witness_index, otx_index, action_index } => (witness_index, 1, otx_index, action_index),
        }
    }

    /// `self` comes no later than `other` in the canonical order.
    pub fn le(self, other: ActionRef) -> (res: bool)
        ensures
            res == self.spec_le(other),
    {
        let a = self.sort_key();
        let b = other.sort_key();
        a.0 < b.0 || (a.0 == b.0 && (a.1 < b.1 || (a.1 == b.1 && (a.2 < b.2 || (a.2 == b.2 && a.3 <= b.3)))))
    }
}

/// The witness a reference points into.
pub open spec fn spec_ref_witness(r: ActionRef) -> int {
    match r {
        ActionRef::TxLevel { witness_index, .. } => witness_index as int,
        ActionRef::Otx { witness_index, .. } => witness_index as int,
    }
}

/// The canonical order of action references is a total order: every reference
/// comes no later than itself, any two are comparable, the order is transitive,
/// and two references that each come no later than the other are the same.
pub proof fn action_ref_order_is_total(a: ActionRef, b: ActionRef, c: ActionRef)
    ensures
        a.spec_le(a),
        a.spec_le(b) || b.spec_le(a),
        a.spec_le(b) && b.spec_le(c) ==> a.spec_le(c),
        a.spec_le(b) && b.spec_le(a) ==> a == b,
{
}

/// References are ordered by witness first: a reference into an earlier
/// witness comes strictly before one into a later witness, whatever their kinds.
pub proof fn action_ref_order_follows_witness_order(a: ActionRef, b: ActionRef)
    ensures
        spec_ref_witness(a) < spec_ref_witness(b) ==> a.spec_le(b) && !b.spec_le(a),
        a.spec_le(b) ==> spec_ref_witness(a) <= spec_ref_witness(b),
{
}

/// The references are in canonical order.
pub open spec fn spec_sorted_refs(s: Seq<ActionRef>) -> bool {
    forall|i: int, j: int| 0 <= i < j < s.len() ==> (#[trigger] s[i]).spec_le(#[trigger] s[j])
}

/// Sorts references into canonical order.
pub fn sort_action_refs(refs: &mut Vec<ActionRef>)
    ensures
        spec_sorted_refs(final(refs)@),
        final(refs)@.to_multiset() == old(refs)@.to_multiset(),
{
    broadcast use vstd::seq_lib::group_to_multiset_ensures;

    let mut out: Vec<ActionRef> = Vec::new();
    let n = refs.len();
    let mut i: usize = 0;
    while i < n
        invariant
            n == refs@.len(),
            0 <= i <= n,
            spec_sorted_refs(out@),
            out@.to_multiset() == refs@.take(i as int).to_multiset(),
        decreases n - i,
    {
        let x = refs[i];
        let mut p: usize = 0;
        while p < out.len() && out[p].le(x)
            invariant
                0 <= p <= out@.len(),
                forall|k: int| 0 <= k < p ==> (#[trigger] out@[k]).spec_le(x),
            decreases out@.len() - p,
        {
            p = p + 1;
        }
        let ghost before = out@;
        out.insert(p, x);
        proof {
            assert(refs@.take(i + 1) =~= refs@.take(i as int).push(x));
            assert(out@ =~= before.insert(p as int, x));
            vstd::seq_lib::to_multiset_insert(before, p as int, x);
            vstd::seq_lib::to_multiset_build(refs@.take(i as int), x);
            assert(out@.to_multiset() == refs@.take(i + 1).to_multiset());
            assert forall|a: int, b: int| 0 <= a < b < out@.len() implies (#[trigger] out@[a]).spec_le(#[trigger] out@[b]) by {
                if b < p {
                    assert(out@[a] == before[a] && out@[b] == before[b]);
                } else if b == p {
                    assert(out@[a] == before[a]);
                } else if a == p {
                    assert(out@[b] == before[b - 1]);
                    if p < before.len() {
                        assert(!before[p as int].spec_le(x));
                        if b - 1 > p {
                            assert(before[p as int].spec_le(before[b - 1]));
                        }
                    }
                } else if a < p {
                    assert(out@[a] == before[a] && out@[b] == before[b - 1]);
                } else {
                    assert(out@[a] == before[a - 1] && out@[b] == before[b - 1]);
                }
            }
        }
        i = i + 1;
    }
    proof {
        assert(refs@.take(n as int) =~= refs@);
    }
    *refs = out;
}

/// Where an action came from.
#[derive(Clone, Copy, Debug, PartialEq, Eq, Structural)]
pub enum ActionOrigin {
    TxLevel { witness_index: usize },
    Otx { witness_index: usize, otx_index: usize, layout: OtxMessageLayout },
}

impl ActionOrigin {
    /// The reference to action number `action_index` of this origin's message.
    pub open spec fn spec_action_ref(self, action_index: usize) -> ActionRef {
        match self {
            ActionOrigin::TxLevel { witness_index } => ActionRef::TxLevel { witness_index, action_index },
            ActionOrigin::Otx { witness_index, otx_index, .. } => ActionRef::Otx {
                witness_index,
                otx_index,
                action_index,
            },
        }
    }

    pub fn witness_index(self) -> (res: usize)
        ensures
            res == match self {
                ActionOrigin::TxLevel { witness_index } => witness_index,
                ActionOrigin::Otx { witness_index, .. } => witness_index,
            },
    {
        match self {
            ActionOrigin::TxLevel { witness_index } => witness_index,
            ActionOrigin::Otx { witness_index, .. } => witness_index,
        }
    }

    pub fn otx_index(self) -> (res: Option<usize>)
        ensures
            res == match self {
                ActionOrigin::TxLevel { .. } => None::<usize>,
                ActionOrigin::Otx { otx_index, .. } => Some(otx_index),
            },
    {
        match self {
            ActionOrigin::TxLevel { .. } => None,
            ActionOrigin::Otx { otx_index, .. } => Some(otx_index),
        }
    }

    pub fn otx_layout(self) -> (res: Option<OtxMessageLayout>)
        ensures
            res == match self {
                ActionOrigin::TxLevel { .. } => None::<OtxMessageLayout>,
                ActionOrigin::Otx { layout, .. } => Some(layout),
            },
    {
        match self {
            ActionOrigin::TxLevel { .. } => None,
            ActionOrigin::Otx { layout, .. } => Some(layout),
        }
    }

    pub fn is_tx_level(self) -> (res: bool)
        ensures
            res == self is TxLevel,
    {
        match self {
            ActionOrigin::TxLevel { .. } => true,
            _ => false,
        }
    }

    pub fn is_otx(self) -> (res: bool)
        ensures
            res == self is Otx,
    {
        match self {
            ActionOrigin::Otx { .. } => true,
            _ => false,
        }
    }

    /// The reference to action number `action_index` of this origin's message.
    pub fn action_ref(self, action_index: usize) -> (res: ActionRef)
        ensures
            res == self.spec_action_ref(action_index),
    {
        match self {
            ActionOrigin::TxLevel { witness_index } => ActionRef::TxLevel { witness_index, action_index },
            ActionOrigin::Otx { witness_index, otx_index, .. } => ActionRef::Otx { witness_index, otx_index, action_index },
        }
    }
}

/// The base or the appended part of an OTX.
#[derive(Clone, Copy, Debug, PartialEq, Eq, Structural)]
pub enum OtxPart {
    Base,
    Append,
}

/// The entity ranges an OTX message speaks for.
#[derive(Clone, Copy, Debug, PartialEq, Eq, Structural)]
pub struct OtxMessageLayout {
    pub base_inputs: Range,
    pub append_inputs: Range,
    pub base_outputs: Range,
    pub append_outputs: Range,
    pub base_cell_deps: Range,
    pub append_cell_deps: Range,
    pub base_header_deps: Range,
    pub append_header_deps: Range,
}

/// The appended range directly follows the base range, and their union fits.
pub open spec fn spec_adjacent(base: Range, append: Range) -> bool {
    &&& base.start + base.count == append.start
    &&& base.count + append.count <= usize::MAX
}

/// Where `index` lies: in the base range first, then in the appended range.
pub open spec fn spec_classify(base: Range, append: Range, index: int) -> Option<(OtxPart, usize)> {
    if base.spec_contains(index) {
        Some((OtxPart::Base, (index - base.start) as usize))
    } else if append.spec_contains(index) {
        Some((OtxPart::Append, (index - append.start) as usize))
    } else {
        None
    }
}

fn classify_index(base: Range, append: Range, index: usize) -> (res: Option<(OtxPart, usize)>)
    ensures
        res == spec_classify(base, append, index as int),
{
    if let Some(local_index) = base.local_index(index) {
        return Some((OtxPart::Base, local_index));
    }
    match append.local_index(index) {
        Some(local_index) => Some((OtxPart::Append, local_index)),
        None => None,
    }
}

fn merge_adjacent_ranges(base: Range, append: Range) -> (res: Range)
    requires
        spec_adjacent(base, append),
    ensures
        res.start == base.start,
        res.count == base.count + append.count,
{
    Range { start: base.start, count: base.count + append.count }
}

impl OtxMessageLayout {
    /// All inputs of the OTX: the base inputs followed by the appended ones.
    pub fn inputs(&self) -> (res: Range)
        requires
            spec_adjacent(self.base_inputs, self.append_inputs),
        ensures
            res.start == self.base_inputs.start,
            res.count == self.base_inputs.count + self.append_inputs.count,
    {
        merge_adjacent_ranges(self.base_inputs, self.append_inputs)
    }

    pub fn input_indexes(&self) -> (res: IndexRange)
        requires
            spec_adjacent(self.base_inputs, self.append_inputs),
            self.append_inputs.start + self.append_inputs.count <= usize::MAX,
        ensures
            res.start == self.base_inputs.start,
            res.end == self.append_inputs.start + self.append_inputs.count,
    {
        self.inputs().indexes()
    }

    pub fn contains_input(&self, index: usize) -> (res: bool)
        ensures
            res == spec_classify(self.base_inputs, self.append_inputs, index as int) is Some,
    {
        self.classify_input(index).is_some()
    }

    pub fn classify_input(&self, index: usize) -> (res: Option<(OtxPart, usize)>)
        ensures
            res == spec_classify(self.base_inputs, self.append_inputs, index as int),
    {
        classify_index(self.base_inputs, self.append_inputs, index)
    }

    /// All outputs of the OTX: the base outputs followed by the appended ones.
    pub fn outputs(&self) -> (res: Range)
        requires
            spec_adjacent(self.base_outputs, self.append_outputs),
        ensures
            res.start == self.base_outputs.start,
            res.count == self.base_outputs.count + self.append_outputs.count,
    {
        merge_adjacent_ranges(self.base_outputs, self.append_outputs)
    }

    pub fn output_indexes(&self) -> (res: IndexRange)
        requires
            spec_adjacent(self.base_outputs, self.append_outputs),
            self.append_outputs.start + self.append_outputs.count <= usize::MAX,
        ensures
            res.start == self.base_outputs.start,
            res.end == self.append_outputs.start + self.append_outputs.count,
    {
        self.outputs().indexes()
    }

    pub fn contains_output(&self, index: usize) -> (res: bool)
        ensures
            res == spec_classify(self.base_outputs, self.append_outputs, index as int) is Some,
    {
        self.classify_output(index).is_some()
    }

    pub fn classify_output(&self, index: usize) -> (res: Option<(OtxPart, usize)>)
        ensures
            res == spec_classify(self.base_outputs, self.append_outputs, index as int),
    {
        classify_index(self.base_outputs, self.append_outputs, index)
    }

    /// All cell deps of the OTX: the base ones followed by the appended ones.
    pub fn cell_deps(&self) -> (res: Range)
        requires
            spec_adjacent(self.base_cell_deps, self.append_cell_deps),
        ensures
            res.start == self.base_cell_deps.start,
            res.count == self.base_cell_deps.count + self.append_cell_deps.count,
    {
        merge_adjacent_ranges(self.base_cell_deps, self.append_cell_deps)
    }

    pub fn cell_dep_indexes(&self) -> (res: IndexRange)
        requires
            spec_adjacent(self.base_cell_deps, self.append_cell_deps),
            self.append_cell_deps.start + self.append_cell_deps.count <= usize::MAX,
        ensures
            res.start == self.base_cell_deps.start,
            res.end == self.append_cell_deps.start + self.append_cell_deps.count,
    {
        self.cell_deps().indexes()
    }

    pub fn contains_cell_dep(&self, index: usize) -> (res: bool)
        ensures
            res == spec_classify(self.base_cell_deps, self.append_cell_deps, index as int) is Some,
    {
        self.classify_cell_dep(index).is_some()
    }

    pub fn classify_cell_dep(&self, index: usize) -> (res: Option<(OtxPart, usize)>)
        ensures
            res == spec_classify(self.base_cell_deps, self.append_cell_deps, index as int),
    {
        classify_index(self.base_cell_deps, self.append_cell_deps, index)
    }

    /// All header deps of the OTX: the base ones followed by the appended ones.
    pub fn header_deps(&self) -> (res: Range)
        requires
            spec_adjacent(self.base_header_deps, self.append_header_deps),
        ensures
            res.start == self.base_header_deps.start,
            res.count == self.base_header_deps.count + self.append_header_deps.count,
    {
        merge_adjacent_ranges(self.base_header_deps, self.append_header_deps)
    }

    pub fn header_dep_indexes(&self) -> (res: IndexRange)
        requires
            spec_adjacent(self.base_header_deps, self.append_header_deps),
            self.append_header_deps.start + self.append_header_deps.count <= usize::MAX,
        ensures
            res.start == self.base_header_deps.start,
            res.end == self.append_header_deps.start + self.append_header_deps.count,
    {
        self.header_deps().indexes()
    }

    pub fn contains_header_dep(&self, index: usize) -> (res: bool)
        ensures
            res == spec_classify(self.base_header_deps, self.append_header_deps, index as int) is Some,
    {
        self.classify_header_dep(index).is_some()
    }

    pub fn classify_header_dep(&self, index: usize) -> (res: Option<(OtxPart, usize)>)
        ensures
            res == spec_classify(self.base_header_deps, self.append_header_deps, index as int),
    {
        classify_index(self.base_header_deps, self.append_header_deps, index)
    }

    pub fn base_inputs(&self) -> (res: Range)
        ensures
            res == self.base_inputs,
    {
        self.base_inputs
    }

    pub fn append_inputs(&self) -> (res: Range)
        ensures
            res == self.append_inputs,
    {
        self.append_inputs
    }

    pub fn base_outputs(&self) -> (res: Range)
        ensures
            res == self.base_outputs,
    {
        self.base_outputs
    }

    pub fn append_outputs(&self) -> (res: Range)
        ensures
            res == self.append_outputs,
    {
        self.append_outputs
    }

    pub fn base_cell_deps(&self) -> (res: Range)
        ensures
            res == self.base_cell_deps,
    {
        self.base_cell_deps
    }

    pub fn append_cell_deps(&self) -> (res: Range)
        ensures
            res == self.append_cell_deps,
    {
        self.append_cell_deps
    }

    pub fn base_header_deps(&self) -> (res: Range)
        ensures
            res == self.base_header_deps,
    {
        self.base_header_deps
    }

    pub fn append_header_deps(&self) -> (res: Range)
        ensures
            res == self.append_header_deps,
    {
        self.append_header_deps
    }
}

/// Where cells of the current type script lie within one OTX.
#[derive(Clone, Copy, Debug, PartialEq, Eq, Structural)]
pub struct OtxTypeRelation {
    pub input_type_in_base: bool,
    pub input_type_in_append: bool,
    pub output_type_in_base: bool,
    pub output_type_in_base_covered: bool,
    pub output_type_in_append: bool,
}

impl OtxTypeRelation {
    pub fn input_type_in_base(self) -> (res: bool)
        ensures
            res == self.input_type_in_base,
    {
        self.input_type_in_base
    }

    pub fn input_type_in_append(self) -> (res: bool)
        ensures
            res == self.input_type_in_append,
    {
        self.input_type_in_append
    }

    pub fn output_type_in_base(self) -> (res: bool)
        ensures
            res == self.output_type_in_base,
    {
        self.output_type_in_base
    }

    pub fn output_type_in_base_covered(self) -> (res: bool)
        ensures
            res == self.output_type_in_base_covered,
    {
        self.output_type_in_base_covered
    }

    pub fn output_type_in_append(self) -> (res: bool)
        ensures
            res == self.output_type_in_append,
    {
        self.output_type_in_append
    }

    pub fn input_type_present(self) -> (res: bool)
        ensures
            res == (self.input_type_in_base || self.input_type_in_append),
    {
        self.input_type_in_base || self.input_type_in_append
    }

    pub fn output_type_present(self) -> (res: bool)
        ensures
            res == (self.output_type_in_base || self.output_type_in_append),
    {
        self.output_type_in_base || self.output_type_in_append
    }

    pub fn base_type_present(self) -> (res: bool)
        ensures
            res == (self.input_type_in_base || self.output_type_in_base),
    {
        self.input_type_in_base || self.output_type_in_base
    }

    pub fn append_type_present(self) -> (res: bool)
        ensures
            res == (self.input_type_in_append || self.output_type_in_append),
    {
        self.input_type_in_append || self.output_type_in_append
    }

    pub fn type_present(self) -> (res: bool)
        ensures
            res == (self.input_type_in_base || self.input_type_in_append || self.output_type_in_base
                || self.output_type_in_append),
    {
        self.input_type_present() || self.output_type_present()
    }
}

} // verus!
