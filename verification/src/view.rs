//! Decoded views of Cobuild witnesses: messages and their actions, OTX and
//! OTX-start witnesses, seals and field masks.

use vstd::prelude::*;

use crate::error::CoreError;
use crate::lazy_reader::cobuild::{
    spec_valid_message, Action, LockSeal, LockSealVec, Message, Otx, OtxAppendSegment,
    OtxAppendSegmentVec, OtxStart,
};
use crate::lazy_reader::support::{
    field_byte32, field_raw_bytes, field_u32, field_u8, le32, Cursor, CursorView,
};
use crate::lazy_reader::witness::{spec_valid_witness_layout, spec_witness_item_id, WitnessLayout};
use crate::protocol::{spec_script_role, ScriptRole};
use crate::reader::{cursor_bytes, cursor_from_slice};

verus! {

pub const BASE_INPUT_MASK_BITS_PER_CELL: usize = 2;
pub const BASE_INPUT_SINCE_MASK_OFFSET: usize = 0;
pub const BASE_INPUT_PREVIOUS_OUTPUT_MASK_OFFSET: usize = 1;
pub const BASE_OUTPUT_MASK_BITS_PER_CELL: usize = 4;
pub const BASE_OUTPUT_CAPACITY_MASK_OFFSET: usize = 0;
pub const BASE_OUTPUT_LOCK_MASK_OFFSET: usize = 1;
pub const BASE_OUTPUT_TYPE_MASK_OFFSET: usize = 2;
pub const BASE_OUTPUT_DATA_MASK_OFFSET: usize = 3;

// ---------------------------------------------------------------------------
// Field masks
// ---------------------------------------------------------------------------

/// Bit `index` of a mask, counting from the least significant bit of the first byte.
pub open spec fn spec_mask_bit(mask: Seq<u8>, index: int) -> Option<bool> {
    if 0 <= index && index / 8 < mask.len() {
        Some((mask[index / 8] >> ((index % 8) as u8)) & 1u8 == 1u8)
    } else {
        None
    }
}

/// The number of bytes that hold `bit_count` bits.
pub open spec fn spec_mask_len(bit_count: int) -> int {
    if bit_count % 8 == 0 {
        bit_count / 8
    } else {
        bit_count / 8 + 1
    }
}

/// A mask holds exactly `bit_count` bits: it has just enough bytes, and the
/// unused high bits of its last byte are zero.
pub open spec fn spec_mask_valid(mask: Seq<u8>, bit_count: int) -> bool {
    &&& mask.len() == spec_mask_len(bit_count)
    &&& (bit_count % 8 == 0 || mask[mask.len() - 1] >> ((bit_count % 8) as u8) == 0u8)
}

/// A bit mask selecting which fields of which entities an OTX signs.
#[derive(Clone, Debug)]
pub struct MaskView {
    bytes: Vec<u8>,
}

impl View for MaskView {
    type V = Seq<u8>;

    closed spec fn view(&self) -> Seq<u8> {
        self.bytes@
    }
}

impl MaskView {
    pub fn new(bytes: Vec<u8>) -> (res: MaskView)
        ensures
            res@ == bytes@,
    {
        MaskView { bytes }
    }

    pub fn duplicate(&self) -> (res: MaskView)
        ensures
            res@ == self@,
    {
        MaskView { bytes: crate::reader::copy_bytes(self.bytes.as_slice()) }
    }

    /// Bit `index` of the mask; a bit past the last byte is a layout error.
    pub fn get(&self, index: usize) -> (res: Result<bool, CoreError>)
        ensures
            res is Ok <==> spec_mask_bit(self@, index as int) is Some,
            res matches Ok(b) ==> spec_mask_bit(self@, index as int) == Some(b),
            res matches Err(e) ==> e == CoreError::InvalidOtxLayout,
    {
        if index / 8 >= self.bytes.len() {
            return Err(CoreError::InvalidOtxLayout);
        }
        let byte = self.bytes[index / 8];
        let shift: u8 = (index % 8) as u8;
        let res = byte & (1u8 << shift) != 0;
        assert(res == ((byte >> shift) & 1u8 == 1u8)) by (bit_vector)
            requires
                shift < 8,
                res == (byte & (1u8 << shift) != 0),
        ;
        Ok(res)
    }

    pub fn len(&self) -> (res: usize)
        ensures
            res == self@.len(),
    {
        self.bytes.len()
    }

    pub fn is_empty(&self) -> (res: bool)
        ensures
            res == (self@.len() == 0),
    {
        self.bytes.len() == 0
    }

    pub fn bytes(&self) -> (res: &[u8])
        ensures
            res@ == self@,
    {
        self.bytes.as_slice()
    }

    /// The mask holds exactly `bit_count` bits.
    pub fn validate(&self, bit_count: usize) -> (res: Result<(), CoreError>)
        ensures
            res is Ok <==> spec_mask_valid(self@, bit_count as int),
            res matches Err(e) ==> e == CoreError::InvalidOtxLayout,
    {
        let expected_len = if bit_count % 8 == 0 {
            bit_count / 8
        } else {
            bit_count / 8 + 1
        };
        if self.bytes.len() != expected_len {
            return Err(CoreError::InvalidOtxLayout);
        }
        let used_bits: u8 = (bit_count % 8) as u8;
        if used_bits == 0 {
            return Ok(());
        }
        assert((1u8 << used_bits) >= 2u8) by (bit_vector)
            requires
                0 < used_bits < 8,
        ;
        let used_mask: u8 = (1u8 << used_bits) - 1;
        let last_byte = self.bytes[expected_len - 1];
        let bad = last_byte & !used_mask != 0;
        assert(bad == (last_byte >> used_bits != 0u8)) by (bit_vector)
            requires
                0 < used_bits < 8,
                used_mask == (1u8 << used_bits) - 1u8,
                bad == (last_byte & !used_mask != 0),
        ;
        if bad {
            return Err(CoreError::InvalidOtxLayout);
        }
        Ok(())
    }
}

// ---------------------------------------------------------------------------
// Actions and messages
// ---------------------------------------------------------------------------

/// The abstract value of a decoded action.
pub struct ActionModel {
    pub index: int,
    pub script_info_hash: Seq<u8>,
    pub script_role: ScriptRole,
    pub script_hash: Seq<u8>,
    pub data: CursorView,
}

/// A decoded action of a message, with its position in the message.
#[derive(Clone, Debug)]
pub struct ActionView {
    pub index: usize,
    pub script_info_hash: [u8; 32],
    pub script_role: ScriptRole,
    pub script_hash: [u8; 32],
    pub data: Cursor,
}

impl View for ActionView {
    type V = ActionModel;

    open spec fn view(&self) -> ActionModel {
        ActionModel {
            index: self.index as int,
            script_info_hash: self.script_info_hash@,
            script_role: self.script_role,
            script_hash: self.script_hash@,
            data: self.data@,
        }
    }
}

impl ActionView {
    pub fn duplicate(&self) -> (res: ActionView)
        ensures
            res@ == self@,
    {
        ActionView {
            index: self.index,
            script_info_hash: self.script_info_hash,
            script_role: self.script_role,
            script_hash: self.script_hash,
            data: self.data.duplicate(),
        }
    }
}

/// The views of a sequence of actions.
pub open spec fn spec_action_views(actions: Seq<ActionView>) -> Seq<ActionModel> {
    actions.map_values(|a: ActionView| a@)
}

/// Decodes action number `index` from its table: the role byte and the
/// script-info hash are read first, then the role is checked, then the
/// script hash and the data.
pub open spec fn spec_action(index: int, a: CursorView) -> Result<ActionModel, CoreError> {
    if field_u8(a, 1) is None || field_byte32(a, 0) is None {
        Err(CoreError::MalformedCobuild)
    } else if spec_script_role(field_u8(a, 1)->0) is None {
        Err(CoreError::InvalidMessageTarget)
    } else if field_byte32(a, 2) is None || field_raw_bytes(a, 3) is None {
        Err(CoreError::MalformedCobuild)
    } else {
        Ok(
            ActionModel {
                index,
                script_info_hash: field_byte32(a, 0)->0,
                script_role: spec_script_role(field_u8(a, 1)->0)->0,
                script_hash: field_byte32(a, 2)->0,
                data: field_raw_bytes(a, 3)->0,
            },
        )
    }
}

/// Decodes the first `n` actions of an action vector, stopping at the first error.
pub open spec fn spec_actions_prefix(v: CursorView, n: nat) -> Result<Seq<ActionModel>, CoreError>
    decreases n,
{
    if n == 0 {
        Ok(Seq::empty())
    } else {
        match spec_actions_prefix(v, (n - 1) as nat) {
            Err(e) => Err(e),
            Ok(prev) => match v.dynvec_item(n - 1) {
                None => Err(CoreError::MalformedCobuild),
                Some(a) => match spec_action(n - 1, a) {
                    Err(e) => Err(e),
                    Ok(m) => Ok(prev.push(m)),
                },
            },
        }
    }
}

/// Decodes all actions of a message.
pub open spec fn spec_message_actions(m: CursorView) -> Result<Seq<ActionModel>, CoreError> {
    match m.dynvec_item(0) {
        None => Err(CoreError::MalformedCobuild),
        Some(v) => match v.dynvec_length() {
            None => Err(CoreError::MalformedCobuild),
            Some(n) => spec_actions_prefix(v, n as nat),
        },
    }
}

/// Decodes action `index` of a message; `None` past the last action.
pub open spec fn spec_message_action(m: CursorView, index: int) -> Result<Option<ActionModel>, CoreError> {
    match m.dynvec_item(0) {
        None => Err(CoreError::MalformedCobuild),
        Some(v) => match v.dynvec_length() {
            None => Err(CoreError::MalformedCobuild),
            Some(n) => if index >= n {
                Ok(None)
            } else {
                match v.dynvec_item(index) {
                    None => Err(CoreError::MalformedCobuild),
                    Some(a) => match spec_action(index, a) {
                        Err(e) => Err(e),
                        Ok(x) => Ok(Some(x)),
                    },
                }
            },
        },
    }
}

/// Decoding the first `n` actions gives `n` actions; action `k` is item `k`
/// decoded alone, with index `k`.
pub proof fn lemma_actions_prefix_items(v: CursorView, n: nat)
    requires
        spec_actions_prefix(v, n) is Ok,
    ensures
        spec_actions_prefix(v, n)->Ok_0.len() == n,
        forall|k: int|
            0 <= k < n ==> spec_action_item(v, k) == Ok::<ActionModel, CoreError>(#[trigger] spec_actions_prefix(v, n)->Ok_0[k]),
    decreases n,
{
    if n > 0 {
        lemma_actions_prefix_items(v, (n - 1) as nat);
        let prev = spec_actions_prefix(v, (n - 1) as nat)->Ok_0;
        let s = spec_actions_prefix(v, n)->Ok_0;
        assert forall|k: int| 0 <= k < n implies spec_action_item(v, k) == Ok::<ActionModel, CoreError>(#[trigger] s[k]) by {
            if k < n - 1 {
                assert(s[k] == prev[k]);
            }
        }
    }
}

/// Item `k` of an action vector decoded alone.
pub open spec fn spec_action_item(v: CursorView, k: int) -> Result<ActionModel, CoreError> {
    match v.dynvec_item(k) {
        None => Err(CoreError::MalformedCobuild),
        Some(a) => spec_action(k, a),
    }
}

/// Each action of a decoded message is what decoding it alone gives, its
/// index is its position, and the position fits in 32 bits.
pub proof fn lemma_message_action_of_actions(m: CursorView, k: int)
    requires
        spec_message_actions(m) is Ok,
        0 <= k < spec_message_actions(m)->Ok_0.len(),
    ensures
        spec_message_action(m, k) == Ok::<Option<ActionModel>, CoreError>(Some(spec_message_actions(m)->Ok_0[k])),
        spec_message_actions(m)->Ok_0[k].index == k,
        k < 0x1_0000_0000,
{
    let v = m.dynvec_item(0)->Some_0;
    let n = v.dynvec_length()->Some_0;
    let s = spec_message_actions(m)->Ok_0;
    reveal(CursorView::dynvec_length);
    reveal(CursorView::item_count);
    if v.size != 4 {
        let w = CursorView { data: v.data, offset: v.offset + 4, size: v.size - 4 };
        assert(0 <= le32(w.data, w.offset) <= 0xffff_ffff);
        assert(w.item_count() == Some(n));
    }
    assert(0 <= n < 0x1_0000_0000);
    lemma_actions_prefix_items(v, n as nat);
    assert(spec_action_item(v, k) == Ok::<ActionModel, CoreError>(s[k]));
}

/// Checks the message's molecule structure, then decodes its actions.
pub open spec fn spec_checked_message_actions(m: CursorView) -> Result<Seq<ActionModel>, CoreError> {
    if !spec_valid_message(m, false) {
        Err(CoreError::InvalidOtxLayout)
    } else {
        spec_message_actions(m)
    }
}

/// The action targets the script `script_hash` in `role`.
pub open spec fn spec_action_matches(a: ActionModel, role: ScriptRole, script_hash: Seq<u8>) -> bool {
    a.script_role == role && a.script_hash == script_hash
}

fn action_view(index: usize, action: &Action) -> (res: Result<ActionView, CoreError>)
    ensures
        res is Ok <==> spec_action(index as int, action.cursor@) is Ok,
        res matches Ok(v) ==> spec_action(index as int, action.cursor@) == Ok::<ActionModel, CoreError>(v@),
        res matches Err(e) ==> spec_action(index as int, action.cursor@) == Err::<ActionModel, CoreError>(e),
{
    let script_role = match action.script_role() {
        Ok(r) => r,
        Err(_) => return Err(CoreError::MalformedCobuild),
    };
    let script_info_hash = match action.script_info_hash() {
        Ok(h) => h,
        Err(_) => return Err(CoreError::MalformedCobuild),
    };
    let role = ScriptRole::try_from(script_role)?;
    let script_hash = match action.script_hash() {
        Ok(h) => h,
        Err(_) => return Err(CoreError::MalformedCobuild),
    };
    let data = match action.data() {
        Ok(d) => d,
        Err(_) => return Err(CoreError::MalformedCobuild),
    };
    Ok(ActionView { index, script_info_hash, script_role: role, script_hash, data })
}

fn verify_message(message: &Cursor) -> (res: Result<(), CoreError>)
    ensures
        res is Ok <==> spec_valid_message(message@, false),
        res matches Err(e) ==> e == CoreError::InvalidOtxLayout,
{
    let message = Message::from_cursor(message.duplicate());
    match message.verify(false) {
        Ok(()) => Ok(()),
        Err(_) => Err(CoreError::InvalidOtxLayout),
    }
}

#[verifier::rlimit(40)]
fn parse_actions_from_verified_message(message: &Cursor) -> (res: Result<Vec<ActionView>, CoreError>)
    ensures
        res is Ok <==> spec_message_actions(message@) is Ok,
        res matches Ok(v) ==> spec_message_actions(message@) == Ok::<Seq<ActionModel>, CoreError>(
            spec_action_views(v@),
        ),
        res matches Err(e) ==> spec_message_actions(message@) == Err::<Seq<ActionModel>, CoreError>(e),
{
    let msg = Message::from_cursor(message.duplicate());
    let actions = match msg.actions() {
        Ok(a) => a,
        Err(_) => return Err(CoreError::MalformedCobuild),
    };
    let action_count = match actions.len() {
        Ok(n) => n,
        Err(_) => return Err(CoreError::MalformedCobuild),
    };
    let ghost v = actions.cursor@;
    let mut out: Vec<ActionView> = Vec::with_capacity(action_count);
    let mut index: usize = 0;
    proof {
        assert(spec_action_views(out@) =~= Seq::<ActionModel>::empty());
    }
    while index < action_count
        invariant
            v == actions.cursor@,
            message@.dynvec_item(0) == Some(v),
            v.dynvec_length() == Some(action_count as int),
            0 <= index <= action_count,
            spec_actions_prefix(v, index as nat) == Ok::<Seq<ActionModel>, CoreError>(
                spec_action_views(out@),
            ),
        decreases action_count - index,
    {
        let action = match actions.get(index) {
            Ok(a) => a,
            Err(_) => {
                proof {
                    lemma_actions_prefix_fails(v, index as nat, action_count as nat);
                }
                return Err(CoreError::MalformedCobuild);
            },
        };
        let view = match action_view(index, &action) {
            Ok(view) => view,
            Err(e) => {
                proof {
                    lemma_actions_prefix_fails(v, index as nat, action_count as nat);
                }
                return Err(e);
            },
        };
        let ghost prev = out@;
        let ghost m = view@;
        out.push(view);
        proof {
            assert(spec_action_views(out@) =~= spec_action_views(prev).push(m));
            lemma_actions_prefix_push(v, index as nat, spec_action_views(prev), m);
        }
        index = index + 1;
    }
    Ok(out)
}

proof fn lemma_actions_prefix_push(v: CursorView, n: nat, prev: Seq<ActionModel>, m: ActionModel)
    requires
        spec_actions_prefix(v, n) == Ok::<Seq<ActionModel>, CoreError>(prev),
        v.dynvec_item(n as int) is Some,
        spec_action(n as int, v.dynvec_item(n as int)->0) == Ok::<ActionModel, CoreError>(m),
    ensures
        spec_actions_prefix(v, n + 1) == Ok::<Seq<ActionModel>, CoreError>(prev.push(m)),
{
}

/// When the item after a decoded prefix is missing or does not decode, every
/// longer prefix fails with that item's error.
proof fn lemma_actions_prefix_fails(v: CursorView, n: nat, m: nat)
    requires
        n < m,
        spec_actions_prefix(v, n) is Ok,
        v.dynvec_item(n as int) is None || spec_action(n as int, v.dynvec_item(n as int)->0) is Err,
    ensures
        spec_actions_prefix(v, m) is Err,
        v.dynvec_item(n as int) is None ==> spec_actions_prefix(v, m) == Err::<Seq<ActionModel>, CoreError>(
            CoreError::MalformedCobuild,
        ),
        v.dynvec_item(n as int) is Some ==> spec_actions_prefix(v, m) == Err::<Seq<ActionModel>, CoreError>(
            spec_action(n as int, v.dynvec_item(n as int)->0)->Err_0,
        ),
{
    assert(spec_actions_prefix(v, n + 1) is Err);
    lemma_actions_prefix_err_stays(v, n + 1, m);
}

/// Once decoding a prefix of the actions fails, decoding any longer prefix
/// fails with the same error.
proof fn lemma_actions_prefix_err_stays(v: CursorView, n: nat, m: nat)
    requires
        n <= m,
        spec_actions_prefix(v, n) is Err,
    ensures
        spec_actions_prefix(v, m) == spec_actions_prefix(v, n),
    decreases m - n,
{
    if n < m {
        lemma_actions_prefix_err_stays(v, n, (m - 1) as nat);
    }
}

fn parse_action_from_verified_message(message: &Cursor, index: usize) -> (res: Result<Option<ActionView>, CoreError>)
    ensures
        res is Ok <==> spec_message_action(message@, index as int) is Ok,
        res matches Ok(None) ==> spec_message_action(message@, index as int) == Ok::<
            Option<ActionModel>,
            CoreError,
        >(None),
        res matches Ok(Some(a)) ==> spec_message_action(message@, index as int) == Ok::<
            Option<ActionModel>,
            CoreError,
        >(Some(a@)),
        res matches Err(e) ==> spec_message_action(message@, index as int) == Err::<
            Option<ActionModel>,
            CoreError,
        >(e),
{
    let msg = Message::from_cursor(message.duplicate());
    let actions = match msg.actions() {
        Ok(a) => a,
        Err(_) => return Err(CoreError::MalformedCobuild),
    };
    let action_count = match actions.len() {
        Ok(n) => n,
        Err(_) => return Err(CoreError::MalformedCobuild),
    };
    if index >= action_count {
        return Ok(None);
    }
    let action = match actions.get(index) {
        Ok(a) => a,
        Err(_) => return Err(CoreError::MalformedCobuild),
    };
    match action_view(index, &action) {
        Ok(v) => Ok(Some(v)),
        Err(e) => Err(e),
    }
}

/// A message, decoded on demand.
#[derive(Clone, Debug)]
pub struct MessageView {
    cursor: Cursor,
}

impl View for MessageView {
    type V = CursorView;

    closed spec fn view(&self) -> CursorView {
        self.cursor@
    }
}

/// Keeps the actions that target `script_hash` in `role`, in order.
pub open spec fn spec_filter_actions(actions: Seq<ActionModel>, role: ScriptRole, script_hash: Seq<u8>) -> Seq<ActionModel> {
    actions.filter(|a: ActionModel| spec_action_matches(a, role, script_hash))
}

impl MessageView {
    pub fn new(cursor: Cursor) -> (res: MessageView)
        ensures
            res@ == cursor@,
    {
        MessageView { cursor }
    }

    pub fn cursor(&self) -> (res: &Cursor)
        ensures
            res@ == self@,
    {
        &self.cursor
    }

    /// All actions of the message, after checking its molecule structure.
    pub fn actions(&self) -> (res: Result<Vec<ActionView>, CoreError>)
        ensures
            res is Ok <==> spec_checked_message_actions(self@) is Ok,
            res matches Ok(v) ==> spec_checked_message_actions(self@) == Ok::<
                Seq<ActionModel>,
                CoreError,
            >(spec_action_views(v@)),
            res matches Err(e) ==> spec_checked_message_actions(self@) == Err::<
                Seq<ActionModel>,
                CoreError,
            >(e),
    {
        verify_message(&self.cursor)?;
        parse_actions_from_verified_message(&self.cursor)
    }

    /// Action `index` of the message, after checking its molecule structure;
    /// `None` past the last action.
    pub fn action(&self, index: usize) -> (res: Result<Option<ActionView>, CoreError>)
        ensures
            !spec_valid_message(self@, false) ==> res == Err::<Option<ActionView>, CoreError>(
                CoreError::InvalidOtxLayout,
            ),
            spec_valid_message(self@, false) ==> {
                &&& res is Ok <==> spec_message_action(self@, index as int) is Ok
                &&& res matches Ok(None) ==> spec_message_action(self@, index as int) == Ok::<
                    Option<ActionModel>,
                    CoreError,
                >(None)
                &&& res matches Ok(Some(a)) ==> spec_message_action(self@, index as int) == Ok::<
                    Option<ActionModel>,
                    CoreError,
                >(Some(a@))
                &&& res matches Err(e) ==> spec_message_action(self@, index as int) == Err::<
                    Option<ActionModel>,
                    CoreError,
                >(e)
            },
    {
        verify_message(&self.cursor)?;
        parse_action_from_verified_message(&self.cursor, index)
    }

    /// All actions of the message, without checking its molecule structure again.
    pub fn actions_from_verified_message(&self) -> (res: Result<Vec<ActionView>, CoreError>)
        ensures
            res is Ok <==> spec_message_actions(self@) is Ok,
            res matches Ok(v) ==> spec_message_actions(self@) == Ok::<Seq<ActionModel>, CoreError>(
                spec_action_views(v@),
            ),
            res matches Err(e) ==> spec_message_actions(self@) == Err::<Seq<ActionModel>, CoreError>(e),
    {
        parse_actions_from_verified_message(&self.cursor)
    }

    /// Action `index`, without checking the message's molecule structure again.
    pub fn action_from_verified_message(&self, index: usize) -> (res: Result<Option<ActionView>, CoreError>)
        ensures
            res is Ok <==> spec_message_action(self@, index as int) is Ok,
            res matches Ok(None) ==> spec_message_action(self@, index as int) == Ok::<
                Option<ActionModel>,
                CoreError,
            >(None),
            res matches Ok(Some(a)) ==> spec_message_action(self@, index as int) == Ok::<
                Option<ActionModel>,
                CoreError,
            >(Some(a@)),
            res matches Err(e) ==> spec_message_action(self@, index as int) == Err::<
                Option<ActionModel>,
                CoreError,
            >(e),
    {
        parse_action_from_verified_message(&self.cursor, index)
    }

    /// The actions that target the script `script_hash` in `role`, in message order.
    pub fn actions_for(&self, role: ScriptRole, script_hash: [u8; 32]) -> (res: Result<Vec<ActionView>, CoreError>)
        ensures
            res is Ok <==> spec_checked_message_actions(self@) is Ok,
            res matches Ok(v) ==> spec_action_views(v@) == spec_filter_actions(
                spec_checked_message_actions(self@)->Ok_0,
                role,
                script_hash@,
            ),
            res matches Err(e) ==> spec_checked_message_actions(self@) == Err::<
                Seq<ActionModel>,
                CoreError,
            >(e),
    {
        let actions = self.actions()?;
        Ok(filter_actions(actions, role, script_hash))
    }

    /// The one action that targets `script_hash` in `role`; two or more is an error.
    pub fn unique_action_for(&self, role: ScriptRole, script_hash: [u8; 32]) -> (res: Result<Option<ActionView>, CoreError>)
        ensures
            spec_checked_message_actions(self@) matches Err(e) ==> res == Err::<Option<ActionView>, CoreError>(e),
            spec_checked_message_actions(self@) matches Ok(all) ==> {
                let matching = spec_filter_actions(all, role, script_hash@);
                &&& matching.len() == 0 ==> res is Ok && res->Ok_0 is None
                &&& matching.len() == 1 ==> res is Ok && res->Ok_0 is Some && res->Ok_0->0@ == matching[0]
                &&& matching.len() > 1 ==> res == Err::<Option<ActionView>, CoreError>(
                    CoreError::DuplicateMatchingAction,
                )
            },
    {
        let mut matches = self.actions_for(role, script_hash)?;
        let n = matches.len();
        if n == 0 {
            Ok(None)
        } else if n == 1 {
            proof {
                assert(spec_action_views(matches@)[0] == matches@[0]@);
            }
            Ok(matches.pop())
        } else {
            Err(CoreError::DuplicateMatchingAction)
        }
    }
}

/// Keeps, in order, the actions that target `script_hash` in `role`.
pub fn filter_actions(actions: Vec<ActionView>, role: ScriptRole, script_hash: [u8; 32]) -> (res: Vec<ActionView>)
    ensures
        spec_action_views(res@) == spec_filter_actions(spec_action_views(actions@), role, script_hash@),
{
    let ghost all = spec_action_views(actions@);
    let mut out: Vec<ActionView> = Vec::new();
    let mut i: usize = 0;
    while i < actions.len()
        invariant
            all == spec_action_views(actions@),
            0 <= i <= actions@.len(),
            spec_action_views(out@) == spec_filter_actions(all.take(i as int), role, script_hash@),
        decreases actions@.len() - i,
    {
        let a = &actions[i];
        let ghost prev = out@;
        let keep = a.script_role == role && crate::reader::hash32_eq(&a.script_hash, &script_hash);
        if keep {
            out.push(a.duplicate());
        }
        proof {
            assert(all.take(i + 1).drop_last() =~= all.take(i as int));
            assert(all.take(i + 1).last() == a@);
            assert(a@.script_role == a.script_role);
            assert(a@.script_hash == a.script_hash@);
            assert(spec_action_matches(a@, role, script_hash@) == keep);
            reveal(Seq::filter);
            if keep {
                assert(spec_action_views(out@) =~= spec_action_views(prev).push(a@));
            } else {
                assert(spec_action_views(out@) =~= spec_action_views(prev));
            }
            assert(spec_filter_actions(all.take(i + 1), role, script_hash@) == if keep {
                spec_filter_actions(all.take(i as int), role, script_hash@).push(a@)
            } else {
                spec_filter_actions(all.take(i as int), role, script_hash@)
            });
        }
        i = i + 1;
    }
    proof {
        assert(all.take(actions@.len() as int) =~= all);
    }
    out
}


// ---------------------------------------------------------------------------
// Seals, append segments and OTX witnesses
// ---------------------------------------------------------------------------

/// The abstract value of a decoded seal.
pub struct LockSealModel {
    pub script_hash: Seq<u8>,
    pub seal: CursorView,
}

/// A seal for the lock script with `script_hash`.
#[derive(Clone, Debug)]
pub struct LockSealView {
    pub script_hash: [u8; 32],
    pub seal: Cursor,
}

impl View for LockSealView {
    type V = LockSealModel;

    open spec fn view(&self) -> LockSealModel {
        LockSealModel { script_hash: self.script_hash@, seal: self.seal@ }
    }
}

/// The views of a sequence of seals.
pub open spec fn spec_seal_views(seals: Seq<LockSealView>) -> Seq<LockSealModel> {
    seals.map_values(|s: LockSealView| s@)
}

/// Decodes a `LockSeal` table.
pub open spec fn spec_lock_seal(c: CursorView) -> Option<LockSealModel> {
    match (field_byte32(c, 0), field_raw_bytes(c, 1)) {
        (Some(h), Some(s)) => Some(LockSealModel { script_hash: h, seal: s }),
        _ => None,
    }
}

/// Decodes every seal of a `LockSealVec`.
pub open spec fn spec_lock_seals(v: CursorView) -> Option<Seq<LockSealModel>> {
    match v.dynvec_length() {
        None => None,
        Some(n) => if forall|i: int|
            0 <= i < n ==> (#[trigger] v.dynvec_item(i) is Some && spec_lock_seal(v.dynvec_item(i)->0) is Some) {
            Some(Seq::new(n as nat, |i: int| spec_lock_seal(v.dynvec_item(i)->0)->0))
        } else {
            None
        },
    }
}

/// The abstract value of a decoded append segment.
pub struct SegmentModel {
    pub segment_flags: u8,
    pub input_cells: int,
    pub output_cells: int,
    pub cell_deps: int,
    pub header_deps: int,
    pub seals: Seq<LockSealModel>,
}

/// One decoded OTX append segment.
#[derive(Clone, Debug)]
pub struct OtxAppendSegmentView {
    pub segment_flags: u8,
    pub input_cells: usize,
    pub output_cells: usize,
    pub cell_deps: usize,
    pub header_deps: usize,
    pub seals: Vec<LockSealView>,
}

impl View for OtxAppendSegmentView {
    type V = SegmentModel;

    open spec fn view(&self) -> SegmentModel {
        SegmentModel {
            segment_flags: self.segment_flags,
            input_cells: self.input_cells as int,
            output_cells: self.output_cells as int,
            cell_deps: self.cell_deps as int,
            header_deps: self.header_deps as int,
            seals: spec_seal_views(self.seals@),
        }
    }
}

/// The views of a sequence of append segments.
pub open spec fn spec_segment_views(segments: Seq<OtxAppendSegmentView>) -> Seq<SegmentModel> {
    segments.map_values(|s: OtxAppendSegmentView| s@)
}

/// Decodes an `OtxAppendSegment` table.
pub open spec fn spec_segment(c: CursorView) -> Option<SegmentModel> {
    match c.dynvec_item(5) {
        None => None,
        Some(seals_cursor) => match (
            spec_lock_seals(seals_cursor),
            field_u8(c, 0),
            field_u32(c, 1),
            field_u32(c, 2),
            field_u32(c, 3),
            field_u32(c, 4),
        ) {
            (Some(seals), Some(flags), Some(i), Some(o), Some(cd), Some(hd)) => Some(
                SegmentModel {
                    segment_flags: flags,
                    input_cells: i,
                    output_cells: o,
                    cell_deps: cd,
                    header_deps: hd,
                    seals,
                },
            ),
            _ => None,
        },
    }
}

/// Decodes every segment of an `OtxAppendSegmentVec`.
pub open spec fn spec_segments(v: CursorView) -> Option<Seq<SegmentModel>> {
    match v.dynvec_length() {
        None => None,
        Some(n) => if forall|i: int|
            0 <= i < n ==> (#[trigger] v.dynvec_item(i) is Some && spec_segment(v.dynvec_item(i)->0) is Some) {
            Some(Seq::new(n as nat, |i: int| spec_segment(v.dynvec_item(i)->0)->0))
        } else {
            None
        },
    }
}

/// The bytes of the `Bytes` field `i` of a table.
pub open spec fn spec_field_bytes(c: CursorView, i: int) -> Option<Seq<u8>> {
    match field_raw_bytes(c, i) {
        Some(r) => if r.readable() {
            Some(r.bytes())
        } else {
            None
        },
        None => None,
    }
}

/// The abstract value of a decoded OTX witness.
pub struct OtxModel {
    pub message: CursorView,
    pub append_permissions: u8,
    pub base_input_cells: int,
    pub base_input_masks: Seq<u8>,
    pub base_output_cells: int,
    pub base_output_masks: Seq<u8>,
    pub base_cell_deps: int,
    pub base_cell_dep_masks: Seq<u8>,
    pub base_header_deps: int,
    pub base_header_dep_masks: Seq<u8>,
    pub append_segments: Seq<SegmentModel>,
    pub base_seals: Seq<LockSealModel>,
}

/// Decodes an `Otx` table.
pub open spec fn spec_otx(c: CursorView) -> Option<OtxModel> {
    match (c.dynvec_item(10), c.dynvec_item(11), c.dynvec_item(0)) {
        (Some(segs), Some(seals), Some(message)) => match (spec_segments(segs), spec_lock_seals(seals)) {
            (Some(append_segments), Some(base_seals)) => match (
                field_u8(c, 1),
                field_u32(c, 2),
                spec_field_bytes(c, 3),
                field_u32(c, 4),
                spec_field_bytes(c, 5),
            ) {
                (Some(ap), Some(bi), Some(bim), Some(bo), Some(bom)) => match (
                    field_u32(c, 6),
                    spec_field_bytes(c, 7),
                    field_u32(c, 8),
                    spec_field_bytes(c, 9),
                ) {
                    (Some(bc), Some(bcm), Some(bh), Some(bhm)) => Some(
                        OtxModel {
                            message,
                            append_permissions: ap,
                            base_input_cells: bi,
                            base_input_masks: bim,
                            base_output_cells: bo,
                            base_output_masks: bom,
                            base_cell_deps: bc,
                            base_cell_dep_masks: bcm,
                            base_header_deps: bh,
                            base_header_dep_masks: bhm,
                            append_segments,
                            base_seals,
                        },
                    ),
                    _ => None,
                },
                _ => None,
            },
            _ => None,
        },
        _ => None,
    }
}

/// A decoded OTX witness.
#[derive(Clone, Debug)]
pub struct OtxView {
    pub message: Cursor,
    pub append_permissions: u8,
    pub base_input_cells: usize,
    pub base_input_masks: MaskView,
    pub base_output_cells: usize,
    pub base_output_masks: MaskView,
    pub base_cell_deps: usize,
    pub base_cell_dep_masks: MaskView,
    pub base_header_deps: usize,
    pub base_header_dep_masks: MaskView,
    pub append_segments: Vec<OtxAppendSegmentView>,
    pub base_seals: Vec<LockSealView>,
}

impl View for OtxView {
    type V = OtxModel;

    open spec fn view(&self) -> OtxModel {
        OtxModel {
            message: self.message@,
            append_permissions: self.append_permissions,
            base_input_cells: self.base_input_cells as int,
            base_input_masks: self.base_input_masks@,
            base_output_cells: self.base_output_cells as int,
            base_output_masks: self.base_output_masks@,
            base_cell_deps: self.base_cell_deps as int,
            base_cell_dep_masks: self.base_cell_dep_masks@,
            base_header_deps: self.base_header_deps as int,
            base_header_dep_masks: self.base_header_dep_masks@,
            append_segments: spec_segment_views(self.append_segments@),
            base_seals: spec_seal_views(self.base_seals@),
        }
    }
}

/// Bit `field_offset` of the `bits_per_cell` mask bits of cell `local_index`.
pub open spec fn spec_cell_mask_bit(mask: Seq<u8>, local_index: int, bits_per_cell: int, field_offset: int) -> Option<bool> {
    spec_mask_bit(mask, local_index * bits_per_cell + field_offset)
}

impl OtxView {
    /// The base input's `since` is signed.
    pub fn includes_base_input_since(&self, local_index: usize) -> (res: Result<bool, CoreError>)
        requires
            local_index * 2 + 1 <= usize::MAX,
        ensures
            res is Ok <==> spec_cell_mask_bit(self@.base_input_masks, local_index as int, 2, 0) is Some,
            res matches Ok(b) ==> spec_cell_mask_bit(self@.base_input_masks, local_index as int, 2, 0) == Some(b),
            res matches Err(e) ==> e == CoreError::InvalidOtxLayout,
    {
        self.base_input_masks.get(local_index * BASE_INPUT_MASK_BITS_PER_CELL + BASE_INPUT_SINCE_MASK_OFFSET)
    }

    /// The base input's previous output is signed.
    pub fn includes_base_input_previous_output(&self, local_index: usize) -> (res: Result<bool, CoreError>)
        requires
            local_index * 2 + 1 <= usize::MAX,
        ensures
            res is Ok <==> spec_cell_mask_bit(self@.base_input_masks, local_index as int, 2, 1) is Some,
            res matches Ok(b) ==> spec_cell_mask_bit(self@.base_input_masks, local_index as int, 2, 1) == Some(b),
            res matches Err(e) ==> e == CoreError::InvalidOtxLayout,
    {
        self.base_input_masks.get(local_index * BASE_INPUT_MASK_BITS_PER_CELL + BASE_INPUT_PREVIOUS_OUTPUT_MASK_OFFSET)
    }

    /// The base output's capacity is signed.
    pub fn includes_base_output_capacity(&self, local_index: usize) -> (res: Result<bool, CoreError>)
        requires
            local_index * 4 + 3 <= usize::MAX,
        ensures
            res is Ok <==> spec_cell_mask_bit(self@.base_output_masks, local_index as int, 4, 0) is Some,
            res matches Ok(b) ==> spec_cell_mask_bit(self@.base_output_masks, local_index as int, 4, 0) == Some(b),
            res matches Err(e) ==> e == CoreError::InvalidOtxLayout,
    {
        self.base_output_masks.get(local_index * BASE_OUTPUT_MASK_BITS_PER_CELL + BASE_OUTPUT_CAPACITY_MASK_OFFSET)
    }

    /// The base output's lock is signed.
    pub fn includes_base_output_lock(&self, local_index: usize) -> (res: Result<bool, CoreError>)
        requires
            local_index * 4 + 3 <= usize::MAX,
        ensures
            res is Ok <==> spec_cell_mask_bit(self@.base_output_masks, local_index as int, 4, 1) is Some,
            res matches Ok(b) ==> spec_cell_mask_bit(self@.base_output_masks, local_index as int, 4, 1) == Some(b),
            res matches Err(e) ==> e == CoreError::InvalidOtxLayout,
    {
        self.base_output_masks.get(local_index * BASE_OUTPUT_MASK_BITS_PER_CELL + BASE_OUTPUT_LOCK_MASK_OFFSET)
    }

    /// The base output's type script is signed.
    pub fn includes_base_output_type(&self, local_index: usize) -> (res: Result<bool, CoreError>)
        requires
            local_index * 4 + 3 <= usize::MAX,
        ensures
            res is Ok <==> spec_cell_mask_bit(self@.base_output_masks, local_index as int, 4, 2) is Some,
            res matches Ok(b) ==> spec_cell_mask_bit(self@.base_output_masks, local_index as int, 4, 2) == Some(b),
            res matches Err(e) ==> e == CoreError::InvalidOtxLayout,
    {
        self.base_output_masks.get(local_index * BASE_OUTPUT_MASK_BITS_PER_CELL + BASE_OUTPUT_TYPE_MASK_OFFSET)
    }

    /// The base output's data is signed.
    pub fn includes_base_output_data(&self, local_index: usize) -> (res: Result<bool, CoreError>)
        requires
            local_index * 4 + 3 <= usize::MAX,
        ensures
            res is Ok <==> spec_cell_mask_bit(self@.base_output_masks, local_index as int, 4, 3) is Some,
            res matches Ok(b) ==> spec_cell_mask_bit(self@.base_output_masks, local_index as int, 4, 3) == Some(b),
            res matches Err(e) ==> e == CoreError::InvalidOtxLayout,
    {
        self.base_output_masks.get(local_index * BASE_OUTPUT_MASK_BITS_PER_CELL + BASE_OUTPUT_DATA_MASK_OFFSET)
    }
}

fn lock_seal_data(seal: &LockSeal) -> (res: Result<LockSealView, CoreError>)
    ensures
        res is Ok <==> spec_lock_seal(seal.cursor@) is Some,
        res matches Ok(v) ==> spec_lock_seal(seal.cursor@) == Some(v@),
        res matches Err(e) ==> e == CoreError::MalformedCobuild,
{
    let script_hash = match seal.script_hash() {
        Ok(h) => h,
        Err(_) => return Err(CoreError::MalformedCobuild),
    };
    let seal_cursor = match seal.seal() {
        Ok(c) => c,
        Err(_) => return Err(CoreError::MalformedCobuild),
    };
    Ok(LockSealView { script_hash, seal: seal_cursor })
}

fn lock_seals_data(seals: &LockSealVec) -> (res: Result<Vec<LockSealView>, CoreError>)
    ensures
        res is Ok <==> spec_lock_seals(seals.cursor@) is Some,
        res matches Ok(v) ==> spec_lock_seals(seals.cursor@) == Some(spec_seal_views(v@)),
        res matches Err(e) ==> e == CoreError::MalformedCobuild,
{
    let ghost c = seals.cursor@;
    let count = match seals.len() {
        Ok(n) => n,
        Err(_) => return Err(CoreError::MalformedCobuild),
    };
    let mut out: Vec<LockSealView> = Vec::with_capacity(count);
    let mut index: usize = 0;
    while index < count
        invariant
            c == seals.cursor@,
            c.dynvec_length() == Some(count as int),
            0 <= index <= count,
            out@.len() == index,
            forall|i: int| 0 <= i < index ==> (#[trigger] c.dynvec_item(i) is Some
                && spec_lock_seal(c.dynvec_item(i)->0) == Some(out@[i]@)),
        decreases count - index,
    {
        let seal = match seals.get(index) {
            Ok(s) => s,
            Err(_) => return Err(CoreError::MalformedCobuild),
        };
        let view = lock_seal_data(&seal)?;
        out.push(view);
        index = index + 1;
    }
    proof {
        assert(spec_seal_views(out@) =~= Seq::new(count as nat, |i: int| spec_lock_seal(c.dynvec_item(i)->0)->0));
    }
    Ok(out)
}

fn append_segment_data(segment: &OtxAppendSegment) -> (res: Result<OtxAppendSegmentView, CoreError>)
    ensures
        res is Ok <==> spec_segment(segment.cursor@) is Some,
        res matches Ok(v) ==> spec_segment(segment.cursor@) == Some(v@),
        res matches Err(e) ==> e == CoreError::MalformedCobuild,
{
    let seals_reader = match segment.seals() {
        Ok(s) => s,
        Err(_) => return Err(CoreError::MalformedCobuild),
    };
    let seals = lock_seals_data(&seals_reader)?;
    let segment_flags = match segment.segment_flags() {
        Ok(v) => v,
        Err(_) => return Err(CoreError::MalformedCobuild),
    };
    let input_cells = match segment.input_cells() {
        Ok(v) => v,
        Err(_) => return Err(CoreError::MalformedCobuild),
    };
    let output_cells = match segment.output_cells() {
        Ok(v) => v,
        Err(_) => return Err(CoreError::MalformedCobuild),
    };
    let cell_deps = match segment.cell_deps() {
        Ok(v) => v,
        Err(_) => return Err(CoreError::MalformedCobuild),
    };
    let header_deps = match segment.header_deps() {
        Ok(v) => v,
        Err(_) => return Err(CoreError::MalformedCobuild),
    };
    Ok(OtxAppendSegmentView {
        segment_flags,
        input_cells: input_cells as usize,
        output_cells: output_cells as usize,
        cell_deps: cell_deps as usize,
        header_deps: header_deps as usize,
        seals,
    })
}

fn append_segments_data(segments: &OtxAppendSegmentVec) -> (res: Result<Vec<OtxAppendSegmentView>, CoreError>)
    ensures
        res is Ok <==> spec_segments(segments.cursor@) is Some,
        res matches Ok(v) ==> spec_segments(segments.cursor@) == Some(spec_segment_views(v@)),
        res matches Err(e) ==> e == CoreError::MalformedCobuild,
{
    let ghost c = segments.cursor@;
    let count = match segments.len() {
        Ok(n) => n,
        Err(_) => return Err(CoreError::MalformedCobuild),
    };
    let mut out: Vec<OtxAppendSegmentView> = Vec::with_capacity(count);
    let mut index: usize = 0;
    while index < count
        invariant
            c == segments.cursor@,
            c.dynvec_length() == Some(count as int),
            0 <= index <= count,
            out@.len() == index,
            forall|i: int| 0 <= i < index ==> (#[trigger] c.dynvec_item(i) is Some
                && spec_segment(c.dynvec_item(i)->0) == Some(out@[i]@)),
        decreases count - index,
    {
        let segment = match segments.get(index) {
            Ok(s) => s,
            Err(_) => return Err(CoreError::MalformedCobuild),
        };
        let view = append_segment_data(&segment)?;
        out.push(view);
        index = index + 1;
    }
    proof {
        assert(spec_segment_views(out@) =~= Seq::new(count as nat, |i: int| spec_segment(c.dynvec_item(i)->0)->0));
    }
    Ok(out)
}

fn mask_data(field: Result<Cursor, crate::lazy_reader::support::Error>) -> (res: Result<MaskView, CoreError>)
    ensures
        res is Ok <==> (field matches Ok(c) && c@.readable()),
        res matches Ok(m) ==> field matches Ok(c) && m@ == c@.bytes(),
        res matches Err(e) ==> e == CoreError::MalformedCobuild,
{
    match field {
        Ok(c) => Ok(MaskView::new(cursor_bytes(&c)?)),
        Err(_) => Err(CoreError::MalformedCobuild),
    }
}

fn otx_view(otx: &Otx) -> (res: Result<OtxView, CoreError>)
    ensures
        res is Ok <==> spec_otx(otx.cursor@) is Some,
        res matches Ok(v) ==> spec_otx(otx.cursor@) == Some(v@),
        res matches Err(e) ==> e == CoreError::MalformedCobuild,
{
    let append_segments_reader = match otx.append_segments() {
        Ok(s) => s,
        Err(_) => return Err(CoreError::MalformedCobuild),
    };
    let append_segments = append_segments_data(&append_segments_reader)?;
    let base_seals_reader = match otx.base_seals() {
        Ok(s) => s,
        Err(_) => return Err(CoreError::MalformedCobuild),
    };
    let base_seals = lock_seals_data(&base_seals_reader)?;
    let message = match otx.message() {
        Ok(m) => m,
        Err(_) => return Err(CoreError::MalformedCobuild),
    };
    let append_permissions = match otx.append_permissions() {
        Ok(v) => v,
        Err(_) => return Err(CoreError::MalformedCobuild),
    };
    let base_input_cells = match otx.base_input_cells() {
        Ok(v) => v,
        Err(_) => return Err(CoreError::MalformedCobuild),
    };
    let base_input_masks = mask_data(otx.base_input_masks())?;
    let base_output_cells = match otx.base_output_cells() {
        Ok(v) => v,
        Err(_) => return Err(CoreError::MalformedCobuild),
    };
    let base_output_masks = mask_data(otx.base_output_masks())?;
    let base_cell_deps = match otx.base_cell_deps() {
        Ok(v) => v,
        Err(_) => return Err(CoreError::MalformedCobuild),
    };
    let base_cell_dep_masks = mask_data(otx.base_cell_dep_masks())?;
    let base_header_deps = match otx.base_header_deps() {
        Ok(v) => v,
        Err(_) => return Err(CoreError::MalformedCobuild),
    };
    let base_header_dep_masks = mask_data(otx.base_header_dep_masks())?;
    Ok(OtxView {
        message: message.cursor,
        append_permissions,
        base_input_cells: base_input_cells as usize,
        base_input_masks,
        base_output_cells: base_output_cells as usize,
        base_output_masks,
        base_cell_deps: base_cell_deps as usize,
        base_cell_dep_masks,
        base_header_deps: base_header_deps as usize,
        base_header_dep_masks,
        append_segments,
        base_seals,
    })
}

/// The abstract value of a decoded OTX-start witness.
pub struct OtxStartModel {
    pub start_input_cell: int,
    pub start_output_cell: int,
    pub start_cell_deps: int,
    pub start_header_deps: int,
}

/// Decodes an `OtxStart` table.
pub open spec fn spec_otx_start(c: CursorView) -> Option<OtxStartModel> {
    match (field_u32(c, 0), field_u32(c, 1), field_u32(c, 2), field_u32(c, 3)) {
        (Some(i), Some(o), Some(cd), Some(hd)) => Some(
            OtxStartModel { start_input_cell: i, start_output_cell: o, start_cell_deps: cd, start_header_deps: hd },
        ),
        _ => None,
    }
}

/// A decoded OTX-start witness: where the entities of the OTX run begin.
#[derive(Clone, Debug)]
pub struct OtxStartView {
    pub start_input_cell: usize,
    pub start_output_cell: usize,
    pub start_cell_deps: usize,
    pub start_header_deps: usize,
}

impl View for OtxStartView {
    type V = OtxStartModel;

    open spec fn view(&self) -> OtxStartModel {
        OtxStartModel {
            start_input_cell: self.start_input_cell as int,
            start_output_cell: self.start_output_cell as int,
            start_cell_deps: self.start_cell_deps as int,
            start_header_deps: self.start_header_deps as int,
        }
    }
}

fn otx_start_view(start: &OtxStart) -> (res: Result<OtxStartView, CoreError>)
    ensures
        res is Ok <==> spec_otx_start(start.cursor@) is Some,
        res matches Ok(v) ==> spec_otx_start(start.cursor@) == Some(v@),
        res matches Err(e) ==> e == CoreError::MalformedCobuild,
{
    let i = match start.start_input_cell() {
        Ok(v) => v,
        Err(_) => return Err(CoreError::MalformedCobuild),
    };
    let o = match start.start_output_cell() {
        Ok(v) => v,
        Err(_) => return Err(CoreError::MalformedCobuild),
    };
    let cd = match start.start_cell_deps() {
        Ok(v) => v,
        Err(_) => return Err(CoreError::MalformedCobuild),
    };
    let hd = match start.start_header_deps() {
        Ok(v) => v,
        Err(_) => return Err(CoreError::MalformedCobuild),
    };
    Ok(OtxStartView {
        start_input_cell: i as usize,
        start_output_cell: o as usize,
        start_cell_deps: cd as usize,
        start_header_deps: hd as usize,
    })
}

// ---------------------------------------------------------------------------
// Witness layouts
// ---------------------------------------------------------------------------

/// The abstract value of a checked witness layout: its union item id and item.
pub struct WitnessLayoutModel {
    pub item_id: int,
    pub item: CursorView,
}

/// Decodes and checks a Cobuild witness: an unknown union is malformed, an
/// ill-formed item is an invalid layout.
pub open spec fn spec_witness_layout(c: CursorView) -> Result<WitnessLayoutModel, CoreError> {
    match spec_witness_item_id(c) {
        None => Err(CoreError::MalformedCobuild),
        Some(id) => if spec_valid_witness_layout(c, false) {
            Ok(WitnessLayoutModel { item_id: id, item: c.union_item() })
        } else {
            Err(CoreError::InvalidOtxLayout)
        },
    }
}

/// The abstract value of a transaction-level carrier witness.
pub enum CarrierModel {
    WithMessage { seal: CursorView, message: CursorView },
    SealOnly { seal: CursorView },
}

/// The transaction-level carrier a checked layout holds, if it is one.
pub open spec fn spec_carrier(w: WitnessLayoutModel) -> Result<Option<CarrierModel>, CoreError> {
    if w.item_id == 0xff00_0001 {
        match (field_raw_bytes(w.item, 0), w.item.dynvec_item(1)) {
            (Some(seal), Some(message)) => Ok(Some(CarrierModel::WithMessage { seal, message })),
            _ => Err(CoreError::MalformedCobuild),
        }
    } else if w.item_id == 0xff00_0002 {
        match field_raw_bytes(w.item, 0) {
            Some(seal) => Ok(Some(CarrierModel::SealOnly { seal })),
            None => Err(CoreError::MalformedCobuild),
        }
    } else {
        Ok(None)
    }
}

/// A transaction-level carrier witness: a seal, with or without the message.
#[derive(Clone, Debug)]
pub enum SighashAllWitnessView {
    WithMessage { seal: Cursor, message: Cursor },
    SealOnly { seal: Cursor },
}

impl View for SighashAllWitnessView {
    type V = CarrierModel;

    open spec fn view(&self) -> CarrierModel {
        match self {
            SighashAllWitnessView::WithMessage { seal, message } => CarrierModel::WithMessage {
                seal: seal@,
                message: message@,
            },
            SighashAllWitnessView::SealOnly { seal } => CarrierModel::SealOnly { seal: seal@ },
        }
    }
}

/// A checked Cobuild witness layout.
#[derive(Clone, Debug)]
pub struct CobuildWitnessLayoutView {
    inner: WitnessLayout,
}

impl View for CobuildWitnessLayoutView {
    type V = WitnessLayoutModel;

    closed spec fn view(&self) -> WitnessLayoutModel {
        WitnessLayoutModel { item_id: self.inner.spec_item_id(), item: self.inner.spec_item() }
    }
}

impl CobuildWitnessLayoutView {
    /// Decodes a Cobuild witness and checks its molecule structure.
    pub fn from_cursor(cursor: Cursor) -> (res: Result<CobuildWitnessLayoutView, CoreError>)
        ensures
            res is Ok <==> spec_witness_layout(cursor@) is Ok,
            res matches Ok(v) ==> spec_witness_layout(cursor@) == Ok::<WitnessLayoutModel, CoreError>(v@),
            res matches Err(e) ==> spec_witness_layout(cursor@) == Err::<WitnessLayoutModel, CoreError>(e),
    {
        let ghost c = cursor@;
        let inner = match WitnessLayout::from_cursor(cursor) {
            Ok(w) => w,
            Err(_) => return Err(CoreError::MalformedCobuild),
        };
        match inner.verify(false) {
            Ok(()) => {},
            Err(_) => return Err(CoreError::InvalidOtxLayout),
        }
        Ok(CobuildWitnessLayoutView { inner })
    }

    /// Decodes a witness given as bytes.
    pub fn from_slice(witness: &[u8]) -> (res: Result<CobuildWitnessLayoutView, CoreError>)
        ensures
            res is Ok <==> spec_witness_layout(CursorView { data: witness@, offset: 0, size: witness@.len() as int }) is Ok,
            res matches Ok(v) ==> spec_witness_layout(CursorView { data: witness@, offset: 0, size: witness@.len() as int })
                == Ok::<WitnessLayoutModel, CoreError>(v@),
            res matches Err(e) ==> spec_witness_layout(CursorView { data: witness@, offset: 0, size: witness@.len() as int })
                == Err::<WitnessLayoutModel, CoreError>(e),
    {
        Self::from_cursor(cursor_from_slice(witness))
    }

    /// The transaction-level carrier this layout holds, if it is one.
    pub fn sighash_all_cobuild_witness_layout(&self) -> (res: Result<Option<SighashAllWitnessView>, CoreError>)
        ensures
            res is Ok <==> spec_carrier(self@) is Ok,
            res matches Ok(None) ==> spec_carrier(self@) == Ok::<Option<CarrierModel>, CoreError>(None),
            res matches Ok(Some(c)) ==> spec_carrier(self@) == Ok::<Option<CarrierModel>, CoreError>(Some(c@)),
            res matches Err(e) ==> e == CoreError::MalformedCobuild,
    {
        match &self.inner {
            WitnessLayout::SighashAll(witness) => {
                let seal = match witness.seal() {
                    Ok(s) => s,
                    Err(_) => return Err(CoreError::MalformedCobuild),
                };
                let message = match witness.message() {
                    Ok(m) => m,
                    Err(_) => return Err(CoreError::MalformedCobuild),
                };
                Ok(Some(SighashAllWitnessView::WithMessage { seal, message: message.cursor }))
            },
            WitnessLayout::SighashAllOnly(witness) => match witness.seal() {
                Ok(seal) => Ok(Some(SighashAllWitnessView::SealOnly { seal })),
                Err(_) => Err(CoreError::MalformedCobuild),
            },
            _ => Ok(None),
        }
    }

    /// The OTX-start witness this layout holds, if it is one.
    pub fn otx_start(&self) -> (res: Result<Option<OtxStartView>, CoreError>)
        ensures
            self@.item_id != 0xff00_0004 ==> res matches Ok(None),
            self@.item_id == 0xff00_0004 ==> {
                &&& res is Ok <==> spec_otx_start(self@.item) is Some
                &&& res matches Ok(Some(v)) ==> spec_otx_start(self@.item) == Some(v@)
                &&& res matches Err(e) ==> e == CoreError::MalformedCobuild
                &&& !(res matches Ok(None))
            },
    {
        match &self.inner {
            WitnessLayout::OtxStart(start) => match otx_start_view(start) {
                Ok(v) => Ok(Some(v)),
                Err(e) => Err(e),
            },
            _ => Ok(None),
        }
    }

    /// The OTX witness this layout holds, if it is one.
    pub fn otx(&self) -> (res: Result<Option<OtxView>, CoreError>)
        ensures
            self@.item_id != 0xff00_0003 ==> res matches Ok(None),
            self@.item_id == 0xff00_0003 ==> {
                &&& res is Ok <==> spec_otx(self@.item) is Some
                &&& res matches Ok(Some(v)) ==> spec_otx(self@.item) == Some(v@)
                &&& res matches Err(e) ==> e == CoreError::MalformedCobuild
                &&& !(res matches Ok(None))
            },
    {
        match &self.inner {
            WitnessLayout::Otx(otx) => match otx_view(otx) {
                Ok(v) => Ok(Some(v)),
                Err(e) => Err(e),
            },
            _ => Ok(None),
        }
    }
}

} // verus!
