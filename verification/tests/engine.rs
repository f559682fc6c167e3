use cobuild_otx::context::{CurrentScript, CurrentScriptContext};
use cobuild_otx::engine::{
    related_otx_action, related_tx_action, required_append_segment_indices, type_action_otx_scope,
    type_actions_from_actions, CobuildContext,
};
use cobuild_otx::error::CoreError;
use cobuild_otx::hash::tx_with_message_hash;
use cobuild_otx::layout::{
    BuiltLayout, InvalidOtxRun, OtxAppendSegmentLayout, OtxLayout, OtxLayoutEntry, OtxLayouts, Range, RunAnchor,
};
use cobuild_otx::plan::{action_hash, ActionOrigin, ActionRef, OtxTypeRelation, SignatureOrigin, TypeActionOtxScope};
use cobuild_otx::protocol::{ScriptRole, SegmentFlags};
use cobuild_otx::reader::{cursor_bytes, cursor_from_slice};
use cobuild_otx::source::{ClassifiedCursor, CursorReadContext, InMemorySource, SigningDataSource, TransactionSource};
use cobuild_otx::view::{ActionView, LockSealView, MaskView, MessageView, OtxAppendSegmentView, OtxView};
use cobuild_otx::witness::{CobuildWitnessScanner, WitnessScan};

// ---------------------------------------------------------------------------
// Molecule encoding
// ---------------------------------------------------------------------------

fn offsets_bytes(items: &[Vec<u8>]) -> Vec<u8> {
    let header_size = 4 + items.len() * 4;
    let total_size = header_size + items.iter().map(Vec::len).sum::<usize>();
    let mut bytes = Vec::with_capacity(total_size);
    bytes.extend_from_slice(&(total_size as u32).to_le_bytes());
    let mut offset = header_size;
    for item in items {
        bytes.extend_from_slice(&(offset as u32).to_le_bytes());
        offset += item.len();
    }
    for item in items {
        bytes.extend_from_slice(item);
    }
    bytes
}

fn table_bytes(fields: &[Vec<u8>]) -> Vec<u8> {
    offsets_bytes(fields)
}

fn dynvec_bytes(items: &[Vec<u8>]) -> Vec<u8> {
    if items.is_empty() {
        return 4u32.to_le_bytes().to_vec();
    }
    offsets_bytes(items)
}

fn molecule_bytes(raw: &[u8]) -> Vec<u8> {
    let mut bytes = Vec::with_capacity(4 + raw.len());
    bytes.extend_from_slice(&(raw.len() as u32).to_le_bytes());
    bytes.extend_from_slice(raw);
    bytes
}

fn witness_union(item_id: u32, item: &[u8]) -> Vec<u8> {
    let mut bytes = Vec::with_capacity(4 + item.len());
    bytes.extend_from_slice(&item_id.to_le_bytes());
    bytes.extend_from_slice(item);
    bytes
}

fn message_with_actions(actions: &[Vec<u8>]) -> Vec<u8> {
    table_bytes(&[dynvec_bytes(actions)])
}

fn empty_message() -> Vec<u8> {
    message_with_actions(&[])
}

fn action_bytes(script_role: u8, script_hash: [u8; 32], data: &[u8]) -> Vec<u8> {
    table_bytes(&[[0x33u8; 32].to_vec(), vec![script_role], script_hash.to_vec(), molecule_bytes(data)])
}

fn sighash_all_witness_bytes(seal: &[u8], message: &[u8]) -> Vec<u8> {
    witness_union(0xff00_0001, &table_bytes(&[molecule_bytes(seal), message.to_vec()]))
}

fn sighash_all_only_witness_bytes(seal: &[u8]) -> Vec<u8> {
    witness_union(0xff00_0002, &table_bytes(&[molecule_bytes(seal)]))
}

fn lock_seal_bytes(script_hash: [u8; 32], seal: &[u8]) -> Vec<u8> {
    table_bytes(&[script_hash.to_vec(), molecule_bytes(seal)])
}

fn otx_start_bytes() -> Vec<u8> {
    otx_start_bytes_at(0)
}

fn otx_start_bytes_at(start_input: u32) -> Vec<u8> {
    witness_union(
        0xff00_0004,
        &table_bytes(&[
            start_input.to_le_bytes().to_vec(),
            0u32.to_le_bytes().to_vec(),
            0u32.to_le_bytes().to_vec(),
            0u32.to_le_bytes().to_vec(),
        ]),
    )
}

/// An OTX witness with `base_inputs` base inputs (no fields signed), and, when
/// `append_inputs` is not zero, one closing append segment of that many inputs.
fn otx_bytes(message: &[u8], append_permissions: u8, base_inputs: u32, append_inputs: u32, base_seals: &[Vec<u8>], segment_seals: &[Vec<u8>]) -> Vec<u8> {
    let segments = if append_inputs > 0 {
        dynvec_bytes(&[table_bytes(&[
            vec![0],
            append_inputs.to_le_bytes().to_vec(),
            0u32.to_le_bytes().to_vec(),
            0u32.to_le_bytes().to_vec(),
            0u32.to_le_bytes().to_vec(),
            dynvec_bytes(segment_seals),
        ])])
    } else {
        dynvec_bytes(&[])
    };
    let input_mask = vec![0u8; ((base_inputs as usize) * 2).div_ceil(8)];
    witness_union(
        0xff00_0003,
        &table_bytes(&[
            message.to_vec(),
            vec![append_permissions],
            base_inputs.to_le_bytes().to_vec(),
            molecule_bytes(&input_mask),
            0u32.to_le_bytes().to_vec(),
            molecule_bytes(&[]),
            0u32.to_le_bytes().to_vec(),
            molecule_bytes(&[]),
            0u32.to_le_bytes().to_vec(),
            molecule_bytes(&[]),
            segments,
            dynvec_bytes(base_seals),
        ]),
    )
}

// ---------------------------------------------------------------------------
// Contexts
// ---------------------------------------------------------------------------

fn range(start: usize, count: usize) -> Range {
    Range { start, count }
}

fn test_otx(message_bytes: &[u8], base_start: usize, append_start: usize) -> OtxLayoutEntry {
    OtxLayoutEntry {
        layout: OtxLayout {
            witness_index: 7,
            base_inputs: range(base_start, 1),
            append_inputs: range(append_start, 1),
            base_outputs: range(0, 1),
            append_outputs: range(1, 0),
            base_cell_deps: range(0, 0),
            append_cell_deps: range(0, 0),
            base_header_deps: range(0, 0),
            append_header_deps: range(0, 0),
            append_segments: vec![OtxAppendSegmentLayout {
                segment_index: 0,
                flags: SegmentFlags::try_from(0).unwrap(),
                inputs: range(append_start, 1),
                outputs: range(1, 0),
                cell_deps: range(0, 0),
                header_deps: range(0, 0),
            }],
        },
        witness: OtxView {
            message: cursor_from_slice(message_bytes),
            append_permissions: 0,
            base_input_cells: 1,
            base_input_masks: MaskView::new(vec![0]),
            base_output_cells: 0,
            base_output_masks: MaskView::new(Vec::new()),
            base_cell_deps: 0,
            base_cell_dep_masks: MaskView::new(Vec::new()),
            base_header_deps: 0,
            base_header_dep_masks: MaskView::new(Vec::new()),
            append_segments: vec![OtxAppendSegmentView {
                segment_flags: 0,
                input_cells: 1,
                output_cells: 0,
                cell_deps: 0,
                header_deps: 0,
                seals: Vec::new(),
            }],
            base_seals: Vec::new(),
        },
    }
}

fn test_action(role: ScriptRole, script_hash: [u8; 32], data: &[u8]) -> ActionView {
    ActionView { index: 0, script_info_hash: [0x33; 32], script_role: role, script_hash, data: cursor_from_slice(data) }
}

fn lock_script_context(current_lock_hash: [u8; 32], input_locks: &[[u8; 32]]) -> CurrentScriptContext {
    let types = vec![None; input_locks.len()];
    CurrentScriptContext::from_script_hashes(
        CurrentScript::InputLock(current_lock_hash),
        input_locks.len(),
        0,
        input_locks,
        &types,
        &[],
    )
    .unwrap()
}

fn complete(input_range: Range, otx_entries: Vec<OtxLayoutEntry>) -> OtxLayouts {
    OtxLayouts::Complete(BuiltLayout { input_range, output_range: range(0, 0), otx_entries })
}

fn scan_tx_level_witnesses(witnesses: &[Vec<u8>]) -> WitnessScan {
    let mut scanner = CobuildWitnessScanner::with_capacity(witnesses.len());
    for witness in witnesses {
        scanner.push_witness(cursor_from_slice(witness)).unwrap();
    }
    scanner.finish(0, 0, 0, 0).unwrap().tx_level
}

fn lock_context_with_otx_entries(current_lock_hash: [u8; 32], input_locks: Vec<[u8; 32]>, otx_entries: Vec<OtxLayoutEntry>) -> CobuildContext {
    CobuildContext::from_parts(
        InMemorySource::default(),
        lock_script_context(current_lock_hash, &input_locks),
        WitnessScan::with_capacity(0),
        complete(range(0, 0), otx_entries),
    )
}

fn lock_context_with_tx_message_and_otx_entries(
    current_lock_hash: [u8; 32],
    input_locks: Vec<[u8; 32]>,
    tx_message: &[u8],
    otx_entries: Vec<OtxLayoutEntry>,
) -> CobuildContext {
    let tx_witness = sighash_all_witness_bytes(&[0x99], tx_message);
    CobuildContext::from_parts(
        InMemorySource::default(),
        lock_script_context(current_lock_hash, &input_locks),
        scan_tx_level_witnesses(&[tx_witness]),
        complete(range(0, 0), otx_entries),
    )
}

fn lock_context_with_tx_message(current_lock_hash: [u8; 32], input_locks: Vec<[u8; 32]>, tx_message: &[u8]) -> CobuildContext {
    let tx_witness = sighash_all_witness_bytes(&[0x99], tx_message);
    CobuildContext::from_parts(
        InMemorySource::default(),
        lock_script_context(current_lock_hash, &input_locks),
        scan_tx_level_witnesses(&[tx_witness]),
        OtxLayouts::Absent,
    )
}

fn test_context_with_otx_entries(otx_entries: Vec<OtxLayoutEntry>) -> CobuildContext {
    lock_context_with_otx_entries([0u8; 32], Vec::new(), otx_entries)
}

fn test_context_without_otx_layouts() -> CobuildContext {
    CobuildContext::from_parts(
        InMemorySource::default(),
        lock_script_context([0u8; 32], &[]),
        WitnessScan::with_capacity(0),
        OtxLayouts::Absent,
    )
}

/// A source whose inputs can be hashed: every input, resolved cell and data present and empty.
fn hashable_source(input_locks: Vec<[u8; 32]>, witnesses: Vec<Vec<u8>>) -> InMemorySource {
    let n = input_locks.len();
    InMemorySource {
        input_types: vec![None; n],
        input_locks,
        raw_inputs: vec![Vec::new(); n],
        resolved_outputs: vec![Vec::new(); n],
        resolved_data: vec![Vec::new(); n],
        witnesses,
        ..InMemorySource::default()
    }
}

/// A context whose OTX run (built without Cobuild transaction-level
/// witnesses) covers `input_range` and holds one OTX over input 0 sealed for `lock_hash`.
fn coverage_context(lock_hash: [u8; 32], input_locks: Vec<[u8; 32]>, input_range: Range) -> CobuildContext {
    let mut otx = test_otx(&empty_message(), 0, 1);
    otx.layout.witness_index = 1;
    otx.witness.base_seals = vec![LockSealView { script_hash: lock_hash, seal: cursor_from_slice(&[7u8; 65]) }];
    let source = hashable_source(input_locks.clone(), Vec::new());
    CobuildContext::from_parts(
        source,
        lock_script_context(lock_hash, &input_locks),
        WitnessScan::with_capacity(0),
        complete(input_range, vec![otx]),
    )
}

fn lock_actions_for_message(message: &[u8], lock_hash: [u8; 32]) -> Result<Vec<ActionView>, CoreError> {
    MessageView::new(cursor_from_slice(message)).actions_for(ScriptRole::InputLock, lock_hash)
}

fn type_actions_for_message(message: &[u8], type_hash: [u8; 32]) -> Result<Vec<ActionView>, CoreError> {
    let actions = MessageView::new(cursor_from_slice(message)).actions()?;
    Ok(type_actions_from_actions(&actions, &type_hash))
}

fn type_relation(
    input_type_in_base: bool,
    input_type_in_append: bool,
    output_type_in_base: bool,
    output_type_in_base_covered: bool,
    output_type_in_append: bool,
) -> OtxTypeRelation {
    OtxTypeRelation { input_type_in_base, input_type_in_append, output_type_in_base, output_type_in_base_covered, output_type_in_append }
}

// ---------------------------------------------------------------------------
// Related actions
// ---------------------------------------------------------------------------

#[test]
fn lock_related_tx_action_preserves_origin_and_action_cursor() {
    let action = test_action(ScriptRole::InputLock, [0x44; 32], &[0x99]);
    let related = related_tx_action(2, action.clone());

    assert!(matches!(related.origin, ActionOrigin::TxLevel { witness_index: 2 }));
    assert_eq!(cursor_bytes(&related.action.data).unwrap(), vec![0x99]);
}

#[test]
fn lock_related_otx_action_preserves_origin_layout_and_action_cursor() {
    let message_bytes = [4u8, 0, 0, 0];
    let otx = test_otx(&message_bytes, 1, 2);
    let action = test_action(ScriptRole::InputLock, [0x44; 32], &[0x88]);

    let related = related_otx_action(3, &otx, action);

    match related.origin {
        ActionOrigin::Otx { witness_index, otx_index, layout } => {
            assert_eq!(witness_index, 7);
            assert_eq!(otx_index, 3);
            assert_eq!(layout.base_inputs.start, 1);
            assert_eq!(layout.append_inputs.start, 2);
        }
        ActionOrigin::TxLevel { .. } => panic!("expected OTX action origin"),
    }
    assert_eq!(cursor_bytes(&related.action.data).unwrap(), vec![0x88]);
}

#[test]
fn lock_actions_for_message_returns_all_matching_actions() {
    let lock_hash = [0x44; 32];
    let other_hash = [0x55; 32];
    let message = message_with_actions(&[
        action_bytes(0, lock_hash, &[0x10]),
        action_bytes(0, lock_hash, &[0x20]),
        action_bytes(0, other_hash, &[0x30]),
    ]);

    let actions = lock_actions_for_message(&message, lock_hash).unwrap();

    assert_eq!(actions.len(), 2);
    assert_eq!(actions[0].index, 0);
    assert_eq!(actions[1].index, 1);
}

#[test]
fn append_segment_input_requires_segment_signature() {
    let lock_hash = [0x44; 32];
    let other_hash = [0x55; 32];
    let otx = test_otx(&message_with_actions(&[]), 0, 1);
    let context = lock_context_with_otx_entries(lock_hash, vec![other_hash, lock_hash], vec![otx]);
    let OtxLayouts::Complete(layout) = context.otx_layouts() else {
        panic!("expected complete OTX layouts");
    };
    let lock_inputs = context.script_context().current_lock_inputs().unwrap();

    assert_eq!(required_append_segment_indices(lock_inputs, &layout.otx_entries[0]), vec![0]);
}

#[test]
fn type_actions_for_message_returns_all_matching_type_actions() {
    let type_hash = [0x66; 32];
    let message = message_with_actions(&[
        action_bytes(1, type_hash, &[0x10]),
        action_bytes(1, type_hash, &[0x20]),
        action_bytes(2, type_hash, &[0x30]),
        action_bytes(0, type_hash, &[0x40]),
    ]);

    let actions = type_actions_for_message(&message, type_hash).unwrap();

    assert_eq!(actions.len(), 3);
    assert_eq!(actions[0].script_role, ScriptRole::InputType);
    assert_eq!(actions[1].script_role, ScriptRole::InputType);
    assert_eq!(actions[2].script_role, ScriptRole::OutputType);
}

#[test]
fn otx_actions_returns_related_actions_from_requested_otx() {
    let lock_hash = [0x44; 32];
    let other_lock_hash = [0x55; 32];
    let first_message = message_with_actions(&[action_bytes(0, lock_hash, &[0x10])]);
    let second_message = message_with_actions(&[action_bytes(0, lock_hash, &[0x20]), action_bytes(0, other_lock_hash, &[0x30])]);
    let context = lock_context_with_otx_entries(
        lock_hash,
        vec![lock_hash, other_lock_hash],
        vec![test_otx(&first_message, 0, 1), test_otx(&second_message, 1, 2)],
    );

    let actions = context.otx_actions(1).unwrap();

    assert_eq!(actions.len(), 2);
    assert_eq!(actions[0].action.index, 0);
    assert_eq!(actions[0].action.script_role, ScriptRole::InputLock);
    assert_eq!(actions[0].action_ref(), ActionRef::Otx { witness_index: 7, otx_index: 1, action_index: 0 });
    assert_eq!(cursor_bytes(&actions[0].action.data).unwrap(), vec![0x20]);
    assert_eq!(actions[1].action.index, 1);
    assert_eq!(actions[1].action.script_role, ScriptRole::InputLock);
    assert_eq!(cursor_bytes(&actions[1].action.data).unwrap(), vec![0x30]);
}

#[test]
fn otx_actions_rejects_missing_or_out_of_range_otx() {
    assert_eq!(test_context_without_otx_layouts().otx_actions(0).err(), Some(CoreError::InvalidOtxLayout));
    assert_eq!(test_context_with_otx_entries(Vec::new()).otx_actions(0).err(), Some(CoreError::InvalidOtxLayout));
}

#[test]
fn otx_actions_rejects_unknown_targets() {
    let lock_hash = [0x44; 32];
    let missing_lock_hash = [0x55; 32];
    let message = message_with_actions(&[action_bytes(0, missing_lock_hash, &[0x10])]);
    let context = lock_context_with_otx_entries(lock_hash, vec![lock_hash], vec![test_otx(&message, 0, 1)]);

    assert_eq!(context.otx_actions(0).err(), Some(CoreError::InvalidMessageTarget));
}

#[test]
fn otx_actions_return_all_actions_with_otx_origins() {
    let lock_hash = [0x44; 32];
    let other_lock_hash = [0x55; 32];
    let message = message_with_actions(&[action_bytes(0, lock_hash, &[0x10]), action_bytes(0, other_lock_hash, &[0x20])]);
    let context = lock_context_with_otx_entries(lock_hash, vec![lock_hash, other_lock_hash], vec![test_otx(&message, 0, 1)]);

    let actions = context.otx_actions(0).unwrap();

    assert_eq!(actions.len(), 2);
    assert_eq!(actions[0].action_ref(), ActionRef::Otx { witness_index: 7, otx_index: 0, action_index: 0 });
    assert_eq!(actions[1].action_ref(), ActionRef::Otx { witness_index: 7, otx_index: 0, action_index: 1 });
}

#[test]
fn tx_level_actions_return_unique_message_actions_with_tx_origins() {
    let lock_hash = [0x44; 32];
    let other_lock_hash = [0x55; 32];
    let message = message_with_actions(&[action_bytes(0, lock_hash, &[0x10]), action_bytes(0, other_lock_hash, &[0x20])]);
    let context = lock_context_with_tx_message(lock_hash, vec![lock_hash, other_lock_hash], &message);

    let actions = context.tx_level_actions().unwrap().unwrap();

    assert_eq!(actions.len(), 2);
    assert_eq!(actions[0].action_ref(), ActionRef::TxLevel { witness_index: 0, action_index: 0 });
    assert_eq!(actions[1].action_ref(), ActionRef::TxLevel { witness_index: 0, action_index: 1 });
}

#[test]
fn tx_level_actions_rejects_unknown_targets() {
    let lock_hash = [0x44; 32];
    let missing_lock_hash = [0x55; 32];
    let message = message_with_actions(&[action_bytes(0, missing_lock_hash, &[0x10])]);
    let context = lock_context_with_tx_message(lock_hash, vec![lock_hash], &message);

    assert_eq!(context.tx_level_actions().err(), Some(CoreError::InvalidMessageTarget));
}

#[test]
fn all_actions_return_tx_level_actions_then_otx_actions() {
    let lock_hash = [0x44; 32];
    let tx_message = message_with_actions(&[action_bytes(0, lock_hash, &[0x10])]);
    let first_otx_message = message_with_actions(&[action_bytes(0, lock_hash, &[0x20])]);
    let second_otx_message = message_with_actions(&[action_bytes(0, lock_hash, &[0x30])]);
    let context = lock_context_with_tx_message_and_otx_entries(
        lock_hash,
        vec![lock_hash],
        &tx_message,
        vec![test_otx(&first_otx_message, 0, 1), test_otx(&second_otx_message, 1, 2)],
    );

    let actions = context.all_actions().unwrap();

    assert_eq!(actions.len(), 3);
    assert_eq!(actions[0].action_ref(), ActionRef::TxLevel { witness_index: 0, action_index: 0 });
    assert_eq!(actions[1].action_ref(), ActionRef::Otx { witness_index: 7, otx_index: 0, action_index: 0 });
    assert_eq!(actions[2].action_ref(), ActionRef::Otx { witness_index: 7, otx_index: 1, action_index: 0 });
}

#[test]
fn all_actions_rejects_unknown_otx_targets() {
    let lock_hash = [0x44; 32];
    let missing_lock_hash = [0x55; 32];
    let tx_message = message_with_actions(&[action_bytes(0, lock_hash, &[0x10])]);
    let otx_message = message_with_actions(&[action_bytes(0, missing_lock_hash, &[0x20])]);
    let context = lock_context_with_tx_message_and_otx_entries(lock_hash, vec![lock_hash], &tx_message, vec![test_otx(&otx_message, 0, 1)]);

    assert_eq!(context.all_actions().err(), Some(CoreError::InvalidMessageTarget));
}

#[test]
fn find_action_returns_tx_level_action_by_ref() {
    let lock_hash = [0x44; 32];
    let tx_message = message_with_actions(&[action_bytes(0, lock_hash, &[0x10]), action_bytes(0, lock_hash, &[0x20])]);
    let context = lock_context_with_tx_message(lock_hash, vec![lock_hash], &tx_message);

    let action = context.find_action(ActionRef::TxLevel { witness_index: 0, action_index: 1 }).unwrap();

    assert_eq!(action.action_ref(), ActionRef::TxLevel { witness_index: 0, action_index: 1 });
    assert_eq!(cursor_bytes(&action.action.data).unwrap(), vec![0x20]);
}

#[test]
fn find_action_does_not_validate_action_target() {
    let lock_hash = [0x44; 32];
    let missing_lock_hash = [0x55; 32];
    let tx_message = message_with_actions(&[action_bytes(0, lock_hash, &[0x10]), action_bytes(0, missing_lock_hash, &[0x20])]);
    let context = lock_context_with_tx_message(lock_hash, vec![lock_hash], &tx_message);

    assert_eq!(context.tx_level_actions().err(), Some(CoreError::InvalidMessageTarget));

    let action = context.find_action(ActionRef::TxLevel { witness_index: 0, action_index: 1 }).unwrap();

    assert_eq!(action.action.script_hash, missing_lock_hash);
    assert_eq!(cursor_bytes(&action.action.data).unwrap(), vec![0x20]);
}

#[test]
fn find_action_returns_otx_action_by_ref() {
    let lock_hash = [0x44; 32];
    let other_lock_hash = [0x55; 32];
    let first_message = message_with_actions(&[action_bytes(0, lock_hash, &[0x10])]);
    let second_message = message_with_actions(&[action_bytes(0, other_lock_hash, &[0x20]), action_bytes(0, lock_hash, &[0x30])]);
    let context = lock_context_with_otx_entries(
        lock_hash,
        vec![lock_hash, other_lock_hash],
        vec![test_otx(&first_message, 0, 1), test_otx(&second_message, 1, 2)],
    );

    let action = context.find_action(ActionRef::Otx { witness_index: 7, otx_index: 1, action_index: 0 }).unwrap();

    assert_eq!(action.action_ref(), ActionRef::Otx { witness_index: 7, otx_index: 1, action_index: 0 });
    assert_eq!(cursor_bytes(&action.action.data).unwrap(), vec![0x20]);
}

#[test]
fn find_action_rejects_mismatched_otx_witness_index() {
    let lock_hash = [0x44; 32];
    let message = message_with_actions(&[action_bytes(0, lock_hash, &[0x10])]);
    let context = lock_context_with_otx_entries(lock_hash, vec![lock_hash], vec![test_otx(&message, 0, 1)]);

    assert_eq!(
        context.find_action(ActionRef::Otx { witness_index: 6, otx_index: 0, action_index: 0 }).err(),
        Some(CoreError::ActionNotFound)
    );
}

#[test]
fn find_action_rejects_missing_otx_entry_as_action_not_found() {
    let lock_hash = [0x44; 32];
    let context = lock_context_with_otx_entries(lock_hash, vec![lock_hash], vec![]);

    assert_eq!(
        context.find_action(ActionRef::Otx { witness_index: 7, otx_index: 0, action_index: 0 }).err(),
        Some(CoreError::ActionNotFound)
    );
}

#[test]
fn find_action_rejects_otx_ref_without_otx_layout_as_action_not_found() {
    let lock_hash = [0x44; 32];
    let tx_message = message_with_actions(&[action_bytes(0, lock_hash, &[0x10])]);
    let context = lock_context_with_tx_message(lock_hash, vec![lock_hash], &tx_message);

    assert_eq!(
        context.find_action(ActionRef::Otx { witness_index: 7, otx_index: 0, action_index: 0 }).err(),
        Some(CoreError::ActionNotFound)
    );
}

#[test]
fn find_action_past_the_last_action_is_not_found() {
    let lock_hash = [0x44; 32];
    let tx_message = message_with_actions(&[action_bytes(0, lock_hash, &[0x10])]);
    let context = lock_context_with_tx_message(lock_hash, vec![lock_hash], &tx_message);

    assert_eq!(
        context.find_action(ActionRef::TxLevel { witness_index: 0, action_index: 1 }).err(),
        Some(CoreError::ActionNotFound)
    );
    assert_eq!(
        context.find_action(ActionRef::TxLevel { witness_index: 1, action_index: 0 }).err(),
        Some(CoreError::ActionNotFound)
    );
}

#[test]
fn action_hash_binds_action_ref_and_action_content() {
    let lock_hash = [0x44; 32];
    let tx_message = message_with_actions(&[action_bytes(0, lock_hash, &[0x10])]);
    let context = lock_context_with_tx_message(lock_hash, vec![lock_hash], &tx_message);
    let action = context.find_action(ActionRef::TxLevel { witness_index: 0, action_index: 0 }).unwrap();

    let computed = action.action_hash().unwrap();
    let same = action_hash(action.action_ref(), &action.action).unwrap();
    let different_ref = action_hash(ActionRef::TxLevel { witness_index: 1, action_index: 0 }, &action.action).unwrap();
    let different_action = action_hash(action.action_ref(), &test_action(ScriptRole::InputLock, lock_hash, &[0x11])).unwrap();

    assert_eq!(computed, same);
    assert_ne!(computed, different_ref);
    assert_ne!(computed, different_action);
}

#[test]
fn action_hash_matches_independent_preimage() {
    let action = ActionView {
        index: 2,
        script_info_hash: [0x33; 32],
        script_role: ScriptRole::OutputType,
        script_hash: [0x44; 32],
        data: cursor_from_slice(&[0xab, 0xcd]),
    };
    let action_ref = ActionRef::Otx { witness_index: 5, otx_index: 1, action_index: 2 };
    let mut expected = [0u8; 32];
    let mut hasher = blake2b_ref::Blake2bBuilder::new(32).personal(b"ckbcb_act_core1\0").build();
    hasher.update(&[1]);
    hasher.update(&5u32.to_le_bytes());
    hasher.update(&1u32.to_le_bytes());
    hasher.update(&2u32.to_le_bytes());
    hasher.update(&[0x33; 32]);
    hasher.update(&[2]);
    hasher.update(&[0x44; 32]);
    hasher.update(&2u32.to_le_bytes());
    hasher.update(&[0xab, 0xcd]);
    hasher.finalize(&mut expected);
    assert_eq!(action_hash(action_ref, &action).unwrap(), expected);
}

// ---------------------------------------------------------------------------
// Type scope
// ---------------------------------------------------------------------------

#[test]
fn otx_scope_is_target_only_when_type_only_matches_by_action() {
    let relation = type_relation(false, false, false, false, false);

    assert_eq!(type_action_otx_scope(relation), TypeActionOtxScope::TargetOnly);
}

#[test]
fn otx_scope_is_in_scope_for_each_type_relation_presence() {
    for relation in [
        type_relation(true, false, false, false, false),
        type_relation(false, true, false, false, false),
        type_relation(false, false, true, false, false),
        type_relation(false, false, true, true, false),
        type_relation(false, false, false, false, true),
    ] {
        assert_eq!(type_action_otx_scope(relation), TypeActionOtxScope::InOtxScope(relation));
    }
}

#[test]
fn otx_scope_preserves_uncovered_base_output_relation() {
    let relation = type_relation(false, false, true, false, false);

    assert_eq!(type_action_otx_scope(relation), TypeActionOtxScope::InOtxScope(relation));
    assert_eq!(type_action_otx_scope(relation).in_otx_scope(), Some(relation));
}

// ---------------------------------------------------------------------------
// Lock plans
// ---------------------------------------------------------------------------

#[test]
fn missing_lock_group_coverage_is_reachable_after_otx_signature_planning() {
    let lock_hash = [0x44; 32];
    let context = coverage_context(lock_hash, vec![lock_hash, [0x55; 32], lock_hash], range(0, 2));

    assert_eq!(context.plan_lock_validation().err(), Some(CoreError::MissingLockGroupCoverage));
}

#[test]
fn other_lock_inputs_outside_otx_range_do_not_require_current_tx_level_coverage() {
    let lock_hash = [0x44; 32];
    let context = coverage_context(lock_hash, vec![lock_hash, [0x55; 32], [0x55; 32]], range(0, 1));

    let plan = context.plan_lock_validation().unwrap();
    assert_eq!(plan.required_signatures.len(), 1);
    assert_eq!(plan.required_signatures[0].origin, SignatureOrigin::OtxBase);
    assert_eq!(plan.required_signatures[0].carrier_witness_index, 1);
    assert_eq!(plan.required_signatures[0].seal, vec![7u8; 65]);
}

#[test]
fn engine_returns_empty_lock_plan_when_lock_is_absent() {
    let source = InMemorySource {
        input_locks: vec![[1u8; 32]],
        input_types: vec![None],
        raw_inputs: vec![Vec::new()],
        ..InMemorySource::default()
    };

    let context = CobuildContext::build(CurrentScript::InputLock([2u8; 32]), source).unwrap();
    let plan = context.plan_lock_validation().unwrap();

    assert_eq!(plan.lock_script_hash, [2u8; 32]);
    assert!(plan.required_signatures.is_empty());
}

#[test]
fn engine_preparation_uses_source_counts() {
    let source = InMemorySource {
        input_locks: vec![[1u8; 32], [2u8; 32], [3u8; 32]],
        input_types: vec![Some([4u8; 32]), None, Some([5u8; 32])],
        output_types: vec![None, Some([6u8; 32])],
        raw_inputs: vec![Vec::new(); 3],
        raw_outputs: vec![Vec::new(); 2],
        raw_cell_deps: vec![Vec::new(); 1],
        raw_header_deps: vec![[7u8; 32]; 2],
        witnesses: vec![Vec::new(); 4],
        ..InMemorySource::default()
    };

    let context = CobuildContext::build(CurrentScript::InputLock([1u8; 32]), source).unwrap();

    assert_eq!(context.counts(), (3, 2, 1, 2, 4));
}

#[test]
fn build_refuses_hash_lists_shorter_than_the_inputs() {
    let source = InMemorySource { input_locks: vec![[1u8; 32]], raw_inputs: vec![Vec::new(); 2], ..InMemorySource::default() };
    assert_eq!(CobuildContext::build(CurrentScript::InputLock([1u8; 32]), source).err(), Some(CoreError::InvalidContextInput));
}

#[test]
fn lock_query_without_matching_lock_has_no_tasks() {
    let source = hashable_source(vec![[1u8; 32]], Vec::new());
    let context = CobuildContext::build(CurrentScript::InputLock([2u8; 32]), source).unwrap();
    assert!(context.plan_lock_validation().unwrap().required_signatures.is_empty());
}

#[test]
fn lock_query_without_matching_lock_has_no_required_signatures() {
    let source = hashable_source(vec![[1u8; 32]], Vec::new());
    let context = CobuildContext::build(CurrentScript::InputLock([2u8; 32]), source).unwrap();
    let plan = context.plan_lock_validation().unwrap();
    assert!(plan.required_signatures.is_empty());
    assert!(plan.related_actions.is_empty());
}

#[test]
fn sighash_all_only_uses_unique_sighash_all_message_hash() {
    let message = empty_message();
    let source = hashable_source(
        vec![[1u8; 32], [2u8; 32]],
        vec![sighash_all_only_witness_bytes(&[7u8; 65]), sighash_all_witness_bytes(&[8u8; 65], &message)],
    );
    let context = CobuildContext::build(CurrentScript::InputLock([1u8; 32]), source.clone()).unwrap();

    let plan = context.plan_lock_validation().unwrap();
    assert_eq!(plan.required_signatures.len(), 1);
    assert_eq!(plan.required_signatures[0].origin, SignatureOrigin::TxLevel);
    assert_eq!(plan.required_signatures[0].carrier_witness_index, 0);
    assert_eq!(plan.required_signatures[0].seal, vec![7u8; 65]);
    assert_eq!(
        plan.required_signatures[0].signing_message_hash,
        tx_with_message_hash(&cursor_from_slice(&message), &source).unwrap()
    );
}

#[test]
fn lock_query_rejects_duplicate_sighash_all_witnesses() {
    let message = empty_message();
    let source = hashable_source(
        vec![[1u8; 32], [2u8; 32]],
        vec![sighash_all_witness_bytes(&[7u8; 65], &message), sighash_all_witness_bytes(&[8u8; 65], &message)],
    );
    let context = CobuildContext::build(CurrentScript::InputLock([1u8; 32]), source).unwrap();

    assert_eq!(context.plan_lock_validation().err(), Some(CoreError::DuplicateSighashAll));
}

#[test]
fn unrelated_malformed_witness_does_not_force_cobuild_flow() {
    let source = hashable_source(vec![[1u8; 32], [2u8; 32]], vec![sighash_all_only_witness_bytes(&[7u8; 65]), vec![1, 2, 3, 4]]);
    let context = CobuildContext::build(CurrentScript::InputLock([1u8; 32]), source).unwrap();

    assert_eq!(context.plan_lock_validation().unwrap().required_signatures.len(), 1);
}

#[test]
fn required_signatures_marks_otx_base_origin() {
    let target_lock = [1u8; 32];
    let source = hashable_source(
        vec![target_lock],
        vec![otx_start_bytes(), otx_bytes(&empty_message(), 0, 1, 0, &[lock_seal_bytes(target_lock, &[7u8; 65])], &[])],
    );
    let context = CobuildContext::build(CurrentScript::InputLock(target_lock), source).unwrap();

    let plan = context.plan_lock_validation().unwrap();

    assert_eq!(plan.required_signatures.len(), 1);
    assert_eq!(plan.required_signatures[0].origin, SignatureOrigin::OtxBase);
    assert_eq!(plan.required_signatures[0].carrier_witness_index, 1);
}

#[test]
fn required_signatures_marks_otx_append_origin() {
    let target_lock = [1u8; 32];
    let base_lock = [2u8; 32];
    let source = hashable_source(
        vec![base_lock, target_lock],
        vec![otx_start_bytes(), otx_bytes(&empty_message(), 0x01, 1, 1, &[], &[lock_seal_bytes(target_lock, &[7u8; 65])])],
    );
    let context = CobuildContext::build(CurrentScript::InputLock(target_lock), source).unwrap();

    let plan = context.plan_lock_validation().unwrap();

    assert_eq!(plan.required_signatures.len(), 1);
    assert_eq!(plan.required_signatures[0].origin, SignatureOrigin::OtxAppend);
    assert_eq!(plan.required_signatures[0].carrier_witness_index, 1);
}

#[test]
fn otx_signature_rejects_message_action_target_absent_from_transaction() {
    let target_lock = [1u8; 32];
    let absent_output_type = [9u8; 32];
    let message = message_with_actions(&[action_bytes(2, absent_output_type, &[])]);
    let source = hashable_source(
        vec![target_lock],
        vec![otx_start_bytes(), otx_bytes(&message, 0, 1, 0, &[lock_seal_bytes(target_lock, &[7u8; 65])], &[])],
    );
    let context = CobuildContext::build(CurrentScript::InputLock(target_lock), source).unwrap();

    assert_eq!(context.plan_lock_validation().err(), Some(CoreError::InvalidMessageTarget));
}

#[test]
fn otx_signature_rejects_invalid_message_action_role() {
    let target_lock = [1u8; 32];
    let message = message_with_actions(&[action_bytes(9, target_lock, &[])]);
    let source = hashable_source(
        vec![target_lock],
        vec![otx_start_bytes(), otx_bytes(&message, 0, 1, 0, &[lock_seal_bytes(target_lock, &[7u8; 65])], &[])],
    );
    let context = CobuildContext::build(CurrentScript::InputLock(target_lock), source).unwrap();

    assert_eq!(context.plan_lock_validation().err(), Some(CoreError::InvalidMessageTarget));
}

#[test]
fn unrelated_otx_lock_query_does_not_require_raw_hash_parts() {
    let target_lock = [1u8; 32];
    let unrelated_lock = [9u8; 32];
    let source = InMemorySource {
        input_locks: vec![target_lock],
        input_types: vec![None],
        raw_inputs: vec![Vec::new()],
        witnesses: vec![otx_start_bytes(), otx_bytes(&empty_message(), 0, 1, 0, &[], &[])],
        ..InMemorySource::default()
    };
    let context = CobuildContext::build(CurrentScript::InputLock(unrelated_lock), source).unwrap();

    assert!(context.plan_lock_validation().unwrap().required_signatures.is_empty());
}

#[test]
fn otx_signature_rejects_missing_required_seal_pair() {
    let target_lock = [1u8; 32];
    let source = hashable_source(vec![target_lock], vec![otx_start_bytes(), otx_bytes(&empty_message(), 0, 1, 0, &[], &[])]);
    let context = CobuildContext::build(CurrentScript::InputLock(target_lock), source).unwrap();
    assert_eq!(context.plan_lock_validation().err(), Some(CoreError::MissingSealPair));
}

#[test]
fn otx_signature_rejects_duplicate_required_seal_pair() {
    let target_lock = [1u8; 32];
    let seals = [lock_seal_bytes(target_lock, &[7u8; 65]), lock_seal_bytes(target_lock, &[8u8; 65])];
    let source = hashable_source(vec![target_lock], vec![otx_start_bytes(), otx_bytes(&empty_message(), 0, 1, 0, &seals, &[])]);
    let context = CobuildContext::build(CurrentScript::InputLock(target_lock), source).unwrap();
    assert_eq!(context.plan_lock_validation().err(), Some(CoreError::DuplicateSealPair));
}

#[test]
fn tx_level_plan_carries_related_lock_actions() {
    let lock = [1u8; 32];
    let message = message_with_actions(&[action_bytes(0, lock, &[0x10]), action_bytes(0, [2u8; 32], &[0x20])]);
    let source = hashable_source(vec![lock, [2u8; 32]], vec![sighash_all_witness_bytes(&[7u8; 65], &message)]);
    let context = CobuildContext::build(CurrentScript::InputLock(lock), source).unwrap();
    let plan = context.plan_lock_validation().unwrap();
    assert_eq!(plan.required_signatures.len(), 1);
    assert_eq!(plan.related_actions.len(), 1);
    assert_eq!(plan.related_actions[0].action_ref(), ActionRef::TxLevel { witness_index: 0, action_index: 0 });
}

#[test]
fn lock_plan_is_refused_for_a_type_script() {
    let source = hashable_source(vec![[1u8; 32]], Vec::new());
    let context = CobuildContext::build(CurrentScript::Type([3u8; 32]), source).unwrap();
    assert_eq!(context.plan_lock_validation().err(), Some(CoreError::InvalidContextInput));
}

// ---------------------------------------------------------------------------
// Type plans
// ---------------------------------------------------------------------------

#[test]
fn type_plan_names_tx_level_actions_of_the_type() {
    let type_hash = [3u8; 32];
    let message = message_with_actions(&[action_bytes(1, type_hash, &[0x10]), action_bytes(0, [1u8; 32], &[0x20])]);
    let mut source = hashable_source(vec![[1u8; 32]], vec![sighash_all_witness_bytes(&[7u8; 65], &message)]);
    source.input_types = vec![Some(type_hash)];
    let context = CobuildContext::build(CurrentScript::Type(type_hash), source).unwrap();

    let plan = context.plan_type_validation().unwrap();

    assert_eq!(plan.type_script_hash, type_hash);
    assert_eq!(plan.related_actions.len(), 1);
    assert!(matches!(plan.related_actions[0].action.origin, ActionOrigin::TxLevel { witness_index: 0 }));
    assert_eq!(plan.related_actions[0].otx_type_scope, TypeActionOtxScope::TargetOnly);
}

#[test]
fn type_plan_is_empty_when_no_message_names_the_type() {
    let type_hash = [3u8; 32];
    let mut source = hashable_source(vec![[1u8; 32]], Vec::new());
    source.input_types = vec![Some(type_hash)];
    let context = CobuildContext::build(CurrentScript::Type(type_hash), source).unwrap();
    assert!(context.plan_type_validation().unwrap().related_actions.is_empty());
    assert_eq!(
        CobuildContext::build(CurrentScript::InputLock([1u8; 32]), hashable_source(vec![[1u8; 32]], Vec::new()))
            .unwrap()
            .plan_type_validation()
            .err(),
        Some(CoreError::InvalidContextInput)
    );
}

// ---------------------------------------------------------------------------
// Sources
// ---------------------------------------------------------------------------

#[test]
fn classified_cursor_read_error_matches_context() {
    let cursor = cursor_from_slice(&[]);

    assert_eq!(ClassifiedCursor::protocol(cursor.clone()).read_error(), CoreError::MalformedCobuild);
    assert_eq!(ClassifiedCursor::source_input(cursor.clone()).read_error(), CoreError::InvalidContextInput);
    assert_eq!(ClassifiedCursor::hash_input(cursor).read_error(), CoreError::MissingHashInput);
}

#[test]
fn in_memory_source_classifies_hash_payload_misses_as_missing_hash_input() {
    let source = InMemorySource::default();

    assert!(matches!(source.raw_input_cursor(0), Err(CoreError::MissingHashInput)));
    assert!(matches!(source.raw_header_dep_hash(0), Err(CoreError::MissingHashInput)));
}

#[test]
fn in_memory_source_classifies_source_and_hash_cursors() {
    let source = InMemorySource {
        transaction: vec![0x11],
        raw_inputs: vec![vec![0x22]],
        witnesses: vec![vec![0x33]],
        ..InMemorySource::default()
    };

    assert_eq!(source.transaction_cursor().unwrap().read_context, CursorReadContext::SourceInput);
    assert_eq!(source.raw_input_cursor(0).unwrap().read_context, CursorReadContext::HashInput);
    assert_eq!(source.witness_cursor(0).unwrap().read_context, CursorReadContext::HashInput);
}

#[test]
fn in_memory_source_reports_counts_and_hashes() {
    let source = InMemorySource {
        tx_hash: [5u8; 32],
        input_locks: vec![[1u8; 32]],
        input_types: vec![Some([2u8; 32])],
        output_types: vec![None],
        raw_inputs: vec![Vec::new(); 2],
        witnesses: vec![Vec::new(); 4],
        ..InMemorySource::default()
    };
    assert_eq!(source.input_count(), Ok(2));
    assert_eq!(source.witness_count(), Ok(4));
    assert_eq!(source.tx_hash(), Ok([5u8; 32]));
    assert_eq!(source.input_lock_hash(0), Ok([1u8; 32]));
    assert_eq!(source.input_lock_hash(1), Err(CoreError::InvalidContextInput));
    assert_eq!(source.input_type_hash(0), Ok(Some([2u8; 32])));
    assert_eq!(source.output_type_hash(0), Ok(None));
}

#[test]
fn lock_query_uses_current_lock_group_leading_witness_only() {
    let source = hashable_source(vec![[1u8; 32], [2u8; 32]], vec![Vec::new(), sighash_all_only_witness_bytes(&[7u8; 65])]);

    let first = CobuildContext::build(CurrentScript::InputLock([1u8; 32]), source.clone()).unwrap();
    assert!(first.plan_lock_validation().unwrap().required_signatures.is_empty());

    let second = CobuildContext::build(CurrentScript::InputLock([2u8; 32]), source).unwrap();
    let plan = second.plan_lock_validation().unwrap();
    assert_eq!(plan.required_signatures.len(), 1);
    assert_eq!(plan.required_signatures[0].origin, SignatureOrigin::TxLevel);
    assert_eq!(plan.required_signatures[0].carrier_witness_index, 1);
}

#[test]
fn lock_query_rejects_malformed_group_leading_witness() {
    let source = hashable_source(vec![[1u8; 32]], vec![vec![1, 2, 3, 4]]);
    let context = CobuildContext::build(CurrentScript::InputLock([1u8; 32]), source).unwrap();
    assert!(matches!(
        context.plan_lock_validation(),
        Err(CoreError::MalformedCobuild | CoreError::InvalidOtxLayout)
    ));
}

fn malformed_run_source(tx_lock: [u8; 32], otx_lock: [u8; 32]) -> InMemorySource {
    hashable_source(
        vec![tx_lock, otx_lock],
        vec![
            sighash_all_only_witness_bytes(&[7u8; 65]),
            otx_start_bytes_at(1),
            otx_bytes(&empty_message(), 0x10, 1, 0, &[], &[]),
        ],
    )
}

#[test]
fn unrelated_malformed_otx_layout_does_not_fail_tx_level_lock_query() {
    let tx_lock = [1u8; 32];
    let otx_lock = [2u8; 32];
    let context = CobuildContext::build(CurrentScript::InputLock(tx_lock), malformed_run_source(tx_lock, otx_lock)).unwrap();

    let plan = context.plan_lock_validation().unwrap();
    assert_eq!(plan.required_signatures.len(), 1);
    assert_eq!(plan.required_signatures[0].origin, SignatureOrigin::TxLevel);
}

#[test]
fn malformed_otx_run_fails_the_lock_whose_inputs_it_reaches() {
    let tx_lock = [1u8; 32];
    let otx_lock = [2u8; 32];
    let context = CobuildContext::build(CurrentScript::InputLock(otx_lock), malformed_run_source(tx_lock, otx_lock)).unwrap();

    assert_eq!(
        context.invalid_otx_run(),
        Some(InvalidOtxRun {
            anchor: Some(RunAnchor { start_input_cell: 1, start_output_cell: 0 }),
            error: CoreError::InvalidOtxLayout,
        })
    );
    assert_eq!(context.plan_lock_validation().err(), Some(CoreError::InvalidOtxLayout));
}

#[test]
fn duplicate_otx_start_after_tx_level_lock_does_not_fail_unrelated_lock_query() {
    let tx_lock = [1u8; 32];
    let otx_lock = [2u8; 32];
    let source = hashable_source(
        vec![tx_lock, otx_lock],
        vec![sighash_all_only_witness_bytes(&[7u8; 65]), otx_start_bytes_at(1), otx_start_bytes_at(1)],
    );
    let context = CobuildContext::build(CurrentScript::InputLock(tx_lock), source).unwrap();

    let plan = context.plan_lock_validation().unwrap();
    assert_eq!(plan.required_signatures.len(), 1);
    assert_eq!(plan.required_signatures[0].origin, SignatureOrigin::TxLevel);
}

#[test]
fn uncovered_same_lock_remainder_input_fails_on_its_non_empty_group_witness() {
    let target_lock = [1u8; 32];
    let source = hashable_source(
        vec![target_lock, target_lock],
        vec![otx_start_bytes(), otx_bytes(&empty_message(), 0, 1, 0, &[lock_seal_bytes(target_lock, &[7u8; 65])], &[])],
    );
    let context = CobuildContext::build(CurrentScript::InputLock(target_lock), source).unwrap();
    // Input 1 lies outside the OTX run, so the group needs a transaction-level
    // seal, and the group's witness at input 1 (the OTX itself) is not empty.
    assert_eq!(context.plan_lock_validation().err(), Some(CoreError::InvalidLockGroupWitness));
}

fn typed_source(input_types: Vec<Option<[u8; 32]>>, witnesses: Vec<Vec<u8>>) -> InMemorySource {
    let mut source = hashable_source(vec![[1u8; 32]; input_types.len()], witnesses);
    source.input_types = input_types;
    source
}

#[test]
fn type_plan_ignores_duplicate_sighash_all_when_type_is_absent() {
    let absent_type_hash = [3u8; 32];
    let present_type_hash = [4u8; 32];
    let message = empty_message();
    let source = typed_source(
        vec![Some(present_type_hash)],
        vec![sighash_all_witness_bytes(&[7u8; 65], &message), sighash_all_witness_bytes(&[8u8; 65], &message)],
    );
    let context = CobuildContext::build(CurrentScript::Type(absent_type_hash), source).unwrap();

    let plan = context.plan_type_validation().unwrap();
    assert_eq!(plan.type_script_hash, absent_type_hash);
    assert!(plan.related_actions.is_empty());
}

#[test]
fn type_plan_with_duplicate_sighash_all_fails_a_present_type() {
    let type_hash = [4u8; 32];
    let message = empty_message();
    let source = typed_source(
        vec![Some(type_hash)],
        vec![sighash_all_witness_bytes(&[7u8; 65], &message), sighash_all_witness_bytes(&[8u8; 65], &message)],
    );
    let context = CobuildContext::build(CurrentScript::Type(type_hash), source).unwrap();
    assert_eq!(context.plan_type_validation().err(), Some(CoreError::DuplicateSighashAll));
}

#[test]
fn type_plan_rejects_tx_level_related_message_with_absent_action_target() {
    let type_hash = [3u8; 32];
    let absent_type_hash = [9u8; 32];
    let message = message_with_actions(&[action_bytes(2, absent_type_hash, &[])]);
    let source = typed_source(vec![Some(type_hash)], vec![sighash_all_witness_bytes(&[7u8; 65], &message)]);
    let context = CobuildContext::build(CurrentScript::Type(type_hash), source).unwrap();
    assert!(matches!(context.plan_type_validation(), Err(CoreError::InvalidMessageTarget)));
}

#[test]
fn type_plan_rejects_otx_related_message_with_invalid_action_role() {
    let type_hash = [3u8; 32];
    let target_lock = [1u8; 32];
    let message = message_with_actions(&[action_bytes(9, target_lock, &[])]);
    let source = typed_source(
        vec![Some(type_hash)],
        vec![otx_start_bytes(), otx_bytes(&message, 0, 1, 0, &[lock_seal_bytes(target_lock, &[7u8; 65])], &[])],
    );
    let context = CobuildContext::build(CurrentScript::Type(type_hash), source).unwrap();
    assert!(matches!(context.plan_type_validation(), Err(CoreError::InvalidMessageTarget)));
}

#[test]
fn malformed_otx_run_fails_the_type_whose_cells_it_reaches() {
    let type_hash = [3u8; 32];
    let source = typed_source(
        vec![None, Some(type_hash)],
        vec![Vec::new(), otx_start_bytes_at(1), otx_start_bytes_at(1)],
    );
    let context = CobuildContext::build(CurrentScript::Type(type_hash), source).unwrap();
    assert_eq!(context.plan_type_validation().err(), Some(CoreError::InvalidOtxLayout));

    let other = typed_source(vec![Some(type_hash), None], vec![Vec::new(), otx_start_bytes_at(1), otx_start_bytes_at(1)]);
    let context = CobuildContext::build(CurrentScript::Type(type_hash), other).unwrap();
    assert!(context.plan_type_validation().unwrap().related_actions.is_empty());
}

#[test]
fn every_listed_action_is_found_by_its_ref() {
    let lock_hash = [0x44; 32];
    let tx_message = message_with_actions(&[action_bytes(0, lock_hash, &[0x10]), action_bytes(0, lock_hash, &[0x11])]);
    let first_otx_message = message_with_actions(&[action_bytes(0, lock_hash, &[0x20])]);
    let second_otx_message = message_with_actions(&[action_bytes(0, lock_hash, &[0x30]), action_bytes(0, lock_hash, &[0x31])]);
    let context = lock_context_with_tx_message_and_otx_entries(
        lock_hash,
        vec![lock_hash],
        &tx_message,
        vec![test_otx(&first_otx_message, 0, 1), test_otx(&second_otx_message, 1, 2)],
    );

    let actions = context.all_actions().unwrap();
    assert_eq!(actions.len(), 5);
    for listed in &actions {
        let found = context.find_action(listed.action_ref()).unwrap();
        assert_eq!(found.action_ref(), listed.action_ref());
        assert_eq!(found.origin, listed.origin);
        assert_eq!(found.action.index, listed.action.index);
        assert_eq!(found.action.script_hash, listed.action.script_hash);
        assert_eq!(cursor_bytes(&found.action.data), cursor_bytes(&listed.action.data));
    }
}

#[test]
fn lock_group_leading_with_an_empty_witness_refuses_other_non_empty_group_witnesses() {
    let lock = [1u8; 32];
    let source = hashable_source(vec![lock, lock], vec![Vec::new(), sighash_all_only_witness_bytes(&[7u8; 65])]);
    let context = CobuildContext::build(CurrentScript::InputLock(lock), source).unwrap();
    assert_eq!(context.plan_lock_validation().err(), Some(CoreError::InvalidLockGroupWitness));
}

#[test]
fn type_plan_exposes_tx_level_message_for_related_input_type() {
    let type_hash = [3u8; 32];
    let message = message_with_actions(&[action_bytes(1, type_hash, &[])]);
    let source = typed_source(vec![Some(type_hash)], vec![sighash_all_witness_bytes(&[7u8; 65], &message)]);
    let context = CobuildContext::build(CurrentScript::Type(type_hash), source).unwrap();

    let plan = context.plan_type_validation().unwrap();

    assert_eq!(plan.type_script_hash, type_hash);
    assert_eq!(plan.related_actions.len(), 1);
    assert!(matches!(plan.related_actions[0].action.origin, ActionOrigin::TxLevel { witness_index: 0 }));
}

#[test]
fn type_plan_exposes_otx_message_with_relation_flags() {
    let type_hash = [3u8; 32];
    let target_lock = [1u8; 32];
    let message = message_with_actions(&[action_bytes(1, type_hash, &[])]);
    let source = typed_source(
        vec![Some(type_hash)],
        vec![otx_start_bytes(), otx_bytes(&message, 0, 1, 0, &[lock_seal_bytes(target_lock, &[7u8; 65])], &[])],
    );
    let context = CobuildContext::build(CurrentScript::Type(type_hash), source).unwrap();

    let plan = context.plan_type_validation().unwrap();

    assert_eq!(plan.related_actions.len(), 1);
    match plan.related_actions[0].action.origin {
        ActionOrigin::Otx { witness_index, otx_index, .. } => {
            assert_eq!(witness_index, 1);
            assert_eq!(otx_index, 0);
        }
        ActionOrigin::TxLevel { .. } => panic!("expected otx message"),
    }
    match plan.related_actions[0].otx_type_scope {
        TypeActionOtxScope::InOtxScope(relation) => {
            assert!(relation.input_type_in_base);
            assert!(!relation.input_type_in_append);
        }
        TypeActionOtxScope::TargetOnly => panic!("expected the type in the OTX scope"),
    }
}

#[test]
fn type_plan_exposes_otx_and_tx_level_messages_for_mixed_type_coverage() {
    let type_hash = [3u8; 32];
    let target_lock = [1u8; 32];
    let message = message_with_actions(&[action_bytes(1, type_hash, &[])]);
    let mut source = typed_source(
        vec![Some(type_hash), Some(type_hash)],
        vec![
            sighash_all_witness_bytes(&[7u8; 65], &message),
            otx_start_bytes(),
            otx_bytes(&message, 0, 1, 0, &[lock_seal_bytes(target_lock, &[8u8; 65])], &[]),
        ],
    );
    source.input_locks = vec![target_lock, [2u8; 32]];
    let context = CobuildContext::build(CurrentScript::Type(type_hash), source).unwrap();

    let plan = context.plan_type_validation().unwrap();

    assert_eq!(plan.related_actions.len(), 2);
    assert!(plan
        .related_actions
        .iter()
        .any(|related| matches!(related.action.origin, ActionOrigin::Otx { otx_index: 0, .. })));
    assert!(plan
        .related_actions
        .iter()
        .any(|related| matches!(related.action.origin, ActionOrigin::TxLevel { witness_index: 0 })));
}

#[test]
fn engine_preparation_classifies_witness_read_errors_as_missing_hash_input() {
    let source = InMemorySource { witnesses: vec![vec![1, 2, 3]], ..InMemorySource::default() };
    let mut witness = source.witness_cursor(0).unwrap();
    witness.cursor.size = 8;
    let mut fed = Vec::new();
    assert_eq!(
        cobuild_otx::reader::update_cursor_with_error(&mut fed, &witness.cursor, witness.read_error()),
        Err(CoreError::MissingHashInput)
    );
}

#[test]
fn engine_prepare_does_not_read_each_witness_twice() {
    let source = InMemorySource {
        input_locks: vec![[1u8; 32]],
        input_types: vec![None],
        raw_inputs: vec![Vec::new()],
        witnesses: vec![Vec::new()],
        ..InMemorySource::default()
    };
    let context = CobuildContext::build(CurrentScript::InputLock([1u8; 32]), source).unwrap();
    assert_eq!(context.scanned_witness_count(), 1);
}
