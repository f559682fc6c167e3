use cobuild_otx::context::{any_in_range, any_outside_range, range_contains, CurrentScript, CurrentScriptContext};
use cobuild_otx::error::CoreError;
use cobuild_otx::layout::{OtxAppendSegmentLayout, OtxLayout, OtxLayoutEntry, Range};
use cobuild_otx::protocol::SegmentFlags;
use cobuild_otx::reader::cursor_from_slice;
use cobuild_otx::view::{MaskView, MessageView, OtxAppendSegmentView, OtxView};

fn hash(byte: u8) -> [u8; 32] {
    [byte; 32]
}

fn range(start: usize, count: usize) -> Range {
    Range { start, count }
}

fn molecule_bytes(raw: &[u8]) -> Vec<u8> {
    let mut bytes = Vec::with_capacity(4 + raw.len());
    bytes.extend_from_slice(&(raw.len() as u32).to_le_bytes());
    bytes.extend_from_slice(raw);
    bytes
}

fn offsets_bytes(items: &[Vec<u8>]) -> Vec<u8> {
    let header_size = 4 + items.len() * 4;
    let total_size = header_size + items.iter().map(Vec::len).sum::<usize>();
    let mut bytes = Vec::with_capacity(total_size);
    bytes.extend_from_slice(&(total_size as u32).to_le_bytes());
    let mut offset = header_size;
    for item in items {
        bytes.extend_from_slice(&(offset as u32).to_le_bytes());
        offset += item.len();
    }
    for item in items {
        bytes.extend_from_slice(item);
    }
    bytes
}

fn dynvec_bytes(items: &[Vec<u8>]) -> Vec<u8> {
    if items.is_empty() {
        return 4u32.to_le_bytes().to_vec();
    }
    offsets_bytes(items)
}

fn table_bytes(fields: &[Vec<u8>]) -> Vec<u8> {
    offsets_bytes(fields)
}

fn message_with_action(script_role: u8, script_hash: [u8; 32]) -> Vec<u8> {
    let action = table_bytes(&[hash(0).to_vec(), vec![script_role], script_hash.to_vec(), molecule_bytes(&[])]);
    table_bytes(&[dynvec_bytes(&[action])])
}

fn validate_message_targets(context: &CurrentScriptContext, message: &[u8]) -> Result<(), CoreError> {
    let actions = MessageView::new(cursor_from_slice(message)).actions()?;
    context.validate_action_targets(&actions)
}

fn context_with_scripts(
    current_script: CurrentScript,
    input_locks: Vec<[u8; 32]>,
    input_types: Vec<Option<[u8; 32]>>,
    output_types: Vec<Option<[u8; 32]>>,
) -> CurrentScriptContext {
    assert_eq!(input_locks.len(), input_types.len());
    CurrentScriptContext::from_script_hashes(
        current_script,
        input_locks.len(),
        output_types.len(),
        &input_locks,
        &input_types,
        &output_types,
    )
    .unwrap()
}

fn empty_message() -> Vec<u8> {
    table_bytes(&[dynvec_bytes(&[])])
}

fn otx_entry_for_type_relation(
    base_inputs: Range,
    append_inputs: Range,
    base_outputs: Range,
    append_outputs: Range,
    base_output_masks: &[u8],
) -> OtxLayoutEntry {
    OtxLayoutEntry {
        layout: OtxLayout {
            witness_index: 0,
            base_inputs,
            append_inputs,
            base_outputs,
            append_outputs,
            base_cell_deps: range(0, 0),
            append_cell_deps: range(0, 0),
            base_header_deps: range(0, 0),
            append_header_deps: range(0, 0),
            append_segments: vec![OtxAppendSegmentLayout {
                segment_index: 0,
                flags: SegmentFlags::try_from(0).unwrap(),
                inputs: append_inputs,
                outputs: append_outputs,
                cell_deps: range(0, 0),
                header_deps: range(0, 0),
            }],
        },
        witness: OtxView {
            message: cursor_from_slice(&empty_message()),
            append_permissions: 0,
            base_input_cells: base_inputs.count,
            base_input_masks: MaskView::new(vec![0]),
            base_output_cells: base_outputs.count,
            base_output_masks: MaskView::new(base_output_masks.to_vec()),
            base_cell_deps: 0,
            base_cell_dep_masks: MaskView::new(Vec::new()),
            base_header_deps: 0,
            base_header_dep_masks: MaskView::new(Vec::new()),
            append_segments: vec![OtxAppendSegmentView {
                segment_flags: 0,
                input_cells: append_inputs.count,
                output_cells: append_outputs.count,
                cell_deps: 0,
                header_deps: 0,
                seals: Vec::new(),
            }],
            base_seals: Vec::new(),
        },
    }
}

#[test]
fn current_lock_context_tracks_only_current_lock_indices() {
    let lock_a = hash(1);
    let lock_b = hash(2);
    let context = context_with_scripts(
        CurrentScript::InputLock(lock_a),
        vec![lock_a, lock_b, lock_a],
        vec![None, None, None],
        vec![],
    );

    assert_eq!(context.current_lock_inputs(), Ok([0, 2].as_slice()));
    assert_eq!(context.input_range_contains_current_lock(range(1, 1)), Ok(false));
    assert_eq!(context.input_range_contains_current_lock(range(2, 1)), Ok(true));
}

#[test]
fn current_type_context_tracks_current_type_inputs_and_outputs() {
    let type_a = hash(1);
    let type_b = hash(2);
    let context = context_with_scripts(
        CurrentScript::Type(type_a),
        vec![hash(9), hash(9)],
        vec![Some(type_a), Some(type_b)],
        vec![None, Some(type_a)],
    );

    assert_eq!(context.type_input_indices(), Ok([0].as_slice()));
    assert_eq!(context.type_output_indices(), Ok([1].as_slice()));
    assert_eq!(context.current_type_present(), Ok(true));
}

#[test]
fn lock_coverage_uses_current_lock_indices() {
    let lock_a = hash(1);
    let lock_b = hash(2);
    let context = context_with_scripts(
        CurrentScript::InputLock(lock_a),
        vec![lock_a, lock_b, lock_a],
        vec![None, None, None],
        vec![],
    );

    assert_eq!(context.all_current_lock_inputs_in_range(range(0, 3)), Ok(true));
    assert_eq!(context.all_current_lock_inputs_in_range(range(0, 1)), Ok(false));
}

#[test]
fn current_lock_has_inputs_outside_range_uses_only_current_lock_indices() {
    let lock_a = hash(1);
    let lock_b = hash(2);
    let context = context_with_scripts(
        CurrentScript::InputLock(lock_a),
        vec![lock_b, lock_b, lock_a],
        vec![None, None, None],
        vec![],
    );

    assert_eq!(context.current_lock_has_inputs_outside_range(range(0, 2)), Ok(true));
}

#[test]
fn validate_message_targets_accepts_existing_targets() {
    let lock_hash = hash(1);
    let input_type_hash = hash(2);
    let output_type_hash = hash(3);
    let context = context_with_scripts(
        CurrentScript::InputLock(lock_hash),
        vec![lock_hash],
        vec![Some(input_type_hash)],
        vec![Some(output_type_hash)],
    );
    assert!(validate_message_targets(&context, &message_with_action(0, lock_hash)).is_ok());
    assert!(validate_message_targets(&context, &message_with_action(1, input_type_hash)).is_ok());
    assert!(validate_message_targets(&context, &message_with_action(2, output_type_hash)).is_ok());
}

#[test]
fn validate_message_targets_rejects_missing_or_unknown_targets() {
    let context = context_with_scripts(CurrentScript::InputLock(hash(1)), vec![hash(1)], vec![None], vec![]);
    for script_role in [0, 1, 2, 9] {
        assert_eq!(
            validate_message_targets(&context, &message_with_action(script_role, hash(7))),
            Err(CoreError::InvalidMessageTarget)
        );
    }
}

#[test]
fn script_hashes_cover_full_transaction_for_target_validation() {
    let lock_hash = hash(1);
    let other_lock_hash = hash(2);
    let input_type_hash = hash(3);
    let output_type_hash = hash(4);
    let context = context_with_scripts(
        CurrentScript::InputLock(lock_hash),
        vec![other_lock_hash, lock_hash, lock_hash],
        vec![Some(input_type_hash), Some(input_type_hash), None],
        vec![Some(output_type_hash), Some(output_type_hash)],
    );

    assert_eq!(context.current_lock_inputs(), Ok([1, 2].as_slice()));
    assert_eq!(context.input_lock_hashes().len(), 2);
    assert_eq!(context.input_type_hashes().len(), 1);
    assert_eq!(context.output_type_hashes().len(), 1);
    assert!(validate_message_targets(&context, &message_with_action(0, lock_hash)).is_ok());
    assert!(validate_message_targets(&context, &message_with_action(1, input_type_hash)).is_ok());
    assert!(validate_message_targets(&context, &message_with_action(2, output_type_hash)).is_ok());
}

#[test]
fn type_relation_tracks_base_append_inputs_and_outputs() {
    let type_hash = hash(1);
    let context = context_with_scripts(
        CurrentScript::Type(type_hash),
        vec![hash(9), hash(9), hash(9)],
        vec![Some(type_hash), Some(type_hash), None],
        vec![Some(type_hash), Some(type_hash), None],
    );
    let otx = otx_entry_for_type_relation(range(0, 1), range(1, 1), range(0, 1), range(1, 1), &[0b0000_0100]);

    let relation = context.type_relation_for_otx(&otx).unwrap();

    assert!(relation.input_type_in_base);
    assert!(relation.input_type_in_append);
    assert!(relation.output_type_in_base);
    assert!(relation.output_type_in_base_covered);
    assert!(relation.output_type_in_append);
}

#[test]
fn type_relation_reports_uncovered_base_output_type() {
    let type_hash = hash(1);
    let context = context_with_scripts(CurrentScript::Type(type_hash), vec![hash(9)], vec![None], vec![Some(type_hash)]);
    let otx = otx_entry_for_type_relation(range(0, 1), range(1, 0), range(0, 1), range(1, 0), &[0b0000_0000]);

    let relation = context.type_relation_for_otx(&otx).unwrap();

    assert!(!relation.input_type_in_base);
    assert!(!relation.input_type_in_append);
    assert!(relation.output_type_in_base);
    assert!(!relation.output_type_in_base_covered);
    assert!(!relation.output_type_in_append);
}

#[test]
fn type_relation_ignores_current_type_outside_otx_ranges() {
    let type_hash = hash(1);
    let context = context_with_scripts(
        CurrentScript::Type(type_hash),
        vec![hash(9), hash(9), hash(9)],
        vec![None, None, Some(type_hash)],
        vec![None, None, Some(type_hash)],
    );
    let otx = otx_entry_for_type_relation(range(0, 1), range(1, 1), range(0, 1), range(1, 1), &[0b0000_0100]);

    let relation = context.type_relation_for_otx(&otx).unwrap();

    assert!(!relation.input_type_in_base);
    assert!(!relation.input_type_in_append);
    assert!(!relation.output_type_in_base);
    assert!(!relation.output_type_in_base_covered);
    assert!(!relation.output_type_in_append);
}

#[test]
fn short_hash_lists_are_invalid_context_input() {
    let result = CurrentScriptContext::from_script_hashes(CurrentScript::InputLock(hash(1)), 2, 0, &[hash(1)], &[None, None], &[]);
    assert_eq!(result.err(), Some(CoreError::InvalidContextInput));
    let result = CurrentScriptContext::from_script_hashes(CurrentScript::InputLock(hash(1)), 0, 1, &[], &[], &[]);
    assert_eq!(result.err(), Some(CoreError::InvalidContextInput));
}

#[test]
fn lock_queries_on_a_type_context_are_invalid_context_input() {
    let context = context_with_scripts(CurrentScript::Type(hash(1)), vec![hash(9)], vec![Some(hash(1))], vec![]);
    assert_eq!(context.current_lock_inputs(), Err(CoreError::InvalidContextInput));
    assert_eq!(context.current_lock_hash(), Err(CoreError::InvalidContextInput));
    assert_eq!(context.current_type_hash(), Ok(hash(1)));
    let lock = context_with_scripts(CurrentScript::InputLock(hash(1)), vec![hash(1)], vec![None], vec![]);
    assert_eq!(lock.type_input_indices(), Err(CoreError::InvalidContextInput));
    assert_eq!(lock.current_script(), CurrentScript::InputLock(hash(1)));
}

#[test]
fn range_helpers_follow_half_open_ranges() {
    assert!(range_contains(range(2, 3), 2));
    assert!(range_contains(range(2, 3), 4));
    assert!(!range_contains(range(2, 3), 5));
    assert!(!range_contains(range(2, 0), 2));
    assert!(range_contains(range(usize::MAX - 1, 5), usize::MAX - 1));
    assert!(any_in_range(&[0, 7], range(5, 3)));
    assert!(!any_in_range(&[0, 8], range(5, 3)));
    assert!(any_outside_range(&[5, 8], range(5, 3)));
    assert!(!any_outside_range(&[5, 7], range(5, 3)));
}
