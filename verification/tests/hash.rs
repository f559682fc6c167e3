use cobuild_otx::error::CoreError;
use cobuild_otx::hash::{checked_len_prefix, otx_append_segment_hash, otx_base_hash, tx_with_message_hash, tx_without_message_hash};
use cobuild_otx::layout::{OtxAppendSegmentLayout, OtxLayout, Range};
use cobuild_otx::protocol::SegmentFlags;
use cobuild_otx::lazy_reader::blockchain::{CellInput, CellOutput};
use cobuild_otx::reader::{cursor_from_slice, update_cursor, update_cursor_with_error, update_len_prefixed_cursor};
use cobuild_otx::source::InMemorySource;
use cobuild_otx::view::{LockSealView, MaskView, OtxAppendSegmentView, OtxView};

fn range(start: usize, count: usize) -> Range {
    Range { start, count }
}

fn hasher(personal: &[u8; 16]) -> blake2b_ref::Blake2b {
    blake2b_ref::Blake2bBuilder::new(32).personal(personal).build()
}

fn update_len_prefixed_for_test(hasher: &mut blake2b_ref::Blake2b, bytes: &[u8]) {
    hasher.update(&(bytes.len() as u32).to_le_bytes());
    hasher.update(bytes);
}

fn otx_view(message: &[u8], append_permissions: u8) -> OtxView {
    OtxView {
        message: cursor_from_slice(message),
        append_permissions,
        base_input_cells: 0,
        base_input_masks: MaskView::new(Vec::new()),
        base_output_cells: 0,
        base_output_masks: MaskView::new(Vec::new()),
        base_cell_deps: 0,
        base_cell_dep_masks: MaskView::new(Vec::new()),
        base_header_deps: 0,
        base_header_dep_masks: MaskView::new(Vec::new()),
        append_segments: Vec::new(),
        base_seals: Vec::new(),
    }
}

fn otx_layout() -> OtxLayout {
    OtxLayout {
        witness_index: 0,
        base_inputs: range(0, 0),
        append_inputs: range(0, 0),
        base_outputs: range(0, 0),
        append_outputs: range(0, 0),
        base_cell_deps: range(0, 0),
        append_cell_deps: range(0, 0),
        base_header_deps: range(0, 0),
        append_header_deps: range(0, 0),
        append_segments: Vec::new(),
    }
}

#[test]
fn tx_without_message_hash_is_deterministic() {
    let source = InMemorySource { tx_hash: [7u8; 32], ..InMemorySource::default() };
    assert_eq!(tx_without_message_hash(&source).unwrap(), tx_without_message_hash(&source).unwrap());
}

#[test]
fn len_prefix_rejects_values_larger_than_u32() {
    assert_eq!(checked_len_prefix((u32::MAX as usize) + 1), Err(CoreError::HashInputTooLarge));
    assert_eq!(checked_len_prefix(0x0102_0304), Ok([4, 3, 2, 1]));
}

#[test]
fn resolved_input_output_is_not_length_prefixed() {
    let source = InMemorySource {
        tx_hash: [9u8; 32],
        raw_inputs: vec![vec![0u8; 44]],
        resolved_outputs: vec![vec![1, 2, 3]],
        resolved_data: vec![vec![4, 5]],
        witnesses: vec![Vec::new(), vec![6, 7, 8]],
        ..InMemorySource::default()
    };

    let mut expected = [0u8; 32];
    let mut hasher = hasher(b"ckbcb_tnm_core1\0");
    hasher.update(&source.tx_hash);
    hasher.update(&[1, 2, 3]);
    hasher.update(&(2u32.to_le_bytes()));
    hasher.update(&[4, 5]);
    hasher.update(&(3u32.to_le_bytes()));
    hasher.update(&[6, 7, 8]);
    hasher.finalize(&mut expected);

    assert_eq!(tx_without_message_hash(&source).unwrap(), expected);
}

#[test]
fn tx_with_message_hash_covers_the_message_first() {
    let source = InMemorySource { tx_hash: [9u8; 32], witnesses: vec![vec![1]], ..InMemorySource::default() };
    let message = [0xaa, 0xbb];
    let mut expected = [0u8; 32];
    let mut hasher = hasher(b"ckbcb_twm_core1\0");
    hasher.update(&message);
    hasher.update(&source.tx_hash);
    hasher.update(&1u32.to_le_bytes());
    hasher.update(&[1]);
    hasher.finalize(&mut expected);
    assert_eq!(tx_with_message_hash(&cursor_from_slice(&message), &source).unwrap(), expected);
    assert_ne!(tx_without_message_hash(&source).unwrap(), expected);
}

#[test]
fn missing_resolved_input_is_missing_hash_input() {
    let source = InMemorySource { raw_inputs: vec![vec![0u8; 44]], ..InMemorySource::default() };
    assert_eq!(tx_without_message_hash(&source), Err(CoreError::MissingHashInput));
}

#[test]
fn otx_base_hash_includes_local_indices_for_base_deps_and_headers() {
    let mut otx = otx_view(&[0x11], 0);
    otx.base_cell_deps = 1;
    otx.base_cell_dep_masks = MaskView::new(vec![1]);
    otx.base_header_deps = 1;
    otx.base_header_dep_masks = MaskView::new(vec![1]);
    let mut layout = otx_layout();
    layout.base_cell_deps = range(0, 1);
    layout.append_cell_deps = range(1, 0);
    layout.base_header_deps = range(0, 1);
    layout.append_header_deps = range(1, 0);
    let source = InMemorySource {
        raw_cell_deps: vec![vec![0x22]],
        raw_header_deps: vec![[0x33; 32]],
        ..InMemorySource::default()
    };

    let actual = otx_base_hash(&otx, &layout, &source).unwrap();

    let mut expected = [0u8; 32];
    let mut hasher = hasher(b"ckbcb_otb_core1\0");
    hasher.update(&[0x11]);
    hasher.update(&[0]);
    hasher.update(&0u32.to_le_bytes());
    update_len_prefixed_for_test(&mut hasher, &[]);
    hasher.update(&0u32.to_le_bytes());
    update_len_prefixed_for_test(&mut hasher, &[]);
    hasher.update(&1u32.to_le_bytes());
    update_len_prefixed_for_test(&mut hasher, &[1]);
    hasher.update(&0u32.to_le_bytes());
    hasher.update(&[0x22]);
    hasher.update(&1u32.to_le_bytes());
    update_len_prefixed_for_test(&mut hasher, &[1]);
    hasher.update(&0u32.to_le_bytes());
    hasher.update(&[0x33; 32]);
    hasher.finalize(&mut expected);

    assert_eq!(actual, expected);
}

#[test]
fn otx_base_hash_streamed_cursor_fields_match_independent_preimage() {
    let previous_output = out_point_bytes([0x21; 32], 7);
    let input = cell_input_bytes(0x0102_0304_0506_0708, &previous_output);
    let lock = script_bytes([0x31; 32], 1, &[0x41, 0x42, 0x43]);
    let type_script = script_bytes([0x51; 32], 0, &[0x61, 0x62]);
    let output = cell_output_bytes(0x1112_1314_1516_1718, &lock, &type_script);
    CellInput::from_cursor(cursor_from_slice(&input)).verify(false).unwrap();
    CellOutput::from_cursor(cursor_from_slice(&output)).verify(false).unwrap();

    let resolved_output = vec![0x71, 0x72, 0x73];
    let resolved_data = vec![0x81, 0x82];

    let mut otx = otx_view(&[0x91, 0x92], 0x03);
    otx.base_input_cells = 1;
    otx.base_input_masks = MaskView::new(vec![0b0000_0011]);
    otx.base_output_cells = 1;
    otx.base_output_masks = MaskView::new(vec![0b0000_0110]);
    let mut layout = otx_layout();
    layout.base_inputs = range(0, 1);
    layout.append_inputs = range(1, 0);
    layout.base_outputs = range(0, 1);
    layout.append_outputs = range(1, 0);
    let source = InMemorySource {
        raw_inputs: vec![input],
        raw_outputs: vec![output],
        raw_outputs_data: vec![vec![0xa1, 0xa2]],
        resolved_outputs: vec![resolved_output.clone()],
        resolved_data: vec![resolved_data.clone()],
        ..InMemorySource::default()
    };

    let actual = otx_base_hash(&otx, &layout, &source).unwrap();

    let mut expected = [0u8; 32];
    let mut hasher = hasher(b"ckbcb_otb_core1\0");
    hasher.update(&[0x91, 0x92]);
    hasher.update(&[0x03]);
    hasher.update(&1u32.to_le_bytes());
    update_len_prefixed_for_test(&mut hasher, &[0b0000_0011]);
    hasher.update(&0u32.to_le_bytes());
    hasher.update(&0x0102_0304_0506_0708u64.to_le_bytes());
    hasher.update(&previous_output);
    hasher.update(&resolved_output);
    update_len_prefixed_for_test(&mut hasher, &resolved_data);
    hasher.update(&1u32.to_le_bytes());
    update_len_prefixed_for_test(&mut hasher, &[0b0000_0110]);
    hasher.update(&0u32.to_le_bytes());
    hasher.update(&lock);
    hasher.update(&type_script);
    hasher.update(&0u32.to_le_bytes());
    update_len_prefixed_for_test(&mut hasher, &[]);
    hasher.update(&0u32.to_le_bytes());
    update_len_prefixed_for_test(&mut hasher, &[]);
    hasher.finalize(&mut expected);

    assert_eq!(actual, expected);
}

#[test]
fn otx_base_hash_reports_missing_base_cells() {
    let mut otx = otx_view(&[0x11], 0);
    otx.base_input_cells = 1;
    otx.base_input_masks = MaskView::new(vec![0]);
    let mut layout = otx_layout();
    layout.base_inputs = range(0, 1);
    let source = InMemorySource::default();
    assert_eq!(otx_base_hash(&otx, &layout, &source), Err(CoreError::MissingHashInput));
}

fn out_point_bytes(tx_hash: [u8; 32], index: u32) -> Vec<u8> {
    let mut bytes = Vec::with_capacity(36);
    bytes.extend_from_slice(&tx_hash);
    bytes.extend_from_slice(&index.to_le_bytes());
    bytes
}

fn cell_input_bytes(since: u64, previous_output: &[u8]) -> Vec<u8> {
    let mut bytes = Vec::with_capacity(44);
    bytes.extend_from_slice(&since.to_le_bytes());
    bytes.extend_from_slice(previous_output);
    bytes
}

fn script_bytes(code_hash: [u8; 32], hash_type: u8, args: &[u8]) -> Vec<u8> {
    table_bytes(&[code_hash.to_vec(), vec![hash_type], molecule_bytes(args)])
}

fn cell_output_bytes(capacity: u64, lock: &[u8], type_script: &[u8]) -> Vec<u8> {
    table_bytes(&[capacity.to_le_bytes().to_vec(), lock.to_vec(), type_script.to_vec()])
}

fn molecule_bytes(raw: &[u8]) -> Vec<u8> {
    let mut bytes = Vec::with_capacity(4 + raw.len());
    bytes.extend_from_slice(&(raw.len() as u32).to_le_bytes());
    bytes.extend_from_slice(raw);
    bytes
}

fn table_bytes(fields: &[Vec<u8>]) -> Vec<u8> {
    let header_size = 4 + fields.len() * 4;
    let total_size = header_size + fields.iter().map(Vec::len).sum::<usize>();
    let mut bytes = Vec::with_capacity(total_size);
    bytes.extend_from_slice(&(total_size as u32).to_le_bytes());
    let mut offset = header_size;
    for field in fields {
        bytes.extend_from_slice(&(offset as u32).to_le_bytes());
        offset += field.len();
    }
    for field in fields {
        bytes.extend_from_slice(field);
    }
    bytes
}

#[test]
fn otx_base_hash_is_unchanged_by_appended_segments() {
    let mut otx = otx_view(&[0x11], 0x01);
    otx.base_input_cells = 1;
    otx.base_input_masks = MaskView::new(vec![0]);
    let mut layout = otx_layout();
    layout.base_inputs = range(0, 1);
    let source = InMemorySource {
        raw_inputs: vec![vec![1u8; 44], vec![2u8; 44]],
        resolved_outputs: vec![vec![3], vec![4]],
        resolved_data: vec![vec![5], vec![6]],
        ..InMemorySource::default()
    };
    let before = otx_base_hash(&otx, &layout, &source).unwrap();

    otx.append_segments = vec![OtxAppendSegmentView {
        segment_flags: 0,
        input_cells: 1,
        output_cells: 0,
        cell_deps: 0,
        header_deps: 0,
        seals: vec![LockSealView { script_hash: [9u8; 32], seal: cursor_from_slice(&[1, 2, 3]) }],
    }];
    otx.base_seals = vec![LockSealView { script_hash: [8u8; 32], seal: cursor_from_slice(&[4]) }];
    layout.append_inputs = range(1, 1);
    layout.append_segments = vec![OtxAppendSegmentLayout {
        segment_index: 0,
        flags: SegmentFlags::try_from(0).unwrap(),
        inputs: range(1, 1),
        outputs: range(0, 0),
        cell_deps: range(0, 0),
        header_deps: range(0, 0),
    }];
    let after = otx_base_hash(&otx, &layout, &source).unwrap();
    assert_eq!(before, after);

    otx.base_input_masks = MaskView::new(vec![0b0000_0001]);
    assert_ne!(otx_base_hash(&otx, &layout, &source).unwrap(), before);
}

#[test]
fn otx_append_segment_hash_commits_to_base_hash_and_appended_input() {
    let otx = otx_view(&[0x11], 0x01);
    let mut layout = otx_layout();
    layout.append_segments = vec![OtxAppendSegmentLayout {
        segment_index: 0,
        flags: SegmentFlags::try_from(0).unwrap(),
        inputs: range(1, 1),
        outputs: range(0, 0),
        cell_deps: range(0, 0),
        header_deps: range(0, 0),
    }];
    let source = InMemorySource {
        raw_inputs: vec![vec![1u8; 44], vec![2u8; 44]],
        resolved_outputs: vec![vec![3], vec![4]],
        resolved_data: vec![vec![5], vec![6, 7]],
        ..InMemorySource::default()
    };
    let base_hash = [0x5a; 32];

    let mut expected = [0u8; 32];
    let mut hasher = hasher(b"ckbcb_ota_core1\0");
    hasher.update(&[0x11]);
    hasher.update(&base_hash);
    hasher.update(&1u32.to_le_bytes());
    hasher.update(&0u32.to_le_bytes());
    hasher.update(&[2u8; 44]);
    hasher.update(&[4]);
    hasher.update(&2u32.to_le_bytes());
    hasher.update(&[6, 7]);
    hasher.update(&0u32.to_le_bytes());
    hasher.update(&0u32.to_le_bytes());
    hasher.update(&0u32.to_le_bytes());
    hasher.finalize(&mut expected);

    assert_eq!(otx_append_segment_hash(&otx, &layout, 0, &source, base_hash).unwrap(), expected);
    assert_ne!(otx_append_segment_hash(&otx, &layout, 0, &source, [0x5b; 32]).unwrap(), expected);
    assert_eq!(otx_append_segment_hash(&otx, &layout, 1, &source, base_hash), Err(CoreError::InvalidOtxLayout));
}

#[test]
fn update_cursor_feeds_the_window_bytes() {
    let mut cursor = cursor_from_slice(&[1, 2, 3, 4, 5]);
    cursor.offset = 1;
    cursor.size = 3;
    let mut fed = vec![9u8];
    assert_eq!(update_cursor(&mut fed, &cursor), Ok(()));
    assert_eq!(fed, vec![9, 2, 3, 4]);
}

#[test]
fn update_cursor_reports_the_given_error_past_the_buffer() {
    let mut cursor = cursor_from_slice(&[1, 2, 3]);
    cursor.offset = 2;
    cursor.size = 4;
    let mut fed = vec![7u8];
    assert_eq!(
        update_cursor_with_error(&mut fed, &cursor, CoreError::MissingHashInput),
        Err(CoreError::MissingHashInput)
    );
    assert_eq!(fed, vec![7]);
    assert_eq!(update_cursor(&mut fed, &cursor), Err(CoreError::MalformedCobuild));
}

#[test]
fn update_len_prefixed_cursor_prefixes_the_length() {
    let cursor = cursor_from_slice(&[0xaa, 0xbb]);
    let mut fed = Vec::new();
    assert_eq!(update_len_prefixed_cursor(&mut fed, &cursor, CoreError::MissingHashInput), Ok(()));
    assert_eq!(fed, vec![2, 0, 0, 0, 0xaa, 0xbb]);
    let mut long = cursor_from_slice(&[1]);
    long.size = 2;
    assert_eq!(
        update_len_prefixed_cursor(&mut fed, &long, CoreError::MissingHashInput),
        Err(CoreError::MissingHashInput)
    );
}

#[test]
fn tx_hash_does_not_cover_the_witnesses_at_input_positions() {
    let source = |seal_witness: Vec<u8>| InMemorySource {
        tx_hash: [9u8; 32],
        raw_inputs: vec![vec![0u8; 44]],
        resolved_outputs: vec![vec![1, 2, 3]],
        resolved_data: vec![vec![4, 5]],
        witnesses: vec![seal_witness, vec![6, 7, 8]],
        ..InMemorySource::default()
    };
    let with_seal = tx_without_message_hash(&source(vec![0x55; 70])).unwrap();
    let without_seal = tx_without_message_hash(&source(Vec::new())).unwrap();
    assert_eq!(with_seal, without_seal);

    let mut changed = source(Vec::new());
    changed.witnesses[1] = vec![6, 7, 9];
    assert_ne!(tx_without_message_hash(&changed).unwrap(), without_seal);
}

#[test]
fn otx_base_hash_ignores_fields_the_mask_leaves_out() {
    let base = |since: u64, mask: u8| {
        let mut otx = otx_view(&[0x11], 0);
        otx.base_input_cells = 1;
        otx.base_input_masks = MaskView::new(vec![mask]);
        let mut layout = otx_layout();
        layout.base_inputs = range(0, 1);
        layout.append_inputs = range(1, 0);
        let source = InMemorySource {
            raw_inputs: vec![cell_input_bytes(since, &out_point_bytes([0x21; 32], 7))],
            resolved_outputs: vec![vec![1, 2]],
            resolved_data: vec![vec![3]],
            ..InMemorySource::default()
        };
        otx_base_hash(&otx, &layout, &source).unwrap()
    };
    // Bit 0 (since) clear, bit 1 (previous output) set: the since does not count.
    assert_eq!(base(1, 0b10), base(2, 0b10));
    // With bit 0 set it does.
    assert_ne!(base(1, 0b11), base(2, 0b11));
}
