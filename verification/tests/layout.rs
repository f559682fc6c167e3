use cobuild_otx::error::CoreError;
use cobuild_otx::layout::{OtxLayouts, Range};
use cobuild_otx::protocol::SegmentFlags;
use cobuild_otx::reader::cursor_from_slice;
use cobuild_otx::witness::CobuildWitnessScanner;

/// The witnesses and entity counts of a transaction whose OTX run is built.
#[derive(Clone, Default)]
struct LayoutTx {
    witnesses: Vec<Vec<u8>>,
    input_count: usize,
    output_count: usize,
    cell_dep_count: usize,
    header_dep_count: usize,
}

/// The ranges of one built OTX.
#[derive(Clone, Debug, PartialEq, Eq)]
struct OtxRanges {
    witness_index: usize,
    base_inputs: Range,
    append_inputs: Range,
    base_outputs: Range,
    append_outputs: Range,
    base_cell_deps: Range,
    append_cell_deps: Range,
    base_header_deps: Range,
    append_header_deps: Range,
    segments: Vec<(SegmentFlags, Range, Range, Range, Range)>,
}

struct LayoutSummary {
    otxs: Vec<OtxRanges>,
}

fn build_layout_from_witnesses(
    tx: &LayoutTx,
    input_count: usize,
    output_count: usize,
    cell_dep_count: usize,
    header_dep_count: usize,
) -> Result<LayoutSummary, CoreError> {
    let mut scanner = CobuildWitnessScanner::with_capacity(tx.witnesses.len());
    for witness in &tx.witnesses {
        scanner.push_witness(cursor_from_slice(witness))?;
    }
    let scanned = scanner.finish(input_count, output_count, cell_dep_count, header_dep_count)?;
    let otxs = match scanned.otx_layouts {
        OtxLayouts::Absent => Vec::new(),
        OtxLayouts::Complete(layout) => layout
            .otx_entries
            .iter()
            .map(|entry| {
                let l = &entry.layout;
                OtxRanges {
                    witness_index: l.witness_index,
                    base_inputs: l.base_inputs,
                    append_inputs: l.append_inputs,
                    base_outputs: l.base_outputs,
                    append_outputs: l.append_outputs,
                    base_cell_deps: l.base_cell_deps,
                    append_cell_deps: l.append_cell_deps,
                    base_header_deps: l.base_header_deps,
                    append_header_deps: l.append_header_deps,
                    segments: l
                        .append_segments
                        .iter()
                        .map(|s| (s.flags, s.inputs, s.outputs, s.cell_deps, s.header_deps))
                        .collect(),
                }
            })
            .collect(),
    };
    Ok(LayoutSummary { otxs })
}

fn build_layout(tx: &LayoutTx) -> Result<LayoutSummary, CoreError> {
    build_layout_from_witnesses(tx, tx.input_count, tx.output_count, tx.cell_dep_count, tx.header_dep_count)
}

#[test]
fn layout_empty_tx_has_no_otx_layouts() {
    let layout = build_layout(&LayoutTx {
        witnesses: Vec::new(),
        input_count: 0,
        output_count: 0,
        cell_dep_count: 0,
        header_dep_count: 0,
    })
    .unwrap();
    assert!(layout.otxs.is_empty());
}

#[test]
fn otx_without_start_is_invalid() {
    let result = build_layout(&LayoutTx {
        witnesses: vec![otx_witness()],
        input_count: 1,
        output_count: 0,
        cell_dep_count: 0,
        header_dep_count: 0,
    });

    assert_invalid(result, CoreError::InvalidOtxLayout);
}

#[test]
fn otx_witnesses_must_be_contiguous_after_start() {
    let result = build_layout(&LayoutTx {
        witnesses: vec![
            otx_start_witness(),
            otx_witness(),
            Vec::new(),
            otx_witness(),
        ],
        input_count: 2,
        output_count: 0,
        cell_dep_count: 0,
        header_dep_count: 0,
    });

    assert_invalid(result, CoreError::InvalidOtxLayout);
}

#[test]
fn duplicate_otx_start_is_invalid() {
    let result = build_layout(&LayoutTx {
        witnesses: vec![otx_start_witness(), otx_start_witness(), otx_witness()],
        input_count: 1,
        output_count: 0,
        cell_dep_count: 0,
        header_dep_count: 0,
    });

    assert_invalid(result, CoreError::InvalidOtxLayout);
}

#[test]
fn otx_start_without_following_otx_is_invalid() {
    let result = build_layout(&LayoutTx {
        witnesses: vec![otx_start_witness()],
        input_count: 0,
        output_count: 0,
        cell_dep_count: 0,
        header_dep_count: 0,
    });

    assert_invalid(result, CoreError::InvalidOtxLayout);
}

#[test]
fn zero_base_inputs_is_invalid() {
    let result = build_layout(&LayoutTx {
        witnesses: vec![
            otx_start_witness(),
            otx_witness_with_counts(0, 0, 0, 0, 0, 0),
        ],
        input_count: 0,
        output_count: 0,
        cell_dep_count: 0,
        header_dep_count: 0,
    });

    assert_invalid(result, CoreError::InvalidOtxLayout);
}

#[test]
fn reserved_append_permission_bits_are_invalid() {
    let result = build_layout(&LayoutTx {
        witnesses: vec![otx_start_witness(), otx_witness_with_permissions(0x10)],
        input_count: 1,
        output_count: 0,
        cell_dep_count: 0,
        header_dep_count: 0,
    });

    assert_invalid(result, CoreError::InvalidOtxLayout);
}

#[test]
fn append_count_without_permission_is_invalid() {
    let result = build_layout(&LayoutTx {
        witnesses: vec![
            otx_start_witness(),
            otx_witness_with_append_counts(0, 1, 0, 0, 0),
        ],
        input_count: 2,
        output_count: 0,
        cell_dep_count: 0,
        header_dep_count: 0,
    });

    assert_invalid(result, CoreError::InvalidOtxLayout);
}

#[test]
fn append_output_without_permission_is_invalid() {
    let result = build_layout(&LayoutTx {
        witnesses: vec![
            otx_start_witness(),
            otx_witness_with_append_counts(0, 0, 1, 0, 0),
        ],
        input_count: 1,
        output_count: 1,
        cell_dep_count: 0,
        header_dep_count: 0,
    });

    assert_invalid(result, CoreError::InvalidOtxLayout);
}

#[test]
fn append_cell_dep_without_permission_is_invalid() {
    let result = build_layout(&LayoutTx {
        witnesses: vec![
            otx_start_witness(),
            otx_witness_with_append_counts(0, 0, 0, 1, 0),
        ],
        input_count: 1,
        output_count: 0,
        cell_dep_count: 1,
        header_dep_count: 0,
    });

    assert_invalid(result, CoreError::InvalidOtxLayout);
}

#[test]
fn append_header_dep_without_permission_is_invalid() {
    let result = build_layout(&LayoutTx {
        witnesses: vec![
            otx_start_witness(),
            otx_witness_with_append_counts(0, 0, 0, 0, 1),
        ],
        input_count: 1,
        output_count: 0,
        cell_dep_count: 0,
        header_dep_count: 1,
    });

    assert_invalid(result, CoreError::InvalidOtxLayout);
}

#[test]
fn invalid_base_input_mask_length_is_invalid() {
    let result = build_layout(&LayoutTx {
        witnesses: vec![otx_start_witness(), otx_witness_with_base_input_mask(&[])],
        input_count: 1,
        output_count: 0,
        cell_dep_count: 0,
        header_dep_count: 0,
    });

    assert_invalid(result, CoreError::InvalidOtxLayout);
}

#[test]
fn invalid_base_output_mask_length_is_invalid() {
    let result = build_layout(&LayoutTx {
        witnesses: vec![
            otx_start_witness(),
            otx_witness_with_base_output_mask(1, &[]),
        ],
        input_count: 1,
        output_count: 1,
        cell_dep_count: 0,
        header_dep_count: 0,
    });

    assert_invalid(result, CoreError::InvalidOtxLayout);
}

#[test]
fn invalid_base_cell_dep_mask_length_is_invalid() {
    let result = build_layout(&LayoutTx {
        witnesses: vec![
            otx_start_witness(),
            otx_witness_with_base_cell_dep_mask(1, &[]),
        ],
        input_count: 1,
        output_count: 0,
        cell_dep_count: 1,
        header_dep_count: 0,
    });

    assert_invalid(result, CoreError::InvalidOtxLayout);
}

#[test]
fn invalid_base_header_dep_mask_length_is_invalid() {
    let result = build_layout(&LayoutTx {
        witnesses: vec![
            otx_start_witness(),
            otx_witness_with_base_header_dep_mask(1, &[]),
        ],
        input_count: 1,
        output_count: 0,
        cell_dep_count: 0,
        header_dep_count: 1,
    });

    assert_invalid(result, CoreError::InvalidOtxLayout);
}

#[test]
fn non_zero_base_input_mask_padding_bits_are_invalid() {
    let result = build_layout(&LayoutTx {
        witnesses: vec![
            otx_start_witness(),
            otx_witness_with_base_input_mask(&[0b0000_0100]),
        ],
        input_count: 1,
        output_count: 0,
        cell_dep_count: 0,
        header_dep_count: 0,
    });

    assert_invalid(result, CoreError::InvalidOtxLayout);
}

#[test]
fn non_zero_base_output_mask_padding_bits_are_invalid() {
    let result = build_layout(&LayoutTx {
        witnesses: vec![
            otx_start_witness(),
            otx_witness_with_base_output_mask(1, &[0b0001_0000]),
        ],
        input_count: 1,
        output_count: 1,
        cell_dep_count: 0,
        header_dep_count: 0,
    });

    assert_invalid(result, CoreError::InvalidOtxLayout);
}

#[test]
fn non_zero_base_cell_dep_mask_padding_bits_are_invalid() {
    let result = build_layout(&LayoutTx {
        witnesses: vec![
            otx_start_witness(),
            otx_witness_with_base_cell_dep_mask(1, &[0b0000_0010]),
        ],
        input_count: 1,
        output_count: 0,
        cell_dep_count: 1,
        header_dep_count: 0,
    });

    assert_invalid(result, CoreError::InvalidOtxLayout);
}

#[test]
fn non_zero_base_header_dep_mask_padding_bits_are_invalid() {
    let result = build_layout(&LayoutTx {
        witnesses: vec![
            otx_start_witness(),
            otx_witness_with_base_header_dep_mask(1, &[0b0000_0010]),
        ],
        input_count: 1,
        output_count: 0,
        cell_dep_count: 0,
        header_dep_count: 1,
    });

    assert_invalid(result, CoreError::InvalidOtxLayout);
}

#[test]
fn direct_witness_layout_matches_owned_layout() {
    let witnesses = vec![otx_start_witness(), otx_witness()];
    let tx = LayoutTx {
        witnesses: witnesses.clone(),
        ..LayoutTx::default()
    };

    let direct_layout = build_layout_from_witnesses(&tx, 1, 0, 0, 0).unwrap();
    let owned_layout = build_layout(&LayoutTx {
        witnesses,
        input_count: 1,
        output_count: 0,
        cell_dep_count: 0,
        header_dep_count: 0,
    })
    .unwrap();

    assert_eq!(direct_layout.otxs, owned_layout.otxs);
}

fn otx_start_witness() -> Vec<u8> {
    witness_union(
        0xff00_0004,
        &table(&[
            0u32.to_le_bytes().to_vec(),
            0u32.to_le_bytes().to_vec(),
            0u32.to_le_bytes().to_vec(),
            0u32.to_le_bytes().to_vec(),
        ]),
    )
}

fn assert_invalid<T>(result: Result<T, CoreError>, expected: CoreError) {
    assert_eq!(result.err(), Some(expected));
}

fn otx_witness() -> Vec<u8> {
    otx_witness_custom(OtxWitnessCustom::default())
}

fn otx_witness_with_permissions(append_permissions: u8) -> Vec<u8> {
    otx_witness_custom(OtxWitnessCustom { append_permissions, ..OtxWitnessCustom::default() })
}

fn otx_witness_with_append_counts(
    append_permissions: u8,
    append_inputs: u32,
    append_outputs: u32,
    append_cell_deps: u32,
    append_header_deps: u32,
) -> Vec<u8> {
    otx_witness_custom(OtxWitnessCustom {
        append_permissions,
        append_inputs,
        append_outputs,
        append_cell_deps,
        append_header_deps,
        ..OtxWitnessCustom::default()
    })
}

fn otx_witness_with_base_input_mask(mask: &[u8]) -> Vec<u8> {
    otx_witness_custom(OtxWitnessCustom { base_input_mask: mask, ..OtxWitnessCustom::default() })
}

fn otx_witness_with_base_output_mask(base_outputs: u32, mask: &[u8]) -> Vec<u8> {
    otx_witness_custom(OtxWitnessCustom { base_outputs, base_output_mask: mask, ..OtxWitnessCustom::default() })
}

fn otx_witness_with_base_cell_dep_mask(base_cell_deps: u32, mask: &[u8]) -> Vec<u8> {
    otx_witness_custom(OtxWitnessCustom { base_cell_deps, base_cell_dep_mask: mask, ..OtxWitnessCustom::default() })
}

fn otx_witness_with_base_header_dep_mask(base_header_deps: u32, mask: &[u8]) -> Vec<u8> {
    otx_witness_custom(OtxWitnessCustom { base_header_deps, base_header_dep_mask: mask, ..OtxWitnessCustom::default() })
}

fn otx_witness_with_counts(
    base_inputs: u32,
    append_inputs: u32,
    base_outputs: u32,
    append_outputs: u32,
    base_cell_deps: u32,
    base_header_deps: u32,
) -> Vec<u8> {
    let input_mask = vec![0; ((base_inputs as usize) * 2).div_ceil(8)];
    let output_mask = vec![0; ((base_outputs as usize) * 4).div_ceil(8)];
    let cell_dep_mask = vec![0; (base_cell_deps as usize).div_ceil(8)];
    let header_dep_mask = vec![0; (base_header_deps as usize).div_ceil(8)];
    otx_witness_custom(OtxWitnessCustom {
        base_inputs,
        base_outputs,
        base_cell_deps,
        base_header_deps,
        append_inputs,
        append_outputs,
        base_input_mask: &input_mask,
        base_output_mask: &output_mask,
        base_cell_dep_mask: &cell_dep_mask,
        base_header_dep_mask: &header_dep_mask,
        ..OtxWitnessCustom::default()
    })
}

struct OtxWitnessCustom<'a> {
    append_permissions: u8,
    base_inputs: u32,
    base_input_mask: &'a [u8],
    base_outputs: u32,
    base_output_mask: &'a [u8],
    base_cell_deps: u32,
    base_cell_dep_mask: &'a [u8],
    base_header_deps: u32,
    base_header_dep_mask: &'a [u8],
    append_inputs: u32,
    append_outputs: u32,
    append_cell_deps: u32,
    append_header_deps: u32,
}

impl Default for OtxWitnessCustom<'_> {
    fn default() -> Self {
        Self {
            append_permissions: 0,
            base_inputs: 1,
            base_input_mask: &[0],
            base_outputs: 0,
            base_output_mask: &[],
            base_cell_deps: 0,
            base_cell_dep_mask: &[],
            base_header_deps: 0,
            base_header_dep_mask: &[],
            append_inputs: 0,
            append_outputs: 0,
            append_cell_deps: 0,
            append_header_deps: 0,
        }
    }
}

/// An OTX witness whose appended entities, if any, form one closing segment.
fn otx_witness_custom(params: OtxWitnessCustom<'_>) -> Vec<u8> {
    let any_append = params.append_inputs + params.append_outputs + params.append_cell_deps + params.append_header_deps > 0;
    let segments = if any_append {
        dynvec(&[table(&[
            vec![0],
            params.append_inputs.to_le_bytes().to_vec(),
            params.append_outputs.to_le_bytes().to_vec(),
            params.append_cell_deps.to_le_bytes().to_vec(),
            params.append_header_deps.to_le_bytes().to_vec(),
            empty_dynvec(),
        ])])
    } else {
        empty_dynvec()
    };
    witness_union(
        0xff00_0003,
        &table(&[
            empty_message(),
            vec![params.append_permissions],
            params.base_inputs.to_le_bytes().to_vec(),
            molecule_bytes(params.base_input_mask),
            params.base_outputs.to_le_bytes().to_vec(),
            molecule_bytes(params.base_output_mask),
            params.base_cell_deps.to_le_bytes().to_vec(),
            molecule_bytes(params.base_cell_dep_mask),
            params.base_header_deps.to_le_bytes().to_vec(),
            molecule_bytes(params.base_header_dep_mask),
            segments,
            empty_dynvec(),
        ]),
    )
}

fn empty_message() -> Vec<u8> {
    table(&[empty_dynvec()])
}

fn witness_union(item_id: u32, item: &[u8]) -> Vec<u8> {
    let mut witness = Vec::with_capacity(4 + item.len());
    witness.extend_from_slice(&item_id.to_le_bytes());
    witness.extend_from_slice(item);
    witness
}

fn offsets(items: &[Vec<u8>]) -> Vec<u8> {
    let header_size = 4 + items.len() * 4;
    let total_size = header_size + items.iter().map(Vec::len).sum::<usize>();
    let mut out = Vec::with_capacity(total_size);
    out.extend_from_slice(&(total_size as u32).to_le_bytes());
    let mut offset = header_size;
    for item in items {
        out.extend_from_slice(&(offset as u32).to_le_bytes());
        offset += item.len();
    }
    for item in items {
        out.extend_from_slice(item);
    }
    out
}

fn table(fields: &[Vec<u8>]) -> Vec<u8> {
    offsets(fields)
}

fn dynvec(items: &[Vec<u8>]) -> Vec<u8> {
    if items.is_empty() {
        return empty_dynvec();
    }
    offsets(items)
}

fn empty_dynvec() -> Vec<u8> {
    4u32.to_le_bytes().to_vec()
}

fn molecule_bytes(bytes: &[u8]) -> Vec<u8> {
    let mut out = Vec::with_capacity(4 + bytes.len());
    out.extend_from_slice(&(bytes.len() as u32).to_le_bytes());
    out.extend_from_slice(bytes);
    out
}

#[test]
fn valid_otx_run_builds_one_entry_per_otx() {
    let layout = build_layout(&LayoutTx {
        witnesses: vec![vec![7, 7], otx_start_witness(), otx_witness(), otx_witness_with_append_counts(0x01, 2, 0, 0, 0)],
        input_count: 4,
        output_count: 0,
        cell_dep_count: 0,
        header_dep_count: 0,
    })
    .unwrap();
    assert_eq!(layout.otxs.len(), 2);
    assert_eq!(layout.otxs[0].witness_index, 2);
    assert_eq!(layout.otxs[0].base_inputs, Range { start: 0, count: 1 });
    assert_eq!(layout.otxs[1].witness_index, 3);
    assert_eq!(layout.otxs[1].base_inputs, Range { start: 1, count: 1 });
    assert_eq!(layout.otxs[1].append_inputs, Range { start: 2, count: 2 });
    assert_eq!(layout.otxs[1].segments.len(), 1);
}

#[test]
fn otx_counts_may_leave_room_in_the_transaction() {
    let ok = build_layout(&LayoutTx {
        witnesses: vec![otx_start_witness(), otx_witness()],
        input_count: 3,
        output_count: 2,
        cell_dep_count: 0,
        header_dep_count: 0,
    });
    assert!(ok.is_ok());
    let too_few_inputs = build_layout(&LayoutTx {
        witnesses: vec![otx_start_witness(), otx_witness_with_counts(2, 0, 0, 0, 0, 0)],
        input_count: 1,
        output_count: 0,
        cell_dep_count: 0,
        header_dep_count: 0,
    });
    assert_invalid(too_few_inputs, CoreError::InvalidOtxLayout);
}
