use cobuild_otx::context::CurrentScript;
use cobuild_otx::error::CoreError;
use cobuild_otx::lazy_reader::cobuild::{ActionVec, LockSealVec, OtxAppendSegmentVec};
use cobuild_otx::loader::{
    parse_transaction_info, prepare_context, read_counts_from_transaction, script_args_from_slice, PreparedContextInput,
    TxCounts,
};
use cobuild_otx::reader::{cursor_bytes, cursor_from_slice};

fn offsets_bytes(items: &[Vec<u8>]) -> Vec<u8> {
    let header_size = 4 + items.len() * 4;
    let total_size = header_size + items.iter().map(Vec::len).sum::<usize>();
    let mut bytes = Vec::with_capacity(total_size);
    bytes.extend_from_slice(&(total_size as u32).to_le_bytes());
    let mut offset = header_size;
    for item in items {
        bytes.extend_from_slice(&(offset as u32).to_le_bytes());
        offset += item.len();
    }
    for item in items {
        bytes.extend_from_slice(item);
    }
    bytes
}

fn table(fields: &[Vec<u8>]) -> Vec<u8> {
    offsets_bytes(fields)
}

fn dynvec(items: &[Vec<u8>]) -> Vec<u8> {
    if items.is_empty() {
        return 4u32.to_le_bytes().to_vec();
    }
    offsets_bytes(items)
}

fn fixvec(items: &[Vec<u8>]) -> Vec<u8> {
    let mut bytes = (items.len() as u32).to_le_bytes().to_vec();
    for item in items {
        bytes.extend_from_slice(item);
    }
    bytes
}

fn molecule_bytes(raw: &[u8]) -> Vec<u8> {
    let mut bytes = (raw.len() as u32).to_le_bytes().to_vec();
    bytes.extend_from_slice(raw);
    bytes
}

fn script(code_hash: [u8; 32], hash_type: u8, args: &[u8]) -> Vec<u8> {
    table(&[code_hash.to_vec(), vec![hash_type], molecule_bytes(args)])
}

fn cell_input(since: u64, tx_hash: [u8; 32], index: u32) -> Vec<u8> {
    let mut bytes = since.to_le_bytes().to_vec();
    bytes.extend_from_slice(&tx_hash);
    bytes.extend_from_slice(&index.to_le_bytes());
    bytes
}

fn cell_dep(tx_hash: [u8; 32], index: u32, dep_type: u8) -> Vec<u8> {
    let mut bytes = tx_hash.to_vec();
    bytes.extend_from_slice(&index.to_le_bytes());
    bytes.push(dep_type);
    bytes
}

fn cell_output(capacity: u64, lock: &[u8]) -> Vec<u8> {
    table(&[capacity.to_le_bytes().to_vec(), lock.to_vec(), Vec::new()])
}

fn transaction(inputs: &[Vec<u8>], outputs: &[Vec<u8>], outputs_data: &[Vec<u8>], cell_deps: &[Vec<u8>], header_deps: &[[u8; 32]], witnesses: &[Vec<u8>]) -> Vec<u8> {
    let headers: Vec<Vec<u8>> = header_deps.iter().map(|h| h.to_vec()).collect();
    let data: Vec<Vec<u8>> = outputs_data.iter().map(|d| molecule_bytes(d)).collect();
    let raw = table(&[
        0u32.to_le_bytes().to_vec(),
        fixvec(cell_deps),
        fixvec(&headers),
        fixvec(inputs),
        dynvec(outputs),
        dynvec(&data),
    ]);
    let witness_items: Vec<Vec<u8>> = witnesses.iter().map(|w| molecule_bytes(w)).collect();
    table(&[raw, dynvec(&witness_items)])
}

#[test]
fn parse_transaction_info_splits_every_list() {
    let lock = script([0x11; 32], 1, &[0x22; 20]);
    let tx = transaction(
        &[cell_input(0, [0x31; 32], 0), cell_input(5, [0x32; 32], 1)],
        &[cell_output(100, &lock)],
        &[vec![0xaa, 0xbb]],
        &[cell_dep([0x41; 32], 2, 0)],
        &[[0x51; 32]],
        &[vec![1, 2, 3], Vec::new()],
    );

    let info = parse_transaction_info(&tx).unwrap();

    assert_eq!(info.transaction, tx);
    assert_eq!(info.input_count, 2);
    assert_eq!(info.output_count, 1);
    assert_eq!(info.cell_dep_count, 1);
    assert_eq!(info.header_dep_count, 1);
    assert_eq!(info.raw_inputs, vec![cell_input(0, [0x31; 32], 0), cell_input(5, [0x32; 32], 1)]);
    assert_eq!(info.raw_outputs, vec![cell_output(100, &lock)]);
    assert_eq!(info.raw_outputs_data, vec![vec![0xaa, 0xbb]]);
    assert_eq!(info.raw_cell_deps, vec![cell_dep([0x41; 32], 2, 0)]);
    assert_eq!(info.raw_header_deps, vec![[0x51; 32]]);
    assert_eq!(info.witnesses, vec![vec![1, 2, 3], Vec::new()]);
}

#[test]
fn parse_transaction_info_rejects_non_transactions_as_invalid_layout() {
    assert_eq!(parse_transaction_info(&[]).err(), Some(CoreError::InvalidOtxLayout));
    assert_eq!(parse_transaction_info(&[1, 2, 3, 4, 5]).err(), Some(CoreError::InvalidOtxLayout));
    let mut tx = transaction(&[], &[], &[], &[], &[], &[]);
    tx[0] ^= 1;
    assert_eq!(parse_transaction_info(&tx).err(), Some(CoreError::InvalidOtxLayout));
}

#[test]
fn empty_transaction_has_empty_lists() {
    let tx = transaction(&[], &[], &[], &[], &[], &[]);
    let info = parse_transaction_info(&tx).unwrap();
    assert_eq!(info.input_count, 0);
    assert!(info.witnesses.is_empty());
    assert!(info.raw_outputs_data.is_empty());
}

#[test]
fn script_args_are_read_from_a_script() {
    let bytes = script([0x11; 32], 1, &[7u8; 20]);
    assert_eq!(script_args_from_slice(&bytes), Ok(vec![7u8; 20]));
    assert_eq!(script_args_from_slice(&script([0x11; 32], 0, &[])), Ok(Vec::new()));
    assert_eq!(script_args_from_slice(&[0u8; 3]), Err(CoreError::InvalidOtxLayout));
}

fn prepared_input(input_count: usize) -> PreparedContextInput {
    PreparedContextInput {
        transaction: Vec::new(),
        script: Vec::new(),
        witnesses: Vec::new(),
        input_count,
        output_count: 0,
        cell_dep_count: 0,
        header_dep_count: 0,
        input_locks: vec![[1u8; 32]],
        input_types: vec![None],
        output_types: Vec::new(),
        tx_hash: [0u8; 32],
        resolved_outputs: vec![Vec::new()],
        resolved_data: vec![Vec::new()],
        raw_inputs: vec![Vec::new()],
        raw_outputs: Vec::new(),
        raw_outputs_data: Vec::new(),
        raw_cell_deps: Vec::new(),
        raw_header_deps: Vec::new(),
    }
}

#[test]
fn prepare_context_builds_the_context_of_the_current_script() {
    let context = prepare_context(prepared_input(1), CurrentScript::InputLock([1u8; 32])).unwrap();
    assert_eq!(context.counts(), (1, 0, 0, 0, 0));
    assert_eq!(context.script_context().current_lock_inputs(), Ok([0].as_slice()));
}

#[test]
fn prepare_context_refuses_counts_that_disagree_with_the_lists() {
    assert_eq!(
        prepare_context(prepared_input(2), CurrentScript::InputLock([1u8; 32])).err(),
        Some(CoreError::InvalidContextInput)
    );
}

#[test]
fn action_vec_iterators_walk_items_in_order() {
    let actions = dynvec(&[
        table(&[[1u8; 32].to_vec(), vec![0], [2u8; 32].to_vec(), molecule_bytes(&[0x10])]),
        table(&[[3u8; 32].to_vec(), vec![1], [4u8; 32].to_vec(), molecule_bytes(&[0x20])]),
    ]);
    let vec = ActionVec::from_cursor(cursor_from_slice(&actions));
    let mut walk = vec.iter();
    let first = walk.next().unwrap();
    assert_eq!(first.script_hash().unwrap(), [2u8; 32]);
    let second = walk.next().unwrap();
    assert_eq!(second.script_role().unwrap(), 1);
    assert_eq!(cursor_bytes(&second.data().unwrap()).unwrap(), vec![0x20]);
    assert!(walk.next().is_none());
    assert!(walk.next().is_none());

    let mut owned = vec.into_iter();
    assert_eq!(owned.next().unwrap().script_info_hash().unwrap(), [1u8; 32]);
}

#[test]
fn seal_and_segment_iterators_walk_items_in_order() {
    let seals = dynvec(&[table(&[[9u8; 32].to_vec(), molecule_bytes(&[1, 2])])]);
    let mut walk = LockSealVec::from_cursor(cursor_from_slice(&seals)).into_iter();
    let seal = walk.next().unwrap();
    assert_eq!(seal.script_hash().unwrap(), [9u8; 32]);
    assert_eq!(cursor_bytes(&seal.seal().unwrap()).unwrap(), vec![1, 2]);
    assert!(walk.next().is_none());

    let segments = dynvec(&[table(&[
        vec![1],
        2u32.to_le_bytes().to_vec(),
        3u32.to_le_bytes().to_vec(),
        0u32.to_le_bytes().to_vec(),
        0u32.to_le_bytes().to_vec(),
        dynvec(&[]),
    ])]);
    let vec = OtxAppendSegmentVec::from_cursor(cursor_from_slice(&segments));
    let mut walk = vec.iter();
    let segment = walk.next().unwrap();
    assert_eq!(segment.segment_flags().unwrap(), 1);
    assert_eq!(segment.input_cells().unwrap(), 2);
    assert_eq!(segment.output_cells().unwrap(), 3);
    assert!(walk.next().is_none());
}

#[test]
fn read_counts_from_transaction_counts_every_list() {
    let lock = script([0x11; 32], 1, &[0x22; 20]);
    let tx = transaction(
        &[cell_input(0, [0x31; 32], 0), cell_input(5, [0x32; 32], 1)],
        &[cell_output(100, &lock)],
        &[vec![0xaa]],
        &[cell_dep([0x41; 32], 2, 0)],
        &[[0x51; 32], [0x52; 32], [0x53; 32]],
        &[vec![1], Vec::new(), vec![2], vec![3]],
    );
    assert_eq!(
        read_counts_from_transaction(&cursor_from_slice(&tx)),
        Ok(TxCounts { inputs: 2, outputs: 1, cell_deps: 1, header_deps: 3, witnesses: 4 })
    );
}

#[test]
fn read_counts_from_unreadable_transaction_is_missing_hash_input() {
    assert_eq!(read_counts_from_transaction(&cursor_from_slice(&[])), Err(CoreError::MissingHashInput));
    let tx = transaction(&[], &[], &[], &[], &[], &[]);
    assert_eq!(read_counts_from_transaction(&cursor_from_slice(&tx[..6])), Err(CoreError::MissingHashInput));
}

#[test]
fn in_memory_source_exposes_counts_as_one_value() {
    let source = cobuild_otx::source::InMemorySource {
        raw_inputs: vec![Vec::new(); 2],
        raw_outputs: vec![Vec::new(); 1],
        raw_cell_deps: vec![Vec::new(); 3],
        raw_header_deps: vec![[0u8; 32]; 1],
        witnesses: vec![Vec::new(); 4],
        ..cobuild_otx::source::InMemorySource::default()
    };

    assert_eq!(
        source.counts().unwrap(),
        TxCounts { inputs: 2, outputs: 1, cell_deps: 3, header_deps: 1, witnesses: 4 }
    );
}

#[test]
fn lazy_reader_witness_rejects_empty_cursor() {
    assert!(cobuild_otx::lazy_reader::witness::WitnessLayout::from_cursor(cursor_from_slice(&[])).is_err());
}
