use cobuild_otx::error::CoreError;
use cobuild_otx::reader::cursor_from_slice;
use cobuild_otx::witness::{has_cobuild_witness_id, has_tx_level_witness_id, CobuildWitnessScanner, WitnessScan};

#[test]
fn tx_level_carrier_returns_false_for_empty_or_other_witness() {
    let empty = Vec::new();
    let legacy = [0, 1, 2, 3];
    let scan = scan_witnesses([empty.as_slice(), legacy.as_slice()]).unwrap();

    assert_eq!(scan.tx_level_carrier_has_sighash_all_layout(0), Ok(false));
    assert_eq!(scan.tx_level_carrier_has_sighash_all_layout(1), Ok(false));
    assert_eq!(scan.tx_level_carrier_has_sighash_all_layout(2), Ok(false));
}

#[test]
fn malformed_reserved_cobuild_witness_id_fails_scanning() {
    for item_id in [0xff00_0001u32, 0xff00_0002, 0xff00_0003, 0xff00_0004] {
        let malformed = item_id.to_le_bytes();

        assert_eq!(
            scan_witnesses([malformed.as_slice()]).err(),
            Some(CoreError::InvalidOtxLayout)
        );
    }
}

#[test]
fn duplicate_sighash_all_messages_are_rejected() {
    let message = empty_message();
    let first = sighash_all_witness_bytes(&[0x11], &message);
    let second = sighash_all_witness_bytes(&[0x22], &message);
    let scan = scan_witnesses([first.as_slice(), second.as_slice()]).unwrap();

    assert_eq!(
        scan.unique_sighash_all_message()
            .map(|message| message.is_some()),
        Err(CoreError::DuplicateSighashAll)
    );
    assert_eq!(
        scan.unique_sighash_all_message_with_index()
            .map(|message| message.map(|(index, _)| index)),
        Err(CoreError::DuplicateSighashAll)
    );
}

#[test]
fn sighash_all_only_is_carrier_layout_without_unique_message() {
    let witness = sighash_all_only_witness_bytes(&[0x11, 0x22]);
    let scan = scan_witnesses([witness.as_slice()]).unwrap();

    assert_eq!(scan.tx_level_carrier_has_sighash_all_layout(0), Ok(true));
    assert_eq!(
        scan.unique_sighash_all_message()
            .map(|message| message.is_some()),
        Ok(false)
    );
    assert_eq!(
        scan.unique_sighash_all_message_with_index()
            .map(|message| message.map(|(index, _)| index)),
        Ok(None)
    );
}

fn scan_witnesses<const N: usize>(witnesses: [&[u8]; N]) -> Result<WitnessScan, CoreError> {
    let mut scanner = CobuildWitnessScanner::with_capacity(N);
    for witness in witnesses {
        scanner.push_witness(cursor_from_slice(witness))?;
    }
    scanner.finish(0, 0, 0, 0).map(|scanned| scanned.tx_level)
}

fn sighash_all_witness_bytes(seal: &[u8], message: &[u8]) -> Vec<u8> {
    let seal_bytes = molecule_bytes(seal);
    let item = table_bytes(&[seal_bytes, message.to_vec()]);
    let mut bytes = Vec::new();
    bytes.extend_from_slice(&0xff00_0001u32.to_le_bytes());
    bytes.extend_from_slice(&item);
    bytes
}

fn sighash_all_only_witness_bytes(seal: &[u8]) -> Vec<u8> {
    let mut bytes = Vec::new();
    bytes.extend_from_slice(&0xff00_0002u32.to_le_bytes());
    bytes.extend_from_slice(&table_bytes(&[molecule_bytes(seal)]));
    bytes
}

fn empty_message() -> Vec<u8> {
    table_bytes(&[4u32.to_le_bytes().to_vec()])
}

fn molecule_bytes(raw: &[u8]) -> Vec<u8> {
    let mut bytes = Vec::with_capacity(4 + raw.len());
    bytes.extend_from_slice(&(raw.len() as u32).to_le_bytes());
    bytes.extend_from_slice(raw);
    bytes
}

fn table_bytes(fields: &[Vec<u8>]) -> Vec<u8> {
    let header_size = 4 + fields.len() * 4;
    let total_size = header_size + fields.iter().map(Vec::len).sum::<usize>();
    let mut bytes = Vec::with_capacity(total_size);
    bytes.extend_from_slice(&(total_size as u32).to_le_bytes());

    let mut offset = header_size;
    for field in fields {
        bytes.extend_from_slice(&(offset as u32).to_le_bytes());
        offset += field.len();
    }
    for field in fields {
        bytes.extend_from_slice(field);
    }

    bytes
}

#[test]
fn witness_ids_are_recognized_by_their_prefix() {
    let message = empty_message();
    let sighash_all = sighash_all_witness_bytes(&[0x11], &message);
    assert!(has_tx_level_witness_id(&cursor_from_slice(&sighash_all)));
    assert!(has_cobuild_witness_id(&cursor_from_slice(&sighash_all)));
    let legacy = [0u8, 1, 2, 3];
    assert!(!has_tx_level_witness_id(&cursor_from_slice(&legacy)));
    assert!(!has_cobuild_witness_id(&cursor_from_slice(&legacy)));
    assert!(!has_cobuild_witness_id(&cursor_from_slice(&[])));
}

#[test]
fn unique_sighash_all_message_reports_its_witness() {
    let message = empty_message();
    let legacy = [9u8; 3];
    let carrier = sighash_all_witness_bytes(&[0x11], &message);
    let scan = scan_witnesses([legacy.as_slice(), carrier.as_slice()]).unwrap();
    assert_eq!(scan.len(), 2);
    assert!(scan.has_cobuild_witness_layout());
    assert_eq!(
        scan.unique_sighash_all_message_with_index().map(|message| message.map(|(index, _)| index)),
        Ok(Some(1))
    );
    assert_eq!(scan.tx_level_carrier_has_sighash_all_layout(1), Ok(true));
}

#[test]
fn scan_without_cobuild_witnesses_has_no_layout() {
    let scan = scan_witnesses([[1u8, 2].as_slice(), [].as_slice()]).unwrap();
    assert!(!scan.has_cobuild_witness_layout());
    assert_eq!(scan.unique_sighash_all_message().map(|message| message.is_some()), Ok(false));
}
