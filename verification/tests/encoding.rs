use product_provenance::{DecodeError, ProductInstruction, ProductRecord, Pubkey, TransactionType};

fn key(fill: u8) -> Pubkey {
    Pubkey::new_from_array([fill; 32])
}

fn sample_record() -> ProductRecord {
    ProductRecord {
        product_id: String::from("SN-001"),
        transaction_type: TransactionType::Transfer,
        previous_record: Some(key(7)),
        current_owner: key(1),
        next_owner: None,
        timestamp: 1_700_000_000,
        metadata: String::from("ok"),
    }
}

fn sample_bytes() -> Vec<u8> {
    let mut bytes = vec![6, 0, 0, 0, b'S', b'N', b'-', b'0', b'0', b'1', 2, 1];
    bytes.extend_from_slice(&[7u8; 32]);
    bytes.extend_from_slice(&[1u8; 32]);
    bytes.push(0);
    bytes.extend_from_slice(&[0, 241, 83, 101, 0, 0, 0, 0]);
    bytes.extend_from_slice(&[2, 0, 0, 0, b'o', b'k']);
    bytes
}

#[test]
fn record_encodes_to_the_documented_layout() {
    assert_eq!(sample_record().encode(), Some(sample_bytes()));
}

#[test]
fn record_decodes_from_the_documented_layout() {
    assert_eq!(ProductRecord::decode(&sample_bytes()), Ok(sample_record()));
}

#[test]
fn record_round_trips() {
    let record = sample_record();
    let bytes = record.encode().unwrap();
    assert_eq!(ProductRecord::decode(&bytes), Ok(record));
}

#[test]
fn record_round_trips_with_every_transaction_type() {
    for kind in [
        TransactionType::Manufacture,
        TransactionType::Repair,
        TransactionType::Transfer,
        TransactionType::EndOfLife,
    ] {
        let mut record = sample_record();
        record.transaction_type = kind;
        let bytes = record.encode().unwrap();
        assert_eq!(ProductRecord::decode(&bytes), Ok(record));
    }
}

#[test]
fn record_round_trips_with_both_owners_and_no_predecessor() {
    let record = ProductRecord {
        product_id: String::new(),
        transaction_type: TransactionType::Manufacture,
        previous_record: None,
        current_owner: key(0xAB),
        next_owner: Some(key(0xCD)),
        timestamp: 0,
        metadata: String::new(),
    };
    let bytes = record.encode().unwrap();
    assert_eq!(bytes.len(), 4 + 1 + 1 + 32 + 33 + 8 + 4);
    assert_eq!(ProductRecord::decode(&bytes), Ok(record));
}

#[test]
fn record_round_trips_with_text_beyond_ascii() {
    let mut record = sample_record();
    record.metadata = String::from("héllo ✓");
    let bytes = record.encode().unwrap();
    let tail = &bytes[bytes.len() - 14..];
    assert_eq!(tail, &[10, 0, 0, 0, 104, 195, 169, 108, 108, 111, 32, 226, 156, 147]);
    assert_eq!(ProductRecord::decode(&bytes), Ok(record));
}

#[test]
fn negative_timestamp_is_stored_in_twos_complement() {
    let mut record = sample_record();
    record.timestamp = -2;
    let bytes = record.encode().unwrap();
    let at = bytes.len() - 6 - 8;
    assert_eq!(&bytes[at..at + 8], &[254, 255, 255, 255, 255, 255, 255, 255]);
    assert_eq!(ProductRecord::decode(&bytes).unwrap().timestamp, -2);
}

#[test]
fn extreme_timestamps_round_trip() {
    for t in [i64::MIN, i64::MIN + 1, -1, 0, 1, i64::MAX - 1, i64::MAX] {
        let mut record = sample_record();
        record.timestamp = t;
        let bytes = record.encode().unwrap();
        assert_eq!(ProductRecord::decode(&bytes).unwrap().timestamp, t);
    }
}

#[test]
fn transaction_type_tags_are_the_declaration_order() {
    assert_eq!(TransactionType::Manufacture.tag(), 0);
    assert_eq!(TransactionType::Repair.tag(), 1);
    assert_eq!(TransactionType::Transfer.tag(), 2);
    assert_eq!(TransactionType::EndOfLife.tag(), 3);
    assert_eq!(TransactionType::from_tag(0), Some(TransactionType::Manufacture));
    assert_eq!(TransactionType::from_tag(1), Some(TransactionType::Repair));
    assert_eq!(TransactionType::from_tag(2), Some(TransactionType::Transfer));
    assert_eq!(TransactionType::from_tag(3), Some(TransactionType::EndOfLife));
    assert_eq!(TransactionType::from_tag(4), None);
    assert_eq!(TransactionType::from_tag(255), None);
}

#[test]
fn truncated_record_is_refused() {
    let bytes = sample_bytes();
    for cut in 0..bytes.len() {
        assert_eq!(ProductRecord::decode(&bytes[..cut]), Err(DecodeError));
        assert!(ProductRecord::decode_prefix(&bytes[..cut]).is_err());
    }
}

#[test]
fn unknown_transaction_type_tag_is_refused() {
    let mut bytes = sample_bytes();
    bytes[10] = 4;
    assert_eq!(ProductRecord::decode(&bytes), Err(DecodeError));
    bytes[10] = 255;
    assert_eq!(ProductRecord::decode(&bytes), Err(DecodeError));
}

#[test]
fn presence_byte_other_than_zero_or_one_is_refused() {
    let mut bytes = sample_bytes();
    bytes[11] = 2;
    assert_eq!(ProductRecord::decode(&bytes), Err(DecodeError));
    let mut bytes = sample_bytes();
    bytes[11 + 33 + 32] = 9;
    assert_eq!(ProductRecord::decode(&bytes), Err(DecodeError));
}

#[test]
fn text_that_is_not_utf8_is_refused() {
    let mut bytes = sample_bytes();
    bytes[4] = 0xFF;
    assert_eq!(ProductRecord::decode(&bytes), Err(DecodeError));
    let mut bytes = sample_bytes();
    let last = bytes.len() - 1;
    bytes[last] = 0xC3;
    assert_eq!(ProductRecord::decode(&bytes), Err(DecodeError));
}

#[test]
fn text_count_that_runs_past_the_end_is_refused() {
    let mut bytes = sample_bytes();
    let at = bytes.len() - 6;
    bytes[at] = 3;
    assert_eq!(ProductRecord::decode(&bytes), Err(DecodeError));
    bytes[at] = 2;
    bytes[at + 3] = 0xFF;
    assert_eq!(ProductRecord::decode(&bytes), Err(DecodeError));
}

#[test]
fn bytes_after_the_record_are_refused_by_decode_and_passed_over_by_decode_prefix() {
    let mut bytes = sample_bytes();
    let used = bytes.len();
    bytes.extend_from_slice(&[0, 0, 0]);
    assert_eq!(ProductRecord::decode(&bytes), Err(DecodeError));
    assert_eq!(ProductRecord::decode_prefix(&bytes), Ok((sample_record(), used)));
}

#[test]
fn decode_prefix_reports_the_bytes_used() {
    let bytes = sample_bytes();
    assert_eq!(ProductRecord::decode_prefix(&bytes), Ok((sample_record(), bytes.len())));
}

#[test]
fn empty_input_is_no_record_and_no_request() {
    assert_eq!(ProductRecord::decode(&[]), Err(DecodeError));
    assert!(ProductInstruction::decode(&[]).is_err());
}

#[test]
fn zeroed_buffer_reads_as_an_empty_manufacture_record() {
    let zeros = [0u8; 64];
    let (record, used) = ProductRecord::decode_prefix(&zeros).unwrap();
    assert_eq!(used, 51);
    assert_eq!(record.product_id, "");
    assert_eq!(record.transaction_type, TransactionType::Manufacture);
    assert_eq!(record.previous_record, None);
    assert_eq!(record.current_owner, key(0));
    assert_eq!(record.next_owner, None);
    assert_eq!(record.timestamp, 0);
    assert_eq!(record.metadata, "");
}

#[test]
fn records_compare_field_by_field() {
    let a = sample_record();
    let b = a.clone();
    assert_eq!(a, b);
    let mut c = a.clone();
    c.metadata = String::from("ko");
    assert_ne!(a, c);
    let mut d = a.clone();
    d.next_owner = Some(key(2));
    assert_ne!(a, d);
    let mut e = a.clone();
    e.previous_record = Some(key(8));
    assert_ne!(a, e);
    let mut f = a.clone();
    f.timestamp += 1;
    assert_ne!(a, f);
}

fn encoded(instruction: &ProductInstruction) -> Vec<u8> {
    instruction.encode().unwrap()
}

#[test]
fn create_request_layout() {
    let request = ProductInstruction::CreateProduct {
        product_id: String::from("SN-001"),
        metadata: String::from("batch-7"),
    };
    let mut expected = vec![0, 6, 0, 0, 0];
    expected.extend_from_slice(b"SN-001");
    expected.extend_from_slice(&[7, 0, 0, 0]);
    expected.extend_from_slice(b"batch-7");
    assert_eq!(encoded(&request), expected);
    match ProductInstruction::decode(&expected) {
        Ok(ProductInstruction::CreateProduct { product_id, metadata }) => {
            assert_eq!(product_id, "SN-001");
            assert_eq!(metadata, "batch-7");
        }
        other => panic!("decoded to {:?}", other),
    }
}

#[test]
fn transfer_request_layout() {
    let request = ProductInstruction::TransferOwnership { next_owner: key(0x42) };
    let mut expected = vec![1];
    expected.extend_from_slice(&[0x42; 32]);
    assert_eq!(encoded(&request), expected);
    match ProductInstruction::decode(&expected) {
        Ok(ProductInstruction::TransferOwnership { next_owner }) => {
            assert_eq!(next_owner, key(0x42));
        }
        other => panic!("decoded to {:?}", other),
    }
}

#[test]
fn repair_request_layout() {
    let request = ProductInstruction::RecordRepair { metadata: String::from("screen replaced") };
    let mut expected = vec![2, 15, 0, 0, 0];
    expected.extend_from_slice(b"screen replaced");
    assert_eq!(encoded(&request), expected);
    match ProductInstruction::decode(&expected) {
        Ok(ProductInstruction::RecordRepair { metadata }) => {
            assert_eq!(metadata, "screen replaced");
        }
        other => panic!("decoded to {:?}", other),
    }
}

#[test]
fn end_of_life_request_layout() {
    assert_eq!(encoded(&ProductInstruction::MarkEndOfLife), vec![3]);
    assert!(matches!(ProductInstruction::decode(&[3]), Ok(ProductInstruction::MarkEndOfLife)));
}

#[test]
fn unknown_request_tag_is_refused() {
    assert_eq!(ProductInstruction::decode(&[4]).err(), Some(DecodeError));
    assert_eq!(ProductInstruction::decode(&[255, 0, 0, 0, 0]).err(), Some(DecodeError));
}

#[test]
fn truncated_request_is_refused() {
    let create = encoded(&ProductInstruction::CreateProduct {
        product_id: String::from("SN-001"),
        metadata: String::from("batch-7"),
    });
    for cut in 0..create.len() {
        assert!(ProductInstruction::decode(&create[..cut]).is_err());
    }
    let transfer = encoded(&ProductInstruction::TransferOwnership { next_owner: key(3) });
    for cut in 0..transfer.len() {
        assert!(ProductInstruction::decode(&transfer[..cut]).is_err());
    }
    let repair = encoded(&ProductInstruction::RecordRepair { metadata: String::from("x") });
    for cut in 0..repair.len() {
        assert!(ProductInstruction::decode(&repair[..cut]).is_err());
    }
}

#[test]
fn bytes_after_a_request_are_refused() {
    for request in [
        ProductInstruction::CreateProduct {
            product_id: String::from("a"),
            metadata: String::from("b"),
        },
        ProductInstruction::TransferOwnership { next_owner: key(3) },
        ProductInstruction::RecordRepair { metadata: String::from("x") },
        ProductInstruction::MarkEndOfLife,
    ] {
        let mut bytes = encoded(&request);
        assert!(ProductInstruction::decode(&bytes).is_ok());
        bytes.push(0);
        assert!(ProductInstruction::decode(&bytes).is_err());
    }
}

#[test]
fn request_text_that_is_not_utf8_is_refused() {
    assert!(ProductInstruction::decode(&[2, 1, 0, 0, 0, 0x80]).is_err());
    assert!(ProductInstruction::decode(&[0, 1, 0, 0, 0, b'a', 2, 0, 0, 0, 0xE2, 0x9C]).is_err());
}

#[test]
fn identities_are_equal_when_their_bytes_are() {
    let mut raw = [5u8; 32];
    let a = Pubkey::new_from_array(raw);
    assert_eq!(a, key(5));
    assert_eq!(a.to_bytes(), raw);
    for i in 0..32 {
        raw[i] = 6;
        assert_ne!(Pubkey::new_from_array(raw), a);
        raw[i] = 5;
    }
}
