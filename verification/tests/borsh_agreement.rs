use product_provenance::{ProductInstruction, ProductRecord, Pubkey, TransactionType};

type RecordFields = (String, u8, Option<[u8; 32]>, [u8; 32], Option<[u8; 32]>, i64, String);

fn fields_of(record: &ProductRecord) -> RecordFields {
    (
        record.product_id.clone(),
        record.transaction_type.tag(),
        record.previous_record.map(|k| k.to_bytes()),
        record.current_owner.to_bytes(),
        record.next_owner.map(|k| k.to_bytes()),
        record.timestamp,
        record.metadata.clone(),
    )
}

fn records() -> Vec<ProductRecord> {
    vec![
        ProductRecord {
            product_id: String::from("SN-001"),
            transaction_type: TransactionType::Manufacture,
            previous_record: None,
            current_owner: Pubkey::new_from_array([1; 32]),
            next_owner: None,
            timestamp: 1_700_000_000,
            metadata: String::from("batch-7"),
        },
        ProductRecord {
            product_id: String::from("Ünïcödé ✓ 製品"),
            transaction_type: TransactionType::EndOfLife,
            previous_record: Some(Pubkey::new_from_array([0xFE; 32])),
            current_owner: Pubkey::new_from_array([0; 32]),
            next_owner: Some(Pubkey::new_from_array([9; 32])),
            timestamp: -1_700_000_000,
            metadata: String::new(),
        },
        ProductRecord {
            product_id: "x".repeat(70_000),
            transaction_type: TransactionType::Repair,
            previous_record: Some(Pubkey::new_from_array([3; 32])),
            current_owner: Pubkey::new_from_array([4; 32]),
            next_owner: None,
            timestamp: i64::MIN,
            metadata: "y".repeat(300),
        },
    ]
}

#[test]
fn record_encoding_is_what_borsh_writes_for_the_fields_in_order() {
    for record in records() {
        let expected = borsh::to_vec(&fields_of(&record)).unwrap();
        assert_eq!(record.encode(), Some(expected));
    }
}

#[test]
fn record_decoding_reads_what_borsh_wrote() {
    for record in records() {
        let bytes = borsh::to_vec(&fields_of(&record)).unwrap();
        assert_eq!(ProductRecord::decode(&bytes), Ok(record));
    }
}

#[test]
fn borsh_reads_back_what_record_encoding_wrote() {
    for record in records() {
        let bytes = record.encode().unwrap();
        let fields: RecordFields = borsh::from_slice(&bytes).unwrap();
        assert_eq!(fields, fields_of(&record));
    }
}

#[test]
fn request_encoding_is_what_borsh_writes_for_tag_and_fields() {
    let create = ProductInstruction::CreateProduct {
        product_id: String::from("SN-001"),
        metadata: String::from("batch-7"),
    };
    assert_eq!(
        create.encode().unwrap(),
        borsh::to_vec(&(0u8, String::from("SN-001"), String::from("batch-7"))).unwrap()
    );
    let transfer = ProductInstruction::TransferOwnership {
        next_owner: Pubkey::new_from_array([8; 32]),
    };
    assert_eq!(transfer.encode().unwrap(), borsh::to_vec(&(1u8, [8u8; 32])).unwrap());
    let repair = ProductInstruction::RecordRepair { metadata: String::from("screen replaced") };
    assert_eq!(
        repair.encode().unwrap(),
        borsh::to_vec(&(2u8, String::from("screen replaced"))).unwrap()
    );
    assert_eq!(ProductInstruction::MarkEndOfLife.encode().unwrap(), borsh::to_vec(&3u8).unwrap());
}
