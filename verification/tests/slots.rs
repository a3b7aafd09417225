use product_provenance::{CapacityError, DecodeError, ProductRecord, Pubkey, Slot, TransactionType};

fn key(fill: u8) -> Pubkey {
    Pubkey::new_from_array([fill; 32])
}

fn record() -> ProductRecord {
    ProductRecord {
        product_id: String::from("SN-001"),
        transaction_type: TransactionType::Manufacture,
        previous_record: None,
        current_owner: key(1),
        next_owner: None,
        timestamp: 42,
        metadata: String::from("batch-7"),
    }
}

#[test]
fn new_slot_keeps_what_it_was_given() {
    let slot = Slot::new(key(9), true, vec![1, 2, 3]);
    assert_eq!(slot.key, key(9));
    assert!(slot.is_signer);
    assert_eq!(slot.data, vec![1, 2, 3]);
    assert_eq!(slot.capacity(), 3);
}

#[test]
fn written_record_is_read_back() {
    let mut slot = Slot::new(key(9), false, vec![0xEE; 200]);
    assert_eq!(slot.write(&record()), Ok(()));
    assert_eq!(slot.read(), Ok(record()));
}

#[test]
fn write_fills_the_front_and_leaves_the_rest() {
    let bytes = record().encode().unwrap();
    let mut slot = Slot::new(key(9), false, vec![0xEE; 200]);
    slot.write(&record()).unwrap();
    assert_eq!(slot.capacity(), 200);
    assert_eq!(&slot.data[..bytes.len()], &bytes[..]);
    assert!(slot.data[bytes.len()..].iter().all(|b| *b == 0xEE));
    assert_eq!(slot.key, key(9));
    assert!(!slot.is_signer);
}

#[test]
fn record_that_fits_exactly_is_written() {
    let bytes = record().encode().unwrap();
    let mut slot = Slot::new(key(9), false, vec![0; bytes.len()]);
    assert_eq!(slot.write(&record()), Ok(()));
    assert_eq!(slot.data, bytes);
}

#[test]
fn record_one_byte_too_long_is_refused_and_nothing_is_written() {
    let bytes = record().encode().unwrap();
    let before = vec![0x5A; bytes.len() - 1];
    let mut slot = Slot::new(key(9), true, before.clone());
    assert_eq!(slot.write(&record()), Err(CapacityError));
    assert_eq!(slot.data, before);
    assert_eq!(slot.key, key(9));
    assert!(slot.is_signer);
}

#[test]
fn slot_without_capacity_holds_nothing() {
    let mut slot = Slot::new(key(9), true, Vec::new());
    assert_eq!(slot.write(&record()), Err(CapacityError));
    assert_eq!(slot.read(), Err(DecodeError));
    assert_eq!(slot.capacity(), 0);
}

#[test]
fn second_write_replaces_the_first() {
    let mut slot = Slot::new(key(9), false, vec![0; 300]);
    let mut long = record();
    long.metadata = "m".repeat(100);
    slot.write(&long).unwrap();
    slot.write(&record()).unwrap();
    assert_eq!(slot.read(), Ok(record()));
}

#[test]
fn slot_that_holds_no_record_is_refused_on_read() {
    let slot = Slot::new(key(9), false, vec![0xFF; 100]);
    assert_eq!(slot.read(), Err(DecodeError));
    let short = Slot::new(key(9), false, vec![0; 50]);
    assert_eq!(short.read(), Err(DecodeError));
}

#[test]
fn read_leaves_the_slot_alone() {
    let mut slot = Slot::new(key(9), false, vec![7; 120]);
    slot.write(&record()).unwrap();
    let before = slot.data.clone();
    slot.read().unwrap();
    slot.read().unwrap();
    assert_eq!(slot.data, before);
}
