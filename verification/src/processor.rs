//! The instruction processor: one invocation, from request bytes to slots.
//!
//! An invocation names its slots by position. Creating a product takes the
//! new slot and the manufacturer; the other three operations take the slot
//! of the product's latest record, the owner, and a fresh slot for the
//! record that the operation adds. Every check is made before the first
//! byte is written, so an invocation that is refused leaves every slot as
//! it was.

use vstd::prelude::*;
use vstd::utf8::{encode_utf8, is_ascii_chars, is_ascii_chars_encode_utf8};
use crate::auth::{authorize, require_signature};
use crate::error::ProcessingError;
use crate::identity::Pubkey;
use crate::instruction::{instruction_of, InstructionView, ProductInstruction};
use crate::record::{ProductRecord, RecordView, TransactionType};
use crate::slot::{lemma_read_after_write, Slot, SlotView};
use crate::text::text_fits;

verus! {

/// The slot handles of an invocation as mathematical values.
pub open spec fn slot_views(slots: Seq<Slot>) -> Seq<SlotView> {
    Seq::new(slots.len(), |i: int| slots[i]@)
}

/// The metadata of every end-of-life record.
pub open spec fn end_of_life_note() -> Seq<char> {
    "Product marked as end-of-life"@
}

/// The fixed note is plain ASCII, 29 bytes long, and so always has a stored
/// form.
pub proof fn lemma_end_of_life_note_fits()
    ensures
        encode_utf8(end_of_life_note()).len() == 29,
        text_fits(end_of_life_note()),
{
    reveal_strlit("Product marked as end-of-life");
    let note = end_of_life_note();
    assert(is_ascii_chars(note));
    is_ascii_chars_encode_utf8(note);
}

/// The first record of a product's chain.
pub open spec fn manufacture_record(
    manufacturer: Pubkey,
    product_id: Seq<char>,
    metadata: Seq<char>,
    now: i64,
) -> RecordView {
    RecordView {
        product_id,
        transaction_type: TransactionType::Manufacture,
        previous_record: None,
        current_owner: manufacturer,
        next_owner: None,
        timestamp: now,
        metadata,
    }
}

/// The record `prior` once the product has been handed to `next_owner`:
/// the same in every field but `next_owner`.
pub open spec fn handed_over(prior: RecordView, next_owner: Pubkey) -> RecordView {
    RecordView { next_owner: Some(next_owner), ..prior }
}

/// The record that follows `prior`, stored in the slot `prior_slot`, when
/// the product is handed to `next_owner`.
pub open spec fn transfer_record(
    prior: RecordView,
    prior_slot: Pubkey,
    next_owner: Pubkey,
    now: i64,
) -> RecordView {
    RecordView {
        product_id: prior.product_id,
        transaction_type: TransactionType::Transfer,
        previous_record: Some(prior_slot),
        current_owner: next_owner,
        next_owner: None,
        timestamp: now,
        metadata: Seq::empty(),
    }
}

/// The record that follows `prior`, stored in the slot `prior_slot`, when
/// a repair is noted.
pub open spec fn repair_record(
    prior: RecordView,
    prior_slot: Pubkey,
    metadata: Seq<char>,
    now: i64,
) -> RecordView {
    RecordView {
        product_id: prior.product_id,
        transaction_type: TransactionType::Repair,
        previous_record: Some(prior_slot),
        current_owner: prior.current_owner,
        next_owner: None,
        timestamp: now,
        metadata,
    }
}

/// The record that follows `prior`, stored in the slot `prior_slot`, when
/// the product is retired.
pub open spec fn end_of_life_record(prior: RecordView, prior_slot: Pubkey, now: i64) -> RecordView {
    RecordView {
        product_id: prior.product_id,
        transaction_type: TransactionType::EndOfLife,
        previous_record: Some(prior_slot),
        current_owner: prior.current_owner,
        next_owner: None,
        timestamp: now,
        metadata: end_of_life_note(),
    }
}

/// The record on which the owner may act: the one held by the first slot,
/// if three slots were supplied, the second signed, and its identity is the
/// record's current owner. Otherwise the reason for refusal; where several
/// apply, the first of: too few slots, no signature, no record, wrong owner.
pub open spec fn owned_record(slots: Seq<SlotView>) -> Result<RecordView, ProcessingError> {
    if slots.len() < 3 {
        Err(ProcessingError::MissingSlot)
    } else if !slots[1].is_signer {
        Err(ProcessingError::MissingSignature)
    } else {
        match slots[0].record() {
            None => Err(ProcessingError::MalformedRecord),
            Some(prior) => if prior.current_owner != slots[1].key {
                Err(ProcessingError::NotAuthorized)
            } else {
                Ok(prior)
            },
        }
    }
}

/// What creating a product does to the slots `[new slot, manufacturer]`.
pub open spec fn create_outcome(
    slots: Seq<SlotView>,
    product_id: Seq<char>,
    metadata: Seq<char>,
    now: i64,
) -> Result<Seq<SlotView>, ProcessingError> {
    if slots.len() < 2 {
        Err(ProcessingError::MissingSlot)
    } else if !slots[1].is_signer {
        Err(ProcessingError::MissingSignature)
    } else {
        let record = manufacture_record(slots[1].key, product_id, metadata, now);
        if !slots[0].has_room_for(record) {
            Err(ProcessingError::CapacityExceeded)
        } else {
            Ok(slots.update(0, slots[0].storing(record)))
        }
    }
}

/// What a transfer to `next_owner` does to the slots
/// `[old slot, current owner, new slot]`.
pub open spec fn transfer_outcome(slots: Seq<SlotView>, next_owner: Pubkey, now: i64) -> Result<
    Seq<SlotView>,
    ProcessingError,
> {
    match owned_record(slots) {
        Err(e) => Err(e),
        Ok(prior) => {
            let stamped = handed_over(prior, next_owner);
            let successor = transfer_record(prior, slots[0].key, next_owner, now);
            if !slots[0].has_room_for(stamped) || !slots[2].has_room_for(successor) {
                Err(ProcessingError::CapacityExceeded)
            } else {
                Ok(
                    slots.update(0, slots[0].storing(stamped)).update(
                        2,
                        slots[2].storing(successor),
                    ),
                )
            }
        },
    }
}

/// What noting a repair does to the slots
/// `[product slot, owner, repair-record slot]`.
pub open spec fn repair_outcome(slots: Seq<SlotView>, metadata: Seq<char>, now: i64) -> Result<
    Seq<SlotView>,
    ProcessingError,
> {
    match owned_record(slots) {
        Err(e) => Err(e),
        Ok(prior) => {
            let record = repair_record(prior, slots[0].key, metadata, now);
            if !slots[2].has_room_for(record) {
                Err(ProcessingError::CapacityExceeded)
            } else {
                Ok(slots.update(2, slots[2].storing(record)))
            }
        },
    }
}

/// What retiring a product does to the slots
/// `[product slot, owner, end-of-life-record slot]`.
pub open spec fn end_of_life_outcome(slots: Seq<SlotView>, now: i64) -> Result<
    Seq<SlotView>,
    ProcessingError,
> {
    match owned_record(slots) {
        Err(e) => Err(e),
        Ok(prior) => {
            let record = end_of_life_record(prior, slots[0].key, now);
            if !slots[2].has_room_for(record) {
                Err(ProcessingError::CapacityExceeded)
            } else {
                Ok(slots.update(2, slots[2].storing(record)))
            }
        },
    }
}

/// What a decoded request does to the slots.
pub open spec fn request_outcome(slots: Seq<SlotView>, request: InstructionView, now: i64) -> Result<
    Seq<SlotView>,
    ProcessingError,
> {
    match request {
        InstructionView::CreateProduct { product_id, metadata } => {
            create_outcome(slots, product_id, metadata, now)
        },
        InstructionView::TransferOwnership { next_owner } => {
            transfer_outcome(slots, next_owner, now)
        },
        InstructionView::RecordRepair { metadata } => repair_outcome(slots, metadata, now),
        InstructionView::MarkEndOfLife => end_of_life_outcome(slots, now),
    }
}

/// What an invocation with the request bytes `data` does to the slots.
pub open spec fn invocation_outcome(slots: Seq<SlotView>, data: Seq<u8>, now: i64) -> Result<
    Seq<SlotView>,
    ProcessingError,
> {
    match instruction_of(data) {
        None => Err(ProcessingError::InvalidRequest),
        Some(request) => request_outcome(slots, request, now),
    }
}

/// Whether an invocation that found the slots as `before`, left them as
/// `after` and returned `out` did what `outcome` says: on success the slots
/// are those of the outcome, and on refusal the error is that of the
/// outcome and no slot was touched.
pub open spec fn carried_out(
    outcome: Result<Seq<SlotView>, ProcessingError>,
    before: Seq<Slot>,
    after: Seq<Slot>,
    out: Result<(), ProcessingError>,
) -> bool {
    match outcome {
        Ok(slots) => out is Ok && slot_views(after) == slots,
        Err(e) => out == Err::<(), ProcessingError>(e) && after == before,
    }
}

/// An invocation that succeeds changes no slot's identity, signer flag or
/// capacity, and neither adds nor removes a slot.
pub proof fn lemma_slots_stay_in_place(slots: Seq<SlotView>, data: Seq<u8>, now: i64)
    requires
        invocation_outcome(slots, data, now) is Ok,
    ensures
        invocation_outcome(slots, data, now).unwrap().len() == slots.len(),
        forall|i: int|
            0 <= i < slots.len() ==> {
                let after = #[trigger] invocation_outcome(slots, data, now).unwrap()[i];
                &&& after.key == slots[i].key
                &&& after.is_signer == slots[i].is_signer
                &&& after.capacity() == slots[i].capacity()
            },
{
    let after = invocation_outcome(slots, data, now).unwrap();
    match instruction_of(data).unwrap() {
        InstructionView::CreateProduct { product_id, metadata } => {
            lemma_read_after_write(
                slots[0],
                manufacture_record(slots[1].key, product_id, metadata, now),
            );
        },
        InstructionView::TransferOwnership { next_owner } => {
            let prior = owned_record(slots).unwrap();
            lemma_read_after_write(slots[0], handed_over(prior, next_owner));
            lemma_read_after_write(
                slots[2],
                transfer_record(prior, slots[0].key, next_owner, now),
            );
        },
        InstructionView::RecordRepair { metadata } => {
            let prior = owned_record(slots).unwrap();
            lemma_read_after_write(slots[2], repair_record(prior, slots[0].key, metadata, now));
        },
        InstructionView::MarkEndOfLife => {
            let prior = owned_record(slots).unwrap();
            lemma_read_after_write(slots[2], end_of_life_record(prior, slots[0].key, now));
        },
    }
}

/// After a product has been created, the new slot holds a manufacture
/// record that is owned by the manufacturer, who signed, and has no
/// predecessor; the record carries the product identifier and the metadata
/// of the request and the time of the invocation. No other slot changed.
pub proof fn lemma_created_record(
    slots: Seq<SlotView>,
    product_id: Seq<char>,
    metadata: Seq<char>,
    now: i64,
)
    requires
        create_outcome(slots, product_id, metadata, now) is Ok,
    ensures
        slots[1].is_signer,
        ({
            let after = create_outcome(slots, product_id, metadata, now).unwrap();
            &&& after[0].record() == Some(
                manufacture_record(slots[1].key, product_id, metadata, now),
            )
            &&& after[0].record().unwrap().current_owner == slots[1].key
            &&& after[0].record().unwrap().previous_record == None::<Pubkey>
            &&& after[0].record().unwrap().transaction_type == TransactionType::Manufacture
            &&& forall|i: int| 1 <= i < slots.len() ==> after[i] == slots[i]
        }),
{
    lemma_read_after_write(slots[0], manufacture_record(slots[1].key, product_id, metadata, now));
}

/// A transfer, a repair and a retirement are refused with `NotAuthorized`
/// where three slots were supplied, the second signed, and the first holds
/// a record whose current owner is not the signer.
pub proof fn lemma_wrong_owner_refused(slots: Seq<SlotView>, data: Seq<u8>, now: i64)
    requires
        instruction_of(data) is Some,
        !(instruction_of(data).unwrap() is CreateProduct),
        slots.len() >= 3,
        slots[1].is_signer,
        slots[0].record() is Some,
        slots[0].record().unwrap().current_owner != slots[1].key,
    ensures
        invocation_outcome(slots, data, now) == Err::<Seq<SlotView>, ProcessingError>(
            ProcessingError::NotAuthorized,
        ),
{
}

/// Every operation is refused with `MissingSignature` where the slots it
/// needs were supplied and the second did not sign, whether or not its
/// identity is the owner that a stored record names.
pub proof fn lemma_unsigned_refused(slots: Seq<SlotView>, data: Seq<u8>, now: i64)
    requires
        instruction_of(data) is Some,
        slots.len() >= 3 || (slots.len() == 2 && instruction_of(data).unwrap() is CreateProduct),
        !slots[1].is_signer,
    ensures
        invocation_outcome(slots, data, now) == Err::<Seq<SlotView>, ProcessingError>(
            ProcessingError::MissingSignature,
        ),
{
}

/// After a transfer to `next_owner`, the old slot holds the record it held
/// before with `next_owner` as its next owner and nothing else changed, and
/// the new slot holds a transfer record that is owned by `next_owner` and
/// linked to the old slot. The signer was the old record's owner.
pub proof fn lemma_transfer_links(slots: Seq<SlotView>, next_owner: Pubkey, now: i64)
    requires
        transfer_outcome(slots, next_owner, now) is Ok,
    ensures
        slots[0].record() is Some,
        slots[0].record().unwrap().current_owner == slots[1].key,
        ({
            let prior = slots[0].record().unwrap();
            let after = transfer_outcome(slots, next_owner, now).unwrap();
            &&& after[0].record() == Some(handed_over(prior, next_owner))
            &&& after[0].record().unwrap().next_owner == Some(next_owner)
            &&& after[0].record().unwrap().previous_record == prior.previous_record
            &&& after[2].record() == Some(transfer_record(prior, slots[0].key, next_owner, now))
            &&& after[2].record().unwrap().current_owner == next_owner
            &&& after[2].record().unwrap().previous_record == Some(slots[0].key)
            &&& after[1] == slots[1]
        }),
{
    let prior = slots[0].record().unwrap();
    lemma_read_after_write(slots[0], handed_over(prior, next_owner));
    lemma_read_after_write(slots[2], transfer_record(prior, slots[0].key, next_owner, now));
}

/// After a repair has been noted, the third slot holds a repair record
/// with the owner of the product's record and a link to the product slot;
/// the product slot itself is untouched.
pub proof fn lemma_repair_appends(slots: Seq<SlotView>, metadata: Seq<char>, now: i64)
    requires
        repair_outcome(slots, metadata, now) is Ok,
    ensures
        slots[0].record() is Some,
        slots[0].record().unwrap().current_owner == slots[1].key,
        ({
            let prior = slots[0].record().unwrap();
            let after = repair_outcome(slots, metadata, now).unwrap();
            &&& after[2].record() == Some(repair_record(prior, slots[0].key, metadata, now))
            &&& after[0] == slots[0]
            &&& after[1] == slots[1]
        }),
{
    let prior = slots[0].record().unwrap();
    lemma_read_after_write(slots[2], repair_record(prior, slots[0].key, metadata, now));
}

/// After a product has been retired, the third slot holds an end-of-life
/// record with the owner of the product's record, the fixed note and a link
/// to the product slot; the product slot itself is untouched.
pub proof fn lemma_end_of_life_appends(slots: Seq<SlotView>, now: i64)
    requires
        end_of_life_outcome(slots, now) is Ok,
    ensures
        slots[0].record() is Some,
        slots[0].record().unwrap().current_owner == slots[1].key,
        ({
            let prior = slots[0].record().unwrap();
            let after = end_of_life_outcome(slots, now).unwrap();
            &&& after[2].record() == Some(end_of_life_record(prior, slots[0].key, now))
            &&& after[0] == slots[0]
            &&& after[1] == slots[1]
        }),
{
    let prior = slots[0].record().unwrap();
    lemma_read_after_write(slots[2], end_of_life_record(prior, slots[0].key, now));
}

/// Finds the record on which the owner may act, as `owned_record` says.
fn read_owned_record(accounts: &[Slot]) -> (out: Result<ProductRecord, ProcessingError>)
    ensures
        match out {
            Ok(prior) => owned_record(slot_views(accounts@)) == Ok::<RecordView, ProcessingError>(
                prior@,
            ),
            Err(e) => owned_record(slot_views(accounts@)) == Err::<RecordView, ProcessingError>(e),
        },
{
    if accounts.len() < 3 {
        return Err(ProcessingError::MissingSlot);
    }
    match require_signature(accounts[1].is_signer) {
        Err(e) => { return Err(ProcessingError::from(e)); },
        Ok(()) => {},
    }
    let prior = match accounts[0].read() {
        Ok(prior) => prior,
        Err(_) => { return Err(ProcessingError::MalformedRecord); },
    };
    match authorize(accounts[1].is_signer, &accounts[1].key, &prior.current_owner) {
        Err(e) => Err(ProcessingError::from(e)),
        Ok(()) => Ok(prior),
    }
}

/// Starts the chain of a new product: writes its first record, owned by
/// the manufacturer, to the new slot. The slots are
/// `[new slot, manufacturer]`; the manufacturer must have signed.
pub fn create_product(
    _program_id: &Pubkey,
    accounts: &mut [Slot],
    product_id: String,
    metadata: String,
    now: i64,
) -> (out: Result<(), ProcessingError>)
    ensures
        carried_out(
            create_outcome(slot_views(old(accounts)@), product_id@, metadata@, now),
            old(accounts)@,
            final(accounts)@,
            out,
        ),
{
    if accounts.len() < 2 {
        return Err(ProcessingError::MissingSlot);
    }
    match require_signature(accounts[1].is_signer) {
        Err(e) => { return Err(ProcessingError::from(e)); },
        Ok(()) => {},
    }
    let record = ProductRecord {
        product_id,
        transaction_type: TransactionType::Manufacture,
        previous_record: None,
        current_owner: accounts[1].key,
        next_owner: None,
        timestamp: now,
        metadata,
    };
    match accounts[0].write(&record) {
        Ok(()) => {
            assert(slot_views(accounts@) =~= slot_views(old(accounts)@).update(
                0,
                old(accounts)@[0]@.storing(record@),
            ));
            Ok(())
        },
        Err(_) => {
            assert(accounts@ =~= old(accounts)@);
            Err(ProcessingError::CapacityExceeded)
        },
    }
}

/// Hands the product to `next_owner`: stamps the old record with the next
/// owner and writes the successor record, owned by `next_owner` and linked
/// to the old slot, to the new slot. The slots are
/// `[old slot, current owner, new slot]`; the current owner must have
/// signed and be the owner that the old record names.
pub fn transfer_ownership(
    _program_id: &Pubkey,
    accounts: &mut [Slot],
    next_owner: Pubkey,
    now: i64,
) -> (out: Result<(), ProcessingError>)
    ensures
        carried_out(
            transfer_outcome(slot_views(old(accounts)@), next_owner, now),
            old(accounts)@,
            final(accounts)@,
            out,
        ),
{
    let prior = match read_owned_record(accounts) {
        Ok(prior) => prior,
        Err(e) => { return Err(e); },
    };
    let successor = ProductRecord {
        product_id: prior.product_id.clone(),
        transaction_type: TransactionType::Transfer,
        previous_record: Some(accounts[0].key),
        current_owner: next_owner,
        next_owner: None,
        timestamp: now,
        metadata: String::new(),
    };
    let mut stamped = prior;
    stamped.next_owner = Some(next_owner);
    let stamped_bytes = match stamped.encode() {
        Some(bytes) => bytes,
        None => { return Err(ProcessingError::CapacityExceeded); },
    };
    let successor_bytes = match successor.encode() {
        Some(bytes) => bytes,
        None => { return Err(ProcessingError::CapacityExceeded); },
    };
    if stamped_bytes.len() > accounts[0].capacity() || successor_bytes.len()
        > accounts[2].capacity() {
        return Err(ProcessingError::CapacityExceeded);
    }
    accounts[0].overwrite(&stamped_bytes);
    accounts[2].overwrite(&successor_bytes);
    assert(slot_views(accounts@) =~= slot_views(old(accounts)@).update(
        0,
        old(accounts)@[0]@.storing(stamped@),
    ).update(2, old(accounts)@[2]@.storing(successor@)));
    Ok(())
}

/// Writes `record`, which follows the record of the first slot, to the
/// third slot, or refuses where it has no room there.
fn append_record(accounts: &mut [Slot], record: &ProductRecord) -> (out: Result<
    (),
    ProcessingError,
>)
    requires
        old(accounts)@.len() >= 3,
    ensures
        carried_out(
            if slot_views(old(accounts)@)[2].has_room_for(record@) {
                Ok::<Seq<SlotView>, ProcessingError>(
                    slot_views(old(accounts)@).update(
                        2,
                        slot_views(old(accounts)@)[2].storing(record@),
                    ),
                )
            } else {
                Err::<Seq<SlotView>, ProcessingError>(ProcessingError::CapacityExceeded)
            },
            old(accounts)@,
            final(accounts)@,
            out,
        ),
{
    match accounts[2].write(record) {
        Ok(()) => {
            assert(slot_views(accounts@) =~= slot_views(old(accounts)@).update(
                2,
                old(accounts)@[2]@.storing(record@),
            ));
            Ok(())
        },
        Err(_) => {
            assert(accounts@ =~= old(accounts)@);
            Err(ProcessingError::CapacityExceeded)
        },
    }
}

/// Notes a repair: writes a repair record, with `metadata` as its notes,
/// the owner unchanged and a link to the product slot, to the
/// repair-record slot. The slots are
/// `[product slot, owner, repair-record slot]`; the owner must have signed
/// and be the owner that the product's record names.
pub fn record_repair(
    _program_id: &Pubkey,
    accounts: &mut [Slot],
    metadata: String,
    now: i64,
) -> (out: Result<(), ProcessingError>)
    ensures
        carried_out(
            repair_outcome(slot_views(old(accounts)@), metadata@, now),
            old(accounts)@,
            final(accounts)@,
            out,
        ),
{
    let prior = match read_owned_record(accounts) {
        Ok(prior) => prior,
        Err(e) => { return Err(e); },
    };
    let record = ProductRecord {
        product_id: prior.product_id,
        transaction_type: TransactionType::Repair,
        previous_record: Some(accounts[0].key),
        current_owner: prior.current_owner,
        next_owner: None,
        timestamp: now,
        metadata,
    };
    append_record(accounts, &record)
}

/// Retires the product: writes an end-of-life record, with the fixed note
/// as its metadata, the owner unchanged and a link to the product slot, to
/// the end-of-life-record slot. The slots are
/// `[product slot, owner, end-of-life-record slot]`; the owner must have
/// signed and be the owner that the product's record names.
pub fn mark_end_of_life(_program_id: &Pubkey, accounts: &mut [Slot], now: i64) -> (out: Result<
    (),
    ProcessingError,
>)
    ensures
        carried_out(
            end_of_life_outcome(slot_views(old(accounts)@), now),
            old(accounts)@,
            final(accounts)@,
            out,
        ),
{
    let prior = match read_owned_record(accounts) {
        Ok(prior) => prior,
        Err(e) => { return Err(e); },
    };
    let record = ProductRecord {
        product_id: prior.product_id,
        transaction_type: TransactionType::EndOfLife,
        previous_record: Some(accounts[0].key),
        current_owner: prior.current_owner,
        next_owner: None,
        timestamp: now,
        metadata: "Product marked as end-of-life".to_owned(),
    };
    append_record(accounts, &record)
}

/// Processes one invocation: decodes the request in `instruction_data` and
/// carries it out on the slots `accounts`, which are passed on in the order
/// given, with `now` as the host clock's time for any record written.
/// Bytes that are not the encoded form of a request are refused with
/// `InvalidRequest`. A refused invocation leaves every slot as it was.
pub fn process_instruction(
    program_id: &Pubkey,
    accounts: &mut [Slot],
    instruction_data: &[u8],
    now: i64,
) -> (out: Result<(), ProcessingError>)
    ensures
        carried_out(
            invocation_outcome(slot_views(old(accounts)@), instruction_data@, now),
            old(accounts)@,
            final(accounts)@,
            out,
        ),
{
    let instruction = match ProductInstruction::decode(instruction_data) {
        Ok(instruction) => instruction,
        Err(_) => { return Err(ProcessingError::InvalidRequest); },
    };
    match instruction {
        ProductInstruction::CreateProduct { product_id, metadata } => {
            create_product(program_id, accounts, product_id, metadata, now)
        },
        ProductInstruction::TransferOwnership { next_owner } => {
            transfer_ownership(program_id, accounts, next_owner, now)
        },
        ProductInstruction::RecordRepair { metadata } => {
            record_repair(program_id, accounts, metadata, now)
        },
        ProductInstruction::MarkEndOfLife => mark_end_of_life(program_id, accounts, now),
    }
}

} // verus!
