//! Storage slots: fixed-capacity byte buffers, each named by an identity.
//!
//! A slot holds at most one record, stored at the front of its buffer; what
//! the buffer holds after the record's last byte is of no account. The
//! capacity of a slot is the length of its buffer and never changes. A slot
//! handle also says whether the party that the slot's identity names signed
//! the invocation at hand.

use vstd::prelude::*;
use crate::error::{CapacityError, DecodeError};
use crate::identity::Pubkey;
use crate::record::{lemma_read_record_written, read_record, ProductRecord, RecordView};

verus! {

/// A handle on one storage slot for the length of one invocation.
#[derive(Debug)]
pub struct Slot {
    /// The identity that names the slot.
    pub key: Pubkey,
    /// Whether the host found that this identity signed the invocation.
    pub is_signer: bool,
    /// The slot's buffer.
    pub data: Vec<u8>,
}

/// A slot handle as a mathematical value.
pub struct SlotView {
    pub key: Pubkey,
    pub is_signer: bool,
    pub data: Seq<u8>,
}

impl View for Slot {
    type V = SlotView;

    open spec fn view(&self) -> SlotView {
        SlotView { key: self.key, is_signer: self.is_signer, data: self.data@ }
    }
}

impl SlotView {
    /// The number of bytes that the slot can hold.
    pub open spec fn capacity(self) -> nat {
        self.data.len()
    }

    /// The record that the slot holds, if its buffer starts with the stored
    /// form of one.
    pub open spec fn record(self) -> Option<RecordView> {
        match read_record(self.data) {
            Some((record, _)) => Some(record),
            None => None,
        }
    }

    /// Whether `record` can be written to the slot: it has a stored form,
    /// and that form is no longer than the slot's capacity.
    pub open spec fn has_room_for(self, record: RecordView) -> bool {
        record.well_formed() && record.encoding().len() <= self.capacity()
    }

    /// The slot after `bytes` have been written over the front of its
    /// buffer. The rest of the buffer, the identity and the signer flag stay.
    pub open spec fn overwritten(self, bytes: Seq<u8>) -> SlotView {
        SlotView {
            key: self.key,
            is_signer: self.is_signer,
            data: bytes + self.data.skip(bytes.len() as int),
        }
    }

    /// The slot after `record` has been written to it.
    pub open spec fn storing(self, record: RecordView) -> SlotView {
        self.overwritten(record.encoding())
    }
}

/// A record that was written to a slot with room for it is what the slot
/// then holds, and the slot's capacity is what it was.
pub proof fn lemma_read_after_write(slot: SlotView, record: RecordView)
    requires
        slot.has_room_for(record),
    ensures
        slot.storing(record).record() == Some(record),
        slot.storing(record).capacity() == slot.capacity(),
{
    let after = slot.storing(record).data;
    assert(after.subrange(0, record.encoding().len() as int) =~= record.encoding());
    lemma_read_record_written(after, record);
}

impl Slot {
    /// A handle on the slot named `key` with the buffer `data`.
    pub fn new(key: Pubkey, is_signer: bool, data: Vec<u8>) -> (slot: Slot)
        ensures
            slot.key == key,
            slot.is_signer == is_signer,
            slot.data == data,
    {
        Slot { key, is_signer, data }
    }

    /// The number of bytes that the slot can hold.
    pub fn capacity(&self) -> (bytes: usize)
        ensures
            bytes == self@.capacity(),
    {
        self.data.len()
    }

    /// Decodes the record that the slot holds. Fails exactly where the
    /// slot's buffer does not start with the stored form of a record.
    pub fn read(&self) -> (out: Result<ProductRecord, DecodeError>)
        ensures
            match out {
                Ok(record) => self@.record() == Some(record@),
                Err(_) => self@.record() is None,
            },
    {
        match ProductRecord::decode_prefix(self.data.as_slice()) {
            Ok((record, _)) => Ok(record),
            Err(e) => Err(e),
        }
    }

    /// Writes `record` over the front of the slot's buffer. Fails, leaving
    /// the slot as it was, exactly where the slot has no room for the
    /// record; nothing is ever cut short.
    pub fn write(&mut self, record: &ProductRecord) -> (out: Result<(), CapacityError>)
        ensures
            out is Ok <==> old(self)@.has_room_for(record@),
            out is Ok ==> final(self)@ == old(self)@.storing(record@),
            out is Ok ==> final(self)@.record() == Some(record@),
            out is Err ==> *final(self) == *old(self),
    {
        let bytes = match record.encode() {
            Some(bytes) => bytes,
            None => { return Err(CapacityError); },
        };
        if bytes.len() > self.data.len() {
            return Err(CapacityError);
        }
        self.overwrite(&bytes);
        proof {
            lemma_read_after_write(old(self)@, record@);
        }
        Ok(())
    }

    /// Writes `bytes` over the front of the slot's buffer.
    pub(crate) fn overwrite(&mut self, bytes: &Vec<u8>)
        requires
            bytes@.len() <= old(self)@.capacity(),
        ensures
            final(self)@ == old(self)@.overwritten(bytes@),
    {
        let mut i: usize = 0;
        while i < bytes.len()
            invariant
                i <= bytes@.len() <= self.data@.len(),
                self.key == old(self).key,
                self.is_signer == old(self).is_signer,
                self.data@.len() == old(self).data@.len(),
                forall|j: int| 0 <= j < i ==> self.data@[j] == bytes@[j],
                forall|j: int| i <= j < self.data@.len() ==> self.data@[j] == old(self).data@[j],
            decreases bytes@.len() - i,
        {
            self.data[i] = bytes[i];
            i += 1;
        }
        assert(self.data@ =~= old(self)@.overwritten(bytes@).data);
    }
}

} // verus!
