//! Provenance records and their stored form.
//!
//! A record is stored as its fields in declared order:
//!
//! | field              | stored as                                           |
//! |--------------------|-----------------------------------------------------|
//! | `product_id`       | text: four-byte count, then that many UTF-8 bytes   |
//! | `transaction_type` | one tag byte, 0 to 3 in declaration order           |
//! | `previous_record`  | one presence byte, then 32 bytes where it is 1      |
//! | `current_owner`    | 32 bytes                                            |
//! | `next_owner`       | one presence byte, then 32 bytes where it is 1      |
//! | `timestamp`        | eight bytes, two's complement                       |
//! | `metadata`         | text                                                |
//!
//! Counts and the timestamp are little-endian. The shortest record takes 51
//! bytes. Decoding is the exact inverse of encoding, so anyone who holds the
//! bytes of a slot can replay a chain without this library.

use vstd::prelude::*;
use crate::error::DecodeError;
use crate::identity::Pubkey;
use crate::text::{put_text, read_text, take_text, text_bytes, text_fits};
use crate::text::{lemma_read_text_sound, lemma_read_text_written};
use crate::wire::{i64_word, opt_key_bytes, read_key, read_opt_key, read_time, time_bytes};
use crate::wire::lemma_le_bytes_len;
use crate::wire::{lemma_read_key_sound, lemma_read_key_written};
use crate::wire::{lemma_read_opt_key_sound, lemma_read_opt_key_written};
use crate::wire::{lemma_read_time_sound, lemma_read_time_written};
use crate::wire::{put_key, put_opt_key, put_time, take_key, take_opt_key, take_time};

verus! {

/// Which lifecycle event produced a record.
#[derive(Debug, Clone, Copy, PartialEq, Eq, Structural)]
pub enum TransactionType {
    Manufacture,
    Repair,
    Transfer,
    EndOfLife,
}

/// One link of a product's chain of custody, as held in one storage slot.
#[derive(Debug)]
pub struct ProductRecord {
    /// The serial that the manufacturer gave the product.
    pub product_id: String,
    /// The lifecycle event that produced this record.
    pub transaction_type: TransactionType,
    /// The slot of the record before this one; `None` for the first record.
    pub previous_record: Option<Pubkey>,
    /// The party that may act on this record next.
    pub current_owner: Pubkey,
    /// The party that the product was handed to, once it has been.
    pub next_owner: Option<Pubkey>,
    /// Seconds on the host clock when the record was written.
    pub timestamp: i64,
    /// Free-form notes: repair details, the reason for retirement.
    pub metadata: String,
}

/// A record as a mathematical value: texts as character sequences.
pub struct RecordView {
    pub product_id: Seq<char>,
    pub transaction_type: TransactionType,
    pub previous_record: Option<Pubkey>,
    pub current_owner: Pubkey,
    pub next_owner: Option<Pubkey>,
    pub timestamp: i64,
    pub metadata: Seq<char>,
}

impl View for ProductRecord {
    type V = RecordView;

    open spec fn view(&self) -> RecordView {
        RecordView {
            product_id: self.product_id@,
            transaction_type: self.transaction_type,
            previous_record: self.previous_record,
            current_owner: self.current_owner,
            next_owner: self.next_owner,
            timestamp: self.timestamp,
            metadata: self.metadata@,
        }
    }
}

/// The tag byte of a transaction type: its place in the declaration.
pub open spec fn kind_tag(kind: TransactionType) -> u8 {
    match kind {
        TransactionType::Manufacture => 0,
        TransactionType::Repair => 1,
        TransactionType::Transfer => 2,
        TransactionType::EndOfLife => 3,
    }
}

/// The transaction type that a tag byte stands for. A tag above 3 names no
/// type.
pub open spec fn kind_of_tag(tag: u8) -> Option<TransactionType> {
    if tag == 0 {
        Some(TransactionType::Manufacture)
    } else if tag == 1 {
        Some(TransactionType::Repair)
    } else if tag == 2 {
        Some(TransactionType::Transfer)
    } else if tag == 3 {
        Some(TransactionType::EndOfLife)
    } else {
        None
    }
}

/// Reads the transaction type stored in the byte of `bytes` at `at`.
pub open spec fn read_kind(bytes: Seq<u8>, at: int) -> Option<(TransactionType, int)> {
    if 0 <= at < bytes.len() {
        match kind_of_tag(bytes[at]) {
            Some(kind) => Some((kind, at + 1)),
            None => None,
        }
    } else {
        None
    }
}

impl RecordView {
    /// Whether the record has a stored form: both of its texts fit.
    pub open spec fn well_formed(self) -> bool {
        text_fits(self.product_id) && text_fits(self.metadata)
    }

    /// The stored form of the record.
    pub open spec fn encoding(self) -> Seq<u8> {
        text_bytes(self.product_id) + seq![kind_tag(self.transaction_type)] + opt_key_bytes(
            self.previous_record,
        ) + self.current_owner@ + opt_key_bytes(self.next_owner) + time_bytes(self.timestamp)
            + text_bytes(self.metadata)
    }
}

/// Reads the record stored at the front of `bytes`: the record and the
/// number of bytes it takes up, or `None` where `bytes` does not start with
/// the stored form of a record. Bytes after the record are not looked at.
pub open spec fn read_record(bytes: Seq<u8>) -> Option<(RecordView, int)> {
    match read_text(bytes, 0) {
        Some((product_id, a)) => match read_kind(bytes, a) {
            Some((transaction_type, b)) => match read_opt_key(bytes, b) {
                Some((previous_record, c)) => match read_key(bytes, c) {
                    Some((current_owner, d)) => match read_opt_key(bytes, d) {
                        Some((next_owner, e)) => match read_time(bytes, e) {
                            Some((timestamp, f)) => match read_text(bytes, f) {
                                Some((metadata, end)) => Some(
                                    (
                                        RecordView {
                                            product_id,
                                            transaction_type,
                                            previous_record,
                                            current_owner,
                                            next_owner,
                                            timestamp,
                                            metadata,
                                        },
                                        end,
                                    ),
                                ),
                                None => None,
                            },
                            None => None,
                        },
                        None => None,
                    },
                    None => None,
                },
                None => None,
            },
            None => None,
        },
        None => None,
    }
}

/// The record of which the whole of `bytes` is the stored form, if there is
/// one.
pub open spec fn record_of(bytes: Seq<u8>) -> Option<RecordView> {
    match read_record(bytes) {
        Some((record, end)) => if end == bytes.len() {
            Some(record)
        } else {
            None
        },
        None => None,
    }
}

/// Where a stretch of `bytes` is `front + back`, its first part is `front`
/// and the part after that is `back`.
proof fn lemma_split_stretch(bytes: Seq<u8>, at: int, front: Seq<u8>, back: Seq<u8>)
    requires
        0 <= at,
        at + front.len() + back.len() <= bytes.len(),
        bytes.subrange(at, at + front.len() + back.len()) == front + back,
    ensures
        bytes.subrange(at, at + front.len()) == front,
        bytes.subrange(at + front.len(), at + front.len() + back.len()) == back,
{
    let whole = bytes.subrange(at, at + front.len() + back.len());
    assert(bytes.subrange(at + front.len(), at + front.len() + back.len()) =~= whole.subrange(
        front.len() as int,
        (front.len() + back.len()) as int,
    ));
}

/// A record that has a stored form is read back from any byte sequence that
/// starts with that form, whatever follows it.
pub proof fn lemma_read_record_written(bytes: Seq<u8>, record: RecordView)
    requires
        record.well_formed(),
        record.encoding().len() <= bytes.len(),
        bytes.subrange(0, record.encoding().len() as int) == record.encoding(),
    ensures
        read_record(bytes) == Some((record, record.encoding().len() as int)),
{
    let id = text_bytes(record.product_id);
    let tag = seq![kind_tag(record.transaction_type)];
    let prev = opt_key_bytes(record.previous_record);
    let owner = record.current_owner@;
    let next = opt_key_bytes(record.next_owner);
    let time = time_bytes(record.timestamp);
    let meta = text_bytes(record.metadata);
    let a = id.len() as int;
    let b = a + 1;
    let c = b + prev.len();
    let d = c + 32;
    let e = d + next.len();
    let f = e + time.len();
    let end = f + meta.len();
    lemma_split_stretch(bytes, 0, id + tag + prev + owner + next + time, meta);
    lemma_split_stretch(bytes, 0, id + tag + prev + owner + next, time);
    lemma_split_stretch(bytes, 0, id + tag + prev + owner, next);
    lemma_split_stretch(bytes, 0, id + tag + prev, owner);
    lemma_split_stretch(bytes, 0, id + tag, prev);
    lemma_split_stretch(bytes, 0, id, tag);
    assert(read_text(bytes, 0) == Some((record.product_id, a))) by {
        lemma_read_text_written(bytes, 0, record.product_id);
    }
    assert(read_kind(bytes, a) == Some((record.transaction_type, b))) by {
        assert(bytes.subrange(a, b)[0] == bytes[a]);
    }
    assert(read_opt_key(bytes, b) == Some((record.previous_record, c))) by {
        lemma_read_opt_key_written(bytes, b, record.previous_record);
    }
    assert(read_key(bytes, c) == Some((record.current_owner, d))) by {
        lemma_read_key_written(bytes, c, record.current_owner);
    }
    assert(read_opt_key(bytes, d) == Some((record.next_owner, e))) by {
        lemma_read_opt_key_written(bytes, d, record.next_owner);
    }
    assert(read_time(bytes, e) == Some((record.timestamp, f))) by {
        lemma_le_bytes_len(i64_word(record.timestamp), 8);
        lemma_read_time_written(bytes, e, record.timestamp);
    }
    assert(read_text(bytes, f) == Some((record.metadata, end))) by {
        lemma_read_text_written(bytes, f, record.metadata);
    }
}

/// What `read_record` yields is a record that has a stored form, and the
/// bytes it passed over are that form.
pub proof fn lemma_read_record_sound(bytes: Seq<u8>)
    requires
        read_record(bytes) is Some,
    ensures
        read_record(bytes).unwrap().0.well_formed(),
        0 <= read_record(bytes).unwrap().1 <= bytes.len(),
        bytes.subrange(0, read_record(bytes).unwrap().1) == read_record(
            bytes,
        ).unwrap().0.encoding(),
{
    let (record, end) = read_record(bytes).unwrap();
    let a = read_text(bytes, 0).unwrap().1;
    let b = read_kind(bytes, a).unwrap().1;
    let c = read_opt_key(bytes, b).unwrap().1;
    let d = read_key(bytes, c).unwrap().1;
    let e = read_opt_key(bytes, d).unwrap().1;
    let f = read_time(bytes, e).unwrap().1;
    lemma_read_text_sound(bytes, 0);
    lemma_read_opt_key_sound(bytes, b);
    lemma_read_key_sound(bytes, c);
    lemma_read_opt_key_sound(bytes, d);
    lemma_read_time_sound(bytes, e);
    lemma_read_text_sound(bytes, f);
    assert(bytes.subrange(0, end) =~= bytes.subrange(0, a) + bytes.subrange(a, b)
        + bytes.subrange(b, c) + bytes.subrange(c, d) + bytes.subrange(d, e) + bytes.subrange(e, f)
        + bytes.subrange(f, end));
}

/// Decoding undoes encoding: the stored form of a record that has one
/// decodes to that record.
pub proof fn lemma_record_round_trip(record: RecordView)
    requires
        record.well_formed(),
    ensures
        record_of(record.encoding()) == Some(record),
{
    let bytes = record.encoding();
    assert(bytes.subrange(0, bytes.len() as int) =~= bytes);
    lemma_read_record_written(bytes, record);
}

/// Encoding undoes decoding: bytes that decode to a record are the stored
/// form of that record, so no two byte sequences decode to the same record
/// and no byte sequence decodes to two.
pub proof fn lemma_record_of_sound(bytes: Seq<u8>)
    requires
        record_of(bytes) is Some,
    ensures
        record_of(bytes).unwrap().well_formed(),
        record_of(bytes).unwrap().encoding() == bytes,
{
    lemma_read_record_sound(bytes);
}

/// No byte sequence starts with the stored forms of two different records:
/// a buffer holds at most one record.
pub proof fn lemma_one_record_at_front(bytes: Seq<u8>, first: RecordView, second: RecordView)
    requires
        first.well_formed(),
        second.well_formed(),
        first.encoding().len() <= bytes.len(),
        second.encoding().len() <= bytes.len(),
        bytes.subrange(0, first.encoding().len() as int) == first.encoding(),
        bytes.subrange(0, second.encoding().len() as int) == second.encoding(),
    ensures
        first == second,
{
    lemma_read_record_written(bytes, first);
    lemma_read_record_written(bytes, second);
}

impl TransactionType {
    /// The tag byte that stands for this type in a stored record.
    pub fn tag(&self) -> (tag: u8)
        ensures
            tag == kind_tag(*self),
    {
        match self {
            TransactionType::Manufacture => 0,
            TransactionType::Repair => 1,
            TransactionType::Transfer => 2,
            TransactionType::EndOfLife => 3,
        }
    }

    /// The type that a tag byte stands for; `None` for a tag above 3.
    pub fn from_tag(tag: u8) -> (kind: Option<TransactionType>)
        ensures
            kind == kind_of_tag(tag),
    {
        if tag == 0 {
            Some(TransactionType::Manufacture)
        } else if tag == 1 {
            Some(TransactionType::Repair)
        } else if tag == 2 {
            Some(TransactionType::Transfer)
        } else if tag == 3 {
            Some(TransactionType::EndOfLife)
        } else {
            None
        }
    }
}

/// Reads the transaction type stored in `bytes` at `at`, as `read_kind` says.
fn take_kind(bytes: &[u8], at: usize) -> (out: Option<(TransactionType, usize)>)
    requires
        at <= bytes@.len(),
    ensures
        match out {
            Some((kind, next)) => read_kind(bytes@, at as int) == Some((kind, next as int)),
            None => read_kind(bytes@, at as int) is None,
        },
{
    if at >= bytes.len() {
        return None;
    }
    match TransactionType::from_tag(bytes[at]) {
        Some(kind) => Some((kind, at + 1)),
        None => None,
    }
}

impl ProductRecord {
    /// The stored form of the record, or `None` where it has none because
    /// one of its texts is too long for a four-byte count. What comes out
    /// decodes to the record again.
    pub fn encode(&self) -> (out: Option<Vec<u8>>)
        ensures
            out is Some <==> self@.well_formed(),
            out is Some ==> out.unwrap()@ == self@.encoding(),
            out is Some ==> record_of(out.unwrap()@) == Some(self@),
    {
        let mut bytes: Vec<u8> = Vec::new();
        if !put_text(&mut bytes, &self.product_id) {
            return None;
        }
        bytes.push(self.transaction_type.tag());
        put_opt_key(&mut bytes, &self.previous_record);
        put_key(&mut bytes, &self.current_owner);
        put_opt_key(&mut bytes, &self.next_owner);
        put_time(&mut bytes, self.timestamp);
        if !put_text(&mut bytes, &self.metadata) {
            return None;
        }
        proof {
            lemma_record_round_trip(self@);
        }
        Some(bytes)
    }

    /// The record stored at the front of `bytes` and the number of bytes it
    /// takes up. Bytes after the record are not looked at. Fails exactly
    /// where `bytes` does not start with the stored form of a record.
    pub fn decode_prefix(bytes: &[u8]) -> (out: Result<(ProductRecord, usize), DecodeError>)
        ensures
            match out {
                Ok((record, used)) => read_record(bytes@) == Some((record@, used as int)),
                Err(_) => read_record(bytes@) is None,
            },
    {
        let (product_id, a) = match take_text(bytes, 0) {
            Some(found) => found,
            None => { return Err(DecodeError); },
        };
        proof {
            lemma_read_text_sound(bytes@, 0);
        }
        let (transaction_type, b) = match take_kind(bytes, a) {
            Some(found) => found,
            None => { return Err(DecodeError); },
        };
        let (previous_record, c) = match take_opt_key(bytes, b) {
            Some(found) => found,
            None => { return Err(DecodeError); },
        };
        proof {
            lemma_read_opt_key_sound(bytes@, b as int);
        }
        let (current_owner, d) = match take_key(bytes, c) {
            Some(found) => found,
            None => { return Err(DecodeError); },
        };
        proof {
            lemma_read_key_sound(bytes@, c as int);
        }
        let (next_owner, e) = match take_opt_key(bytes, d) {
            Some(found) => found,
            None => { return Err(DecodeError); },
        };
        proof {
            lemma_read_opt_key_sound(bytes@, d as int);
        }
        let (timestamp, f) = match take_time(bytes, e) {
            Some(found) => found,
            None => { return Err(DecodeError); },
        };
        proof {
            lemma_read_time_sound(bytes@, e as int);
        }
        let (metadata, end) = match take_text(bytes, f) {
            Some(found) => found,
            None => { return Err(DecodeError); },
        };
        Ok(
            (
                ProductRecord {
                    product_id,
                    transaction_type,
                    previous_record,
                    current_owner,
                    next_owner,
                    timestamp,
                    metadata,
                },
                end,
            ),
        )
    }

    /// The record of which the whole of `bytes` is the stored form. Fails
    /// where `bytes` is cut short, carries an unknown tag or a presence byte
    /// other than 0 or 1, holds a text that is not valid UTF-8, or goes on
    /// after the record's last byte.
    pub fn decode(bytes: &[u8]) -> (out: Result<ProductRecord, DecodeError>)
        ensures
            match out {
                Ok(record) => record_of(bytes@) == Some(record@),
                Err(_) => record_of(bytes@) is None,
            },
    {
        match ProductRecord::decode_prefix(bytes) {
            Ok((record, used)) => {
                if used == bytes.len() {
                    Ok(record)
                } else {
                    Err(DecodeError)
                }
            },
            Err(e) => Err(e),
        }
    }
}

impl Clone for ProductRecord {
    fn clone(&self) -> (copy: ProductRecord)
        ensures
            copy == *self,
    {
        ProductRecord {
            product_id: self.product_id.clone(),
            transaction_type: self.transaction_type,
            previous_record: self.previous_record,
            current_owner: self.current_owner,
            next_owner: self.next_owner,
            timestamp: self.timestamp,
            metadata: self.metadata.clone(),
        }
    }
}

/// Whether two optional identities are the same.
fn same_opt_key(a: &Option<Pubkey>, b: &Option<Pubkey>) -> (same: bool)
    ensures
        same == (*a == *b),
{
    match (a, b) {
        (None, None) => true,
        (Some(x), Some(y)) => *x == *y,
        _ => false,
    }
}

impl PartialEq for ProductRecord {
    /// Two records are equal when all their fields are, texts taken
    /// character by character.
    fn eq(&self, other: &ProductRecord) -> (same: bool) {
        self.product_id == other.product_id && self.transaction_type == other.transaction_type
            && same_opt_key(&self.previous_record, &other.previous_record) && self.current_owner
            == other.current_owner && same_opt_key(&self.next_owner, &other.next_owner)
            && self.timestamp == other.timestamp && self.metadata == other.metadata
    }
}

impl vstd::std_specs::cmp::PartialEqSpecImpl for ProductRecord {
    open spec fn obeys_eq_spec() -> bool {
        true
    }

    open spec fn eq_spec(&self, other: &ProductRecord) -> bool {
        self@ == other@
    }
}

} // verus!
