//! Operation requests and their encoded form.
//!
//! A request is encoded as one tag byte that names the operation, followed
//! by the operation's fields in declared order:
//!
//! | tag | operation           | fields                                   |
//! |-----|---------------------|------------------------------------------|
//! | 0   | `CreateProduct`     | `product_id` as text, `metadata` as text |
//! | 1   | `TransferOwnership` | `next_owner` as 32 bytes                 |
//! | 2   | `RecordRepair`      | `metadata` as text                       |
//! | 3   | `MarkEndOfLife`     | none                                     |
//!
//! A request is decoded from the whole of the bytes given: bytes left over
//! after the last field make it invalid.

use vstd::prelude::*;
use crate::error::DecodeError;
use crate::identity::Pubkey;
use crate::text::{put_text, read_text, take_text, text_bytes, text_fits};
use crate::text::{lemma_read_text_sound, lemma_read_text_written, lemma_text_bytes};
use crate::wire::{put_key, read_key, take_key};
use crate::wire::{lemma_read_key_sound, lemma_read_key_written};

verus! {

/// One request to the program. It lives for one invocation only.
#[derive(Debug)]
pub enum ProductInstruction {
    /// Start the chain of a new product; for its manufacturer only.
    CreateProduct { product_id: String, metadata: String },
    /// Hand the product to `next_owner`.
    TransferOwnership { next_owner: Pubkey },
    /// Add a repair to the product's chain.
    RecordRepair { metadata: String },
    /// Retire the product.
    MarkEndOfLife,
}

/// A request as a mathematical value: texts as character sequences.
pub enum InstructionView {
    CreateProduct { product_id: Seq<char>, metadata: Seq<char> },
    TransferOwnership { next_owner: Pubkey },
    RecordRepair { metadata: Seq<char> },
    MarkEndOfLife,
}

impl View for ProductInstruction {
    type V = InstructionView;

    open spec fn view(&self) -> InstructionView {
        match self {
            ProductInstruction::CreateProduct { product_id, metadata } => {
                InstructionView::CreateProduct { product_id: product_id@, metadata: metadata@ }
            },
            ProductInstruction::TransferOwnership { next_owner } => {
                InstructionView::TransferOwnership { next_owner: *next_owner }
            },
            ProductInstruction::RecordRepair { metadata } => {
                InstructionView::RecordRepair { metadata: metadata@ }
            },
            ProductInstruction::MarkEndOfLife => InstructionView::MarkEndOfLife,
        }
    }
}

impl InstructionView {
    /// Whether the request has an encoded form: all of its texts fit.
    pub open spec fn well_formed(self) -> bool {
        match self {
            InstructionView::CreateProduct { product_id, metadata } => {
                text_fits(product_id) && text_fits(metadata)
            },
            InstructionView::TransferOwnership { next_owner } => true,
            InstructionView::RecordRepair { metadata } => text_fits(metadata),
            InstructionView::MarkEndOfLife => true,
        }
    }

    /// The encoded form of the request.
    pub open spec fn encoding(self) -> Seq<u8> {
        match self {
            InstructionView::CreateProduct { product_id, metadata } => {
                seq![0u8] + text_bytes(product_id) + text_bytes(metadata)
            },
            InstructionView::TransferOwnership { next_owner } => seq![1u8] + next_owner@,
            InstructionView::RecordRepair { metadata } => seq![2u8] + text_bytes(metadata),
            InstructionView::MarkEndOfLife => seq![3u8],
        }
    }
}

/// Reads the request encoded at the front of `bytes`: the request and the
/// number of bytes it takes up, or `None` where `bytes` does not start with
/// the encoded form of a request.
pub open spec fn read_instruction(bytes: Seq<u8>) -> Option<(InstructionView, int)> {
    if bytes.len() == 0 {
        None
    } else if bytes[0] == 0 {
        match read_text(bytes, 1) {
            Some((product_id, a)) => match read_text(bytes, a) {
                Some((metadata, end)) => Some(
                    (InstructionView::CreateProduct { product_id, metadata }, end),
                ),
                None => None,
            },
            None => None,
        }
    } else if bytes[0] == 1 {
        match read_key(bytes, 1) {
            Some((next_owner, end)) => Some((InstructionView::TransferOwnership { next_owner }, end)),
            None => None,
        }
    } else if bytes[0] == 2 {
        match read_text(bytes, 1) {
            Some((metadata, end)) => Some((InstructionView::RecordRepair { metadata }, end)),
            None => None,
        }
    } else if bytes[0] == 3 {
        Some((InstructionView::MarkEndOfLife, 1))
    } else {
        None
    }
}

/// The request of which the whole of `bytes` is the encoded form, if there
/// is one.
pub open spec fn instruction_of(bytes: Seq<u8>) -> Option<InstructionView> {
    match read_instruction(bytes) {
        Some((instruction, end)) => if end == bytes.len() {
            Some(instruction)
        } else {
            None
        },
        None => None,
    }
}

/// Decoding undoes encoding: the encoded form of a request that has one
/// decodes to that request.
pub proof fn lemma_instruction_round_trip(instruction: InstructionView)
    requires
        instruction.well_formed(),
    ensures
        instruction_of(instruction.encoding()) == Some(instruction),
{
    let bytes = instruction.encoding();
    match instruction {
        InstructionView::CreateProduct { product_id, metadata } => {
            lemma_text_bytes(product_id);
            lemma_text_bytes(metadata);
            let a: int = 1 + text_bytes(product_id).len() as int;
            let end: int = a + text_bytes(metadata).len();
            assert(bytes.subrange(1, a) =~= text_bytes(product_id));
            assert(bytes.subrange(a, end) =~= text_bytes(metadata));
            lemma_read_text_written(bytes, 1, product_id);
            lemma_read_text_written(bytes, a, metadata);
        },
        InstructionView::TransferOwnership { next_owner } => {
            assert(bytes.subrange(1, 33) =~= next_owner@);
            lemma_read_key_written(bytes, 1, next_owner);
        },
        InstructionView::RecordRepair { metadata } => {
            lemma_text_bytes(metadata);
            let end: int = 1 + text_bytes(metadata).len() as int;
            assert(bytes.subrange(1, end) =~= text_bytes(metadata));
            lemma_read_text_written(bytes, 1, metadata);
        },
        InstructionView::MarkEndOfLife => {},
    }
}

/// Encoding undoes decoding: bytes that decode to a request are the encoded
/// form of that request.
pub proof fn lemma_instruction_of_sound(bytes: Seq<u8>)
    requires
        instruction_of(bytes) is Some,
    ensures
        instruction_of(bytes).unwrap().well_formed(),
        instruction_of(bytes).unwrap().encoding() == bytes,
{
    if bytes[0] == 0 {
        lemma_read_text_sound(bytes, 1);
        lemma_read_text_sound(bytes, read_text(bytes, 1).unwrap().1);
    } else if bytes[0] == 1 {
        lemma_read_key_sound(bytes, 1);
    } else if bytes[0] == 2 {
        lemma_read_text_sound(bytes, 1);
    }
}

impl ProductInstruction {
    /// The encoded form of the request, or `None` where it has none because
    /// one of its texts is too long for a four-byte count. What comes out
    /// decodes to the request again.
    pub fn encode(&self) -> (out: Option<Vec<u8>>)
        ensures
            out is Some <==> self@.well_formed(),
            out is Some ==> out.unwrap()@ == self@.encoding(),
            out is Some ==> instruction_of(out.unwrap()@) == Some(self@),
    {
        let mut bytes: Vec<u8> = Vec::new();
        match self {
            ProductInstruction::CreateProduct { product_id, metadata } => {
                bytes.push(0u8);
                if !put_text(&mut bytes, product_id) {
                    return None;
                }
                if !put_text(&mut bytes, metadata) {
                    return None;
                }
            },
            ProductInstruction::TransferOwnership { next_owner } => {
                bytes.push(1u8);
                put_key(&mut bytes, next_owner);
            },
            ProductInstruction::RecordRepair { metadata } => {
                bytes.push(2u8);
                if !put_text(&mut bytes, metadata) {
                    return None;
                }
            },
            ProductInstruction::MarkEndOfLife => {
                bytes.push(3u8);
            },
        }
        proof {
            lemma_instruction_round_trip(self@);
        }
        Some(bytes)
    }

    /// The request of which the whole of `bytes` is the encoded form. Fails
    /// where `bytes` is empty or cut short, starts with a tag above 3, holds
    /// a text that is not valid UTF-8, or goes on after the request's last
    /// byte.
    pub fn decode(bytes: &[u8]) -> (out: Result<ProductInstruction, DecodeError>)
        ensures
            match out {
                Ok(instruction) => instruction_of(bytes@) == Some(instruction@),
                Err(_) => instruction_of(bytes@) is None,
            },
    {
        let total: usize = bytes.len();
        if total == 0 {
            return Err(DecodeError);
        }
        let tag: u8 = bytes[0];
        if tag == 0 {
            let (product_id, a) = match take_text(bytes, 1) {
                Some(found) => found,
                None => { return Err(DecodeError); },
            };
            proof {
                lemma_read_text_sound(bytes@, 1);
            }
            let (metadata, end) = match take_text(bytes, a) {
                Some(found) => found,
                None => { return Err(DecodeError); },
            };
            if end != total {
                return Err(DecodeError);
            }
            Ok(ProductInstruction::CreateProduct { product_id, metadata })
        } else if tag == 1 {
            let (next_owner, end) = match take_key(bytes, 1) {
                Some(found) => found,
                None => { return Err(DecodeError); },
            };
            if end != total {
                return Err(DecodeError);
            }
            Ok(ProductInstruction::TransferOwnership { next_owner })
        } else if tag == 2 {
            let (metadata, end) = match take_text(bytes, 1) {
                Some(found) => found,
                None => { return Err(DecodeError); },
            };
            if end != total {
                return Err(DecodeError);
            }
            Ok(ProductInstruction::RecordRepair { metadata })
        } else if tag == 3 {
            if total != 1 {
                return Err(DecodeError);
            }
            Ok(ProductInstruction::MarkEndOfLife)
        } else {
            Err(DecodeError)
        }
    }
}

} // verus!
