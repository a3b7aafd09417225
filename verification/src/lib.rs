//! Chained provenance records for physical products.
//!
//! Each lifecycle event of a product (manufacture, repair, transfer of
//! ownership, end of life) is written as one record into a fixed-capacity
//! storage slot and linked to the slot of the record before it. An
//! invocation hands the processor its request bytes, the slot handles that
//! the request works on, and the host clock's time; the processor decodes
//! the request, checks who signed against the owner that the stored record
//! names, and writes the resulting record or records.
//!
//! The host is trusted for three things and no more: the signer flag of
//! each slot handle, the time, and exclusive use of the slots for the length
//! of the invocation.

pub mod auth;
pub mod error;
pub mod identity;
pub mod instruction;
pub mod processor;
pub mod record;
pub mod slot;
pub mod text;
pub mod wire;

pub use auth::{authorize, require_signature};
pub use error::{AuthError, CapacityError, DecodeError, ProcessingError};
pub use identity::Pubkey;
pub use instruction::ProductInstruction;
pub use processor::{create_product, mark_end_of_life, process_instruction, record_repair};
pub use processor::transfer_ownership;
pub use record::{ProductRecord, TransactionType};
pub use slot::Slot;
