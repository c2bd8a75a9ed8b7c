//! Transaction authorisation for an Aeternity hardware signer.
//!
//! The device receives commands in bounded chunks, decodes and validates what
//! it is asked to sign, shows the operator a summary and signs only what was
//! approved. This crate holds the decisions of that pipeline: the framing of
//! requests, the binary item decoder, the address codec, the amount
//! formatter, the transaction context and the command state machine. I/O, the
//! screen and the key stay with the caller.
//!
//! * [`session`] is the entry point: one [`session::Session`] takes every
//!   request and every answer of the device and says what happens next.
//! * [`instruction`] maps request headers to commands, [`status`] holds the
//!   status words, [`handlers`] the part of each command that is its own.
//! * [`rlp`] decodes the items a transaction is made of, [`address`] and
//!   [`base58`] write and read addresses, [`amount`] and [`numeral`] show
//!   amounts, [`varuint`] writes compact lengths, [`review`] builds what the
//!   operator reads, [`hash`] and [`text`] hold the digests and the string
//!   conversions that the rest is stated over.

pub mod address;
pub mod amount;
pub mod base58;
pub mod handlers;
pub mod hash;
pub mod instruction;
pub mod numeral;
pub mod review;
pub mod rlp;
pub mod session;
pub mod status;
pub mod text;
pub mod varuint;

pub use instruction::Instruction;
pub use status::AppSW;
