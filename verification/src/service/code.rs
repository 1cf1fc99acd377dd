//! The negative response codes an ECU answers with.
use vstd::prelude::*;

verus! {

/// The service is not one the ECU offers.
pub const SERVICE_NOT_SUPPORTED: u8 = 0x11;

/// The sub-function is not one the service offers.
pub const SUB_FUNCTION_NOT_SUPPORTED: u8 = 0x12;

/// The request is the wrong length or shape.
pub const INCORRECT_MESSAGE_LENGTH: u8 = 0x13;

/// The request came out of order: a transfer with no download open.
pub const REQUEST_SEQUENCE_ERROR: u8 = 0x24;

/// A parameter the ECU does not have: an unknown identifier.
pub const REQUEST_OUT_OF_RANGE: u8 = 0x31;

/// A block out of sequence.
pub const WRONG_BLOCK_SEQUENCE_COUNTER: u8 = 0x73;

/// The answer takes longer; the tester waits for another.
pub const RESPONSE_PENDING: u8 = 0x78;

} // verus!
