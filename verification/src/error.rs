//! What goes wrong between a tester and an ECU.
use vstd::prelude::*;

use crate::service::Negative;
use crate::text::{hex8, push_hex8};

verus! {

/// A session that broke the protocol, and how.
#[derive(Clone, Debug, PartialEq, Eq)]
pub enum ProtocolError {
    /// A response of no bytes.
    EmptyResponse,
    /// A negative response that is not three bytes long.
    NegativeWithoutCode,
    /// A message that is neither a positive nor a negative response.
    NotAResponse,
    /// A download's answer of another shape.
    NoBlockLength,
    /// A positive answer to another service than the one asked.
    AnotherService { answered: u8, asked: u8 },
    /// A negative answer.
    Refused(Negative),
    /// A Stream longer than the four bytes of a download's size can say.
    DownloadTooLong,
    /// A block length that leaves no room for a byte of data.
    BlockHoldsNoData,
    /// A request of no bytes.
    HungUp,
    /// A target's path that does not name a data identifier in hex.
    NotAnIdentifier(String),
}

impl ProtocolError {
    /// The error in words.
    pub open spec fn words(self) -> Seq<char> {
        match self {
            ProtocolError::EmptyResponse => "an empty response"@,
            ProtocolError::NegativeWithoutCode => "a negative response without its code"@,
            ProtocolError::NotAResponse => "a response that is not one"@,
            ProtocolError::NoBlockLength => "a download answer without a block length"@,
            ProtocolError::AnotherService { answered, asked } => "an answer to service "@ + hex8(
                answered,
            ) + ", not "@ + hex8(asked),
            ProtocolError::Refused(negative) => "service "@ + hex8(negative.service)
                + " refused with code "@ + hex8(negative.code),
            ProtocolError::DownloadTooLong => "a download longer than four bytes can size"@,
            ProtocolError::BlockHoldsNoData => "a block length that holds no data"@,
            ProtocolError::HungUp => "the tester hung up"@,
            ProtocolError::NotAnIdentifier(path) => path@ + " is not a data identifier"@,
        }
    }

    /// The error in words.
    #[must_use]
    pub fn message(&self) -> (message: String)
        ensures
            message@ == self.words(),
    {
        match self {
            ProtocolError::EmptyResponse => "an empty response".to_string(),
            ProtocolError::NegativeWithoutCode => "a negative response without its code".to_string(),
            ProtocolError::NotAResponse => "a response that is not one".to_string(),
            ProtocolError::NoBlockLength => "a download answer without a block length".to_string(),
            ProtocolError::AnotherService { answered, asked } => {
                let mut message = "an answer to service ".to_string();
                push_hex8(&mut message, *answered);
                message.append(", not ");
                push_hex8(&mut message, *asked);
                message
            },
            ProtocolError::Refused(negative) => {
                let mut message = "service ".to_string();
                push_hex8(&mut message, negative.service);
                message.append(" refused with code ");
                push_hex8(&mut message, negative.code);
                message
            },
            ProtocolError::DownloadTooLong => {
                "a download longer than four bytes can size".to_string()
            },
            ProtocolError::BlockHoldsNoData => "a block length that holds no data".to_string(),
            ProtocolError::HungUp => "the tester hung up".to_string(),
            ProtocolError::NotAnIdentifier(path) => {
                let mut message = path.clone();
                message.append(" is not a data identifier");
                message
            },
        }
    }
}

} // verus!
