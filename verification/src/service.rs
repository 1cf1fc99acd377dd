//! The services of ISO 14229-1 that move data: what a tester asks, and
//! what an ECU answers.
//!
//! A request is a service identifier and its parameters. A positive
//! response echoes the identifier with `0x40` added; a negative one is
//! `0x7f`, the identifier, and a response code that says why. Six services
//! are here: `ReadDataByIdentifier` and `WriteDataByIdentifier` for a data
//! identifier that fits one message, `RoutineControl` for a routine, and
//! `RequestDownload`, `TransferData` and `RequestTransferExit` for a
//! download in blocks: how a tester writes what one message cannot hold.
//!
//! The mathematical models [`RequestView`] and [`ResponseView`] hold byte
//! sequences where [`Request`] and [`Response`] hold vectors. Their
//! `encoding` is the bytes on the wire, and their `parsed` is what bytes on
//! the wire carry.
use vstd::prelude::*;
use vstd::slice::{slice_subrange, slice_to_vec};

use crate::error::ProtocolError;
use crate::wire::{be16, be32, push16, push32, read16, read32, take16, take32};

pub mod code;

verus! {

/// `ReadDataByIdentifier`.
pub const READ_DATA_BY_IDENTIFIER: u8 = 0x22;

/// `WriteDataByIdentifier`.
pub const WRITE_DATA_BY_IDENTIFIER: u8 = 0x2e;

/// `RoutineControl`: start, stop or request the results of a routine.
pub const ROUTINE_CONTROL: u8 = 0x31;

/// `RequestDownload`: open a download to a memory address.
pub const REQUEST_DOWNLOAD: u8 = 0x34;

/// `TransferData`: one block of an open download.
pub const TRANSFER_DATA: u8 = 0x36;

/// `RequestTransferExit`: close the download.
pub const REQUEST_TRANSFER_EXIT: u8 = 0x37;

/// What a positive response adds to the service identifier.
pub const POSITIVE: u8 = 0x40;

/// The service identifier of every negative response.
pub const NEGATIVE: u8 = 0x7f;

/// The address-and-length format of a download here: a two-byte memory
/// address and a four-byte size.
pub const ADDRESS_AND_LENGTH: u8 = 0x42;

/// The length format of a download's answer: a two-byte block length.
pub const LENGTH_FORMAT: u8 = 0x20;

/// What a tester asks.
#[derive(Clone, Debug, PartialEq, Eq)]
pub enum Request {
    ReadDataByIdentifier { did: u16 },
    WriteDataByIdentifier { did: u16, data: Vec<u8> },
    /// `control` is 1 to start, 2 to stop, 3 for the results.
    RoutineControl { control: u8, routine: u16, data: Vec<u8> },
    /// Open a download of `size` bytes to `address`.
    RequestDownload { address: u16, size: u32 },
    /// Block `block` of the open download; the counter starts at one and
    /// wraps.
    TransferData { block: u8, data: Vec<u8> },
    RequestTransferExit,
}

/// A request as a mathematical value.
pub enum RequestView {
    ReadDataByIdentifier { did: u16 },
    WriteDataByIdentifier { did: u16, data: Seq<u8> },
    RoutineControl { control: u8, routine: u16, data: Seq<u8> },
    RequestDownload { address: u16, size: u32 },
    TransferData { block: u8, data: Seq<u8> },
    RequestTransferExit,
}

/// A negative response: the service refused, and why.
#[derive(Clone, Copy, Debug, PartialEq, Eq)]
pub struct Negative {
    pub service: u8,
    pub code: u8,
}

/// What an ECU answers.
#[derive(Clone, Debug, PartialEq, Eq)]
pub enum Response {
    /// The service, as requested, and what follows the identifier.
    Positive { service: u8, data: Vec<u8> },
    Negative(Negative),
}

/// A response as a mathematical value.
pub enum ResponseView {
    Positive { service: u8, data: Seq<u8> },
    Negative(Negative),
}

impl View for Request {
    type V = RequestView;

    open spec fn view(&self) -> RequestView {
        match *self {
            Request::ReadDataByIdentifier { did } => RequestView::ReadDataByIdentifier { did },
            Request::WriteDataByIdentifier { did, data } => RequestView::WriteDataByIdentifier {
                did,
                data: data@,
            },
            Request::RoutineControl { control, routine, data } => RequestView::RoutineControl {
                control,
                routine,
                data: data@,
            },
            Request::RequestDownload { address, size } => RequestView::RequestDownload {
                address,
                size,
            },
            Request::TransferData { block, data } => RequestView::TransferData {
                block,
                data: data@,
            },
            Request::RequestTransferExit => RequestView::RequestTransferExit,
        }
    }
}

impl View for Response {
    type V = ResponseView;

    open spec fn view(&self) -> ResponseView {
        match *self {
            Response::Positive { service, data } => ResponseView::Positive {
                service,
                data: data@,
            },
            Response::Negative(negative) => ResponseView::Negative(negative),
        }
    }
}

impl RequestView {
    /// The service identifier.
    pub open spec fn service(self) -> u8 {
        match self {
            RequestView::ReadDataByIdentifier { .. } => READ_DATA_BY_IDENTIFIER,
            RequestView::WriteDataByIdentifier { .. } => WRITE_DATA_BY_IDENTIFIER,
            RequestView::RoutineControl { .. } => ROUTINE_CONTROL,
            RequestView::RequestDownload { .. } => REQUEST_DOWNLOAD,
            RequestView::TransferData { .. } => TRANSFER_DATA,
            RequestView::RequestTransferExit => REQUEST_TRANSFER_EXIT,
        }
    }

    /// What follows the service identifier on the wire.
    pub open spec fn parameters(self) -> Seq<u8> {
        match self {
            RequestView::ReadDataByIdentifier { did } => be16(did),
            RequestView::WriteDataByIdentifier { did, data } => be16(did) + data,
            RequestView::RoutineControl { control, routine, data } => seq![control] + be16(routine)
                + data,
            RequestView::RequestDownload { address, size } => seq![0u8, ADDRESS_AND_LENGTH] + be16(
                address,
            ) + be32(size),
            RequestView::TransferData { block, data } => seq![block] + data,
            RequestView::RequestTransferExit => seq![],
        }
    }

    /// The bytes on the wire.
    pub open spec fn encoding(self) -> Seq<u8> {
        seq![self.service()] + self.parameters()
    }

    /// The request of `service` that the parameters `rest` spell, or the
    /// code that refuses them.
    pub open spec fn of(service: u8, rest: Seq<u8>) -> Result<RequestView, u8> {
        if service == READ_DATA_BY_IDENTIFIER {
            if rest.len() == 2 {
                Ok(RequestView::ReadDataByIdentifier { did: read16(rest) })
            } else {
                Err(code::INCORRECT_MESSAGE_LENGTH)
            }
        } else if service == WRITE_DATA_BY_IDENTIFIER {
            if rest.len() >= 2 {
                Ok(
                    RequestView::WriteDataByIdentifier {
                        did: read16(rest.take(2)),
                        data: rest.skip(2),
                    },
                )
            } else {
                Err(code::INCORRECT_MESSAGE_LENGTH)
            }
        } else if service == ROUTINE_CONTROL {
            if rest.len() < 3 {
                Err(code::INCORRECT_MESSAGE_LENGTH)
            } else if 1 <= rest[0] <= 3 {
                Ok(
                    RequestView::RoutineControl {
                        control: rest[0],
                        routine: read16(rest.subrange(1, 3)),
                        data: rest.skip(3),
                    },
                )
            } else {
                Err(code::SUB_FUNCTION_NOT_SUPPORTED)
            }
        } else if service == REQUEST_DOWNLOAD {
            if rest.len() < 2 {
                Err(code::INCORRECT_MESSAGE_LENGTH)
            } else if rest[1] != ADDRESS_AND_LENGTH {
                Err(code::REQUEST_OUT_OF_RANGE)
            } else if rest.len() != 8 {
                Err(code::INCORRECT_MESSAGE_LENGTH)
            } else {
                Ok(
                    RequestView::RequestDownload {
                        address: read16(rest.subrange(2, 4)),
                        size: read32(rest.subrange(4, 8)),
                    },
                )
            }
        } else if service == TRANSFER_DATA {
            if rest.len() >= 1 {
                Ok(RequestView::TransferData { block: rest[0], data: rest.skip(1) })
            } else {
                Err(code::INCORRECT_MESSAGE_LENGTH)
            }
        } else if service == REQUEST_TRANSFER_EXIT {
            if rest.len() == 0 {
                Ok(RequestView::RequestTransferExit)
            } else {
                Err(code::INCORRECT_MESSAGE_LENGTH)
            }
        } else {
            Err(code::SERVICE_NOT_SUPPORTED)
        }
    }

    /// The request `bytes` carry, or the negative response that refuses it.
    pub open spec fn parsed(bytes: Seq<u8>) -> Result<RequestView, Negative> {
        if bytes.len() == 0 {
            Err(Negative { service: 0, code: code::INCORRECT_MESSAGE_LENGTH })
        } else {
            match RequestView::of(bytes[0], bytes.skip(1)) {
                Ok(request) => Ok(request),
                Err(code) => Err(Negative { service: bytes[0], code }),
            }
        }
    }
}

impl Negative {
    /// The three bytes on the wire.
    pub open spec fn encoding(self) -> Seq<u8> {
        seq![NEGATIVE, self.service, self.code]
    }

    /// The three bytes on the wire.
    #[must_use]
    pub fn encode(self) -> (out: [u8; 3])
        ensures
            out@ == self.encoding(),
    {
        [NEGATIVE, self.service, self.code]
    }
}

impl ResponseView {
    /// The bytes on the wire.
    pub open spec fn encoding(self) -> Seq<u8> {
        match self {
            ResponseView::Positive { service, data } => seq![service | POSITIVE] + data,
            ResponseView::Negative(negative) => negative.encoding(),
        }
    }

    /// The response `bytes` carry, or why they carry none.
    pub open spec fn parsed(bytes: Seq<u8>) -> Result<ResponseView, ProtocolError> {
        if bytes.len() == 0 {
            Err(ProtocolError::EmptyResponse)
        } else if bytes[0] == NEGATIVE {
            if bytes.len() == 3 {
                Ok(ResponseView::Negative(Negative { service: bytes[1], code: bytes[2] }))
            } else {
                Err(ProtocolError::NegativeWithoutCode)
            }
        } else if bytes[0] & POSITIVE != 0 {
            Ok(ResponseView::Positive { service: bytes[0] & !POSITIVE, data: bytes.skip(1) })
        } else {
            Err(ProtocolError::NotAResponse)
        }
    }

    /// The positive answer to a download: the block length the ECU takes.
    pub open spec fn download(block_length: u16) -> ResponseView {
        ResponseView::Positive {
            service: REQUEST_DOWNLOAD,
            data: seq![LENGTH_FORMAT] + be16(block_length),
        }
    }

    /// The block length that the data of a download's answer names, if it
    /// names one.
    pub open spec fn block_length(data: Seq<u8>) -> Option<u16> {
        if data.len() == 3 && data[0] == LENGTH_FORMAT {
            Some(read16(data.skip(1)))
        } else {
            None
        }
    }
}

impl Request {
    /// The service identifier.
    #[must_use]
    pub fn service(&self) -> (service: u8)
        ensures
            service == self@.service(),
    {
        match self {
            Request::ReadDataByIdentifier { .. } => READ_DATA_BY_IDENTIFIER,
            Request::WriteDataByIdentifier { .. } => WRITE_DATA_BY_IDENTIFIER,
            Request::RoutineControl { .. } => ROUTINE_CONTROL,
            Request::RequestDownload { .. } => REQUEST_DOWNLOAD,
            Request::TransferData { .. } => TRANSFER_DATA,
            Request::RequestTransferExit => REQUEST_TRANSFER_EXIT,
        }
    }

    /// The bytes on the wire.
    #[must_use]
    pub fn encode(&self) -> (out: Vec<u8>)
        ensures
            out@ == self@.encoding(),
    {
        let mut out: Vec<u8> = Vec::new();
        out.push(self.service());
        match self {
            Request::ReadDataByIdentifier { did } => {
                push16(&mut out, *did);
            },
            Request::WriteDataByIdentifier { did, data } => {
                push16(&mut out, *did);
                out.extend_from_slice(data);
            },
            Request::RoutineControl { control, routine, data } => {
                out.push(*control);
                push16(&mut out, *routine);
                out.extend_from_slice(data);
            },
            Request::RequestDownload { address, size } => {
                out.push(0x00);
                out.push(ADDRESS_AND_LENGTH);
                push16(&mut out, *address);
                push32(&mut out, *size);
            },
            Request::TransferData { block, data } => {
                out.push(*block);
                out.extend_from_slice(data);
            },
            Request::RequestTransferExit => {},
        }
        assert(out@ =~= self@.encoding());
        out
    }

    /// The request `bytes` carry, or the negative response that refuses it:
    /// an unknown service, or a shape the service does not take.
    ///
    /// # Errors
    /// The negative response, ready to send.
    pub fn parse(bytes: &[u8]) -> (parsed: Result<Request, Negative>)
        ensures
            match parsed {
                Ok(request) => RequestView::parsed(bytes@) == Ok::<RequestView, Negative>(request@),
                Err(negative) => RequestView::parsed(bytes@) == Err::<RequestView, Negative>(
                    negative,
                ),
            },
    {
        if bytes.len() == 0 {
            return Err(Negative { service: 0, code: code::INCORRECT_MESSAGE_LENGTH });
        }
        let service = bytes[0];
        let rest = slice_subrange(bytes, 1, bytes.len());
        assert(rest@ =~= bytes@.skip(1));
        let short = Negative { service, code: code::INCORRECT_MESSAGE_LENGTH };
        match service {
            READ_DATA_BY_IDENTIFIER => {
                if rest.len() != 2 {
                    return Err(short);
                }
                assert(rest@.subrange(0, 2) =~= rest@);
                Ok(Request::ReadDataByIdentifier { did: take16(rest, 0) })
            },
            WRITE_DATA_BY_IDENTIFIER => {
                if rest.len() < 2 {
                    return Err(short);
                }
                let data = slice_to_vec(slice_subrange(rest, 2, rest.len()));
                Ok(Request::WriteDataByIdentifier { did: take16(rest, 0), data })
            },
            ROUTINE_CONTROL => {
                if rest.len() < 3 {
                    return Err(short);
                }
                let control = rest[0];
                if control < 1 || control > 3 {
                    return Err(Negative { service, code: code::SUB_FUNCTION_NOT_SUPPORTED });
                }
                let data = slice_to_vec(slice_subrange(rest, 3, rest.len()));
                Ok(Request::RoutineControl { control, routine: take16(rest, 1), data })
            },
            REQUEST_DOWNLOAD => {
                if rest.len() < 2 {
                    return Err(short);
                }
                if rest[1] != ADDRESS_AND_LENGTH {
                    return Err(Negative { service, code: code::REQUEST_OUT_OF_RANGE });
                }
                if rest.len() != 8 {
                    return Err(short);
                }
                Ok(Request::RequestDownload { address: take16(rest, 2), size: take32(rest, 4) })
            },
            TRANSFER_DATA => {
                if rest.len() < 1 {
                    return Err(short);
                }
                let data = slice_to_vec(slice_subrange(rest, 1, rest.len()));
                Ok(Request::TransferData { block: rest[0], data })
            },
            REQUEST_TRANSFER_EXIT => {
                if rest.len() != 0 {
                    return Err(short);
                }
                Ok(Request::RequestTransferExit)
            },
            _ => Err(Negative { service, code: code::SERVICE_NOT_SUPPORTED }),
        }
    }
}

impl Response {
    /// The positive answer to a download: the block length the ECU takes,
    /// counting the two bytes of service and counter.
    #[must_use]
    pub fn download(block_length: u16) -> (response: Response)
        ensures
            response@ == ResponseView::download(block_length),
    {
        let mut data: Vec<u8> = Vec::new();
        data.push(LENGTH_FORMAT);
        push16(&mut data, block_length);
        Response::Positive { service: REQUEST_DOWNLOAD, data }
    }

    /// The block length a download's positive answer names.
    ///
    /// # Errors
    /// An answer of another shape.
    pub fn block_length(data: &[u8]) -> (length: Result<u16, ProtocolError>)
        ensures
            length == match ResponseView::block_length(data@) {
                Some(n) => Ok(n),
                None => Err(ProtocolError::NoBlockLength),
            },
    {
        if data.len() == 3 && data[0] == LENGTH_FORMAT {
            assert(data@.subrange(1, 3) =~= data@.skip(1));
            Ok(take16(data, 1))
        } else {
            Err(ProtocolError::NoBlockLength)
        }
    }

    /// The bytes on the wire.
    #[must_use]
    pub fn encode(&self) -> (out: Vec<u8>)
        ensures
            out@ == self@.encoding(),
    {
        match self {
            Response::Positive { service, data } => {
                let mut out: Vec<u8> = Vec::new();
                out.push(*service | POSITIVE);
                out.extend_from_slice(data);
                assert(out@ =~= self@.encoding());
                out
            },
            Response::Negative(negative) => {
                let bytes = negative.encode();
                slice_to_vec(bytes.as_slice())
            },
        }
    }

    /// The response `bytes` carry.
    ///
    /// # Errors
    /// An empty message, or a negative response without its code.
    pub fn parse(bytes: &[u8]) -> (parsed: Result<Response, ProtocolError>)
        ensures
            match parsed {
                Ok(response) => ResponseView::parsed(bytes@) == Ok::<ResponseView, ProtocolError>(
                    response@,
                ),
                Err(error) => ResponseView::parsed(bytes@) == Err::<ResponseView, ProtocolError>(
                    error,
                ),
            },
    {
        if bytes.len() == 0 {
            return Err(ProtocolError::EmptyResponse);
        }
        let first = bytes[0];
        if first == NEGATIVE {
            if bytes.len() != 3 {
                return Err(ProtocolError::NegativeWithoutCode);
            }
            return Ok(Response::Negative(Negative { service: bytes[1], code: bytes[2] }));
        }
        if first & POSITIVE == 0 {
            return Err(ProtocolError::NotAResponse);
        }
        let data = slice_to_vec(slice_subrange(bytes, 1, bytes.len()));
        Ok(Response::Positive { service: first & !POSITIVE, data })
    }
}

} // verus!
