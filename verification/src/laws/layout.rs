//! Where the fields of a message stand: every byte of every request and
//! every response, and what a message of any bytes is taken for.
use vstd::prelude::*;

use crate::error::ProtocolError;
use crate::service::{Negative, Request, RequestView, Response, ResponseView};
use crate::transport::heard;

verus! {

/// A request stands for the values it holds, each in its own place.
pub proof fn a_request_stands_for_what_it_holds(request: Request)
    ensures
        match request {
            Request::ReadDataByIdentifier { did } => {
                request@ == (RequestView::ReadDataByIdentifier { did })
            },
            Request::WriteDataByIdentifier { did, data } => {
                request@ == (RequestView::WriteDataByIdentifier { did, data: data@ })
            },
            Request::RoutineControl { control, routine, data } => {
                request@ == (RequestView::RoutineControl { control, routine, data: data@ })
            },
            Request::RequestDownload { address, size } => {
                request@ == (RequestView::RequestDownload { address, size })
            },
            Request::TransferData { block, data } => {
                request@ == (RequestView::TransferData { block, data: data@ })
            },
            Request::RequestTransferExit => request@ == RequestView::RequestTransferExit,
        },
{
}

/// A response stands for the values it holds.
pub proof fn a_response_stands_for_what_it_holds(response: Response)
    ensures
        match response {
            Response::Positive { service, data } => {
                response@ == (ResponseView::Positive { service, data: data@ })
            },
            Response::Negative(negative) => response@ == ResponseView::Negative(negative),
        },
{
}

/// A read is three bytes: `0x22` and the identifier, high byte first.
pub proof fn the_bytes_of_a_read(did: u16)
    ensures
        ({
            let request = RequestView::ReadDataByIdentifier { did };
            let bytes = request.encoding();
            &&& request.service() == 0x22
            &&& bytes.len() == 3
            &&& bytes[0] == 0x22
            &&& bytes[1] == did as int / 256
            &&& bytes[2] == did as int % 256
        }),
{
}

/// A write is `0x2e`, the identifier, high byte first, and then the data.
pub proof fn the_bytes_of_a_write(did: u16, data: Seq<u8>)
    ensures
        ({
            let request = RequestView::WriteDataByIdentifier { did, data };
            let bytes = request.encoding();
            &&& request.service() == 0x2e
            &&& bytes.len() == 3 + data.len()
            &&& bytes[0] == 0x2e
            &&& bytes[1] == did as int / 256
            &&& bytes[2] == did as int % 256
            &&& forall|i: int| 0 <= i < data.len() ==> bytes[3 + i] == #[trigger] data[i]
        }),
{
}

/// A routine is `0x31`, the control, the routine, high byte first, and then
/// the data.
pub proof fn the_bytes_of_a_routine(control: u8, routine: u16, data: Seq<u8>)
    ensures
        ({
            let request = RequestView::RoutineControl { control, routine, data };
            let bytes = request.encoding();
            &&& request.service() == 0x31
            &&& bytes.len() == 4 + data.len()
            &&& bytes[0] == 0x31
            &&& bytes[1] == control
            &&& bytes[2] == routine as int / 256
            &&& bytes[3] == routine as int % 256
            &&& forall|i: int| 0 <= i < data.len() ==> bytes[4 + i] == #[trigger] data[i]
        }),
{
}

/// The request for a download is nine bytes: `0x34`, a data format of zero,
/// the address-and-length format `0x42`, two bytes of address and four of
/// size, high bytes first.
pub proof fn the_bytes_of_a_download(address: u16, size: u32)
    ensures
        ({
            let request = RequestView::RequestDownload { address, size };
            let bytes = request.encoding();
            &&& request.service() == 0x34
            &&& bytes.len() == 9
            &&& bytes[0] == 0x34
            &&& bytes[1] == 0
            &&& bytes[2] == 0x42
            &&& bytes[3] == address as int / 256
            &&& bytes[4] == address as int % 256
            &&& bytes[5] == size as int / 0x100_0000
            &&& bytes[6] == size as int / 0x1_0000 % 256
            &&& bytes[7] == size as int / 0x100 % 256
            &&& bytes[8] == size as int % 256
        }),
{
    assert(size / 0x100_0000 < 256) by (bit_vector);
}

/// A block is `0x36`, the counter, and then the data.
pub proof fn the_bytes_of_a_block(block: u8, data: Seq<u8>)
    ensures
        ({
            let request = RequestView::TransferData { block, data };
            let bytes = request.encoding();
            &&& request.service() == 0x36
            &&& bytes.len() == 2 + data.len()
            &&& bytes[0] == 0x36
            &&& bytes[1] == block
            &&& forall|i: int| 0 <= i < data.len() ==> bytes[2 + i] == #[trigger] data[i]
        }),
{
}

/// An exit is the one byte `0x37`.
pub proof fn the_bytes_of_an_exit()
    ensures
        RequestView::RequestTransferExit.service() == 0x37,
        RequestView::RequestTransferExit.encoding() == seq![0x37u8],
{
    assert(RequestView::RequestTransferExit.encoding() =~= seq![0x37u8]);
}

/// A positive response is the service with bit six set, and then the data;
/// a negative one is `0x7f`, the service and the code.
pub proof fn the_bytes_of_a_response(response: ResponseView)
    ensures
        ({
            let bytes = response.encoding();
            match response {
                ResponseView::Positive { service, data } => {
                    &&& bytes.len() == 1 + data.len()
                    &&& bytes[0] == if service as int / 64 % 2 == 1 {
                        service as int
                    } else {
                        service + 0x40
                    }
                    &&& forall|i: int| 0 <= i < data.len() ==> bytes[1 + i] == #[trigger] data[i]
                },
                ResponseView::Negative(negative) => {
                    &&& bytes == seq![0x7fu8, negative.service, negative.code]
                    &&& negative.encoding() == bytes
                },
            }
        }),
{
    if let ResponseView::Positive { service, data } = response {
        lemma_bit_six(service);
    }
}

/// The answer to a download is `0x74`, the length format `0x20` and the
/// block length, high byte first; and such data, and no other, names a
/// block length.
pub proof fn the_bytes_of_a_block_length(block_length: u16, data: Seq<u8>)
    ensures
        ({
            let bytes = ResponseView::download(block_length).encoding();
            &&& bytes.len() == 4
            &&& bytes[0] == 0x74
            &&& bytes[1] == 0x20
            &&& bytes[2] == block_length as int / 256
            &&& bytes[3] == block_length as int % 256
        }),
        ResponseView::block_length(data) is Some <==> data.len() == 3 && data[0] == 0x20,
        ResponseView::block_length(data) matches Some(n) ==> n == data[1] * 256 + data[2],
{
    assert(0x34u8 | 0x40 == 0x74) by (bit_vector);
}

/// Three bytes that start with `0x22` are a read of the identifier that the
/// other two spell; of another length they are refused.
pub proof fn what_is_taken_for_a_read(bytes: Seq<u8>)
    requires
        bytes.len() > 0,
        bytes[0] == 0x22,
    ensures
        if bytes.len() == 3 {
            &&& RequestView::parsed(bytes) matches Ok(RequestView::ReadDataByIdentifier { did })
            &&& did == bytes[1] * 256 + bytes[2]
        } else {
            refused_with(bytes, 0x13)
        },
{
}

/// Three bytes or more that start with `0x2e` are a write, to the
/// identifier that the next two spell, of all that follows; fewer are
/// refused.
pub proof fn what_is_taken_for_a_write(bytes: Seq<u8>)
    requires
        bytes.len() > 0,
        bytes[0] == 0x2e,
    ensures
        if bytes.len() >= 3 {
            &&& RequestView::parsed(bytes) matches Ok(
                RequestView::WriteDataByIdentifier { did, data },
            )
            &&& did == bytes[1] * 256 + bytes[2]
            &&& data == bytes.skip(3)
        } else {
            refused_with(bytes, 0x13)
        },
{
    if bytes.len() >= 3 {
        assert(bytes.skip(1).skip(2) =~= bytes.skip(3));
    }
}

/// Four bytes or more that start with `0x31` are a routine where the next
/// is 1, 2 or 3, and no sub-function where it is not; fewer are refused for
/// their length.
pub proof fn what_is_taken_for_a_routine(bytes: Seq<u8>)
    requires
        bytes.len() > 0,
        bytes[0] == 0x31,
    ensures
        if bytes.len() < 4 {
            refused_with(bytes, 0x13)
        } else if bytes[1] < 1 || bytes[1] > 3 {
            refused_with(bytes, 0x12)
        } else {
            &&& RequestView::parsed(bytes) matches Ok(
                RequestView::RoutineControl { control, routine, data },
            )
            &&& control == bytes[1]
            &&& routine == bytes[2] * 256 + bytes[3]
            &&& data == bytes.skip(4)
        },
{
    if bytes.len() >= 4 {
        assert(bytes.skip(1).skip(3) =~= bytes.skip(4));
    }
}

/// Nine bytes that start with `0x34`, whatever the data format, and name
/// the address-and-length format `0x42` are a request for a download;
/// another format is out of range, and another length is refused.
pub proof fn what_is_taken_for_a_download(bytes: Seq<u8>)
    requires
        bytes.len() > 0,
        bytes[0] == 0x34,
    ensures
        if bytes.len() < 3 {
            refused_with(bytes, 0x13)
        } else if bytes[2] != 0x42 {
            refused_with(bytes, 0x31)
        } else if bytes.len() != 9 {
            refused_with(bytes, 0x13)
        } else {
            &&& RequestView::parsed(bytes) matches Ok(
                RequestView::RequestDownload { address, size },
            )
            &&& address == bytes[3] * 256 + bytes[4]
            &&& size == bytes[5] * 0x100_0000 + bytes[6] * 0x1_0000 + bytes[7] * 0x100 + bytes[8]
        },
{
}

/// Two bytes or more that start with `0x36` are a block, numbered by the
/// second, of all that follows; one alone is refused.
pub proof fn what_is_taken_for_a_block(bytes: Seq<u8>)
    requires
        bytes.len() > 0,
        bytes[0] == 0x36,
    ensures
        if bytes.len() >= 2 {
            &&& RequestView::parsed(bytes) matches Ok(RequestView::TransferData { block, data })
            &&& block == bytes[1]
            &&& data == bytes.skip(2)
        } else {
            refused_with(bytes, 0x13)
        },
{
    if bytes.len() >= 2 {
        assert(bytes.skip(1).skip(1) =~= bytes.skip(2));
    }
}

/// `0x37` alone is an exit; with anything after it, it is refused.
pub proof fn what_is_taken_for_an_exit(bytes: Seq<u8>)
    requires
        bytes.len() > 0,
        bytes[0] == 0x37,
    ensures
        if bytes.len() == 1 {
            RequestView::parsed(bytes) == Ok::<RequestView, Negative>(
                RequestView::RequestTransferExit,
            )
        } else {
            refused_with(bytes, 0x13)
        },
{
}

/// A message of no bytes is refused as service zero for its length, and one
/// that starts with any other byte as a service the ECU does not offer.
pub proof fn what_is_taken_for_no_request(bytes: Seq<u8>)
    requires
        bytes.len() > 0 ==> {
            &&& bytes[0] != 0x22
            &&& bytes[0] != 0x2e
            &&& bytes[0] != 0x31
            &&& bytes[0] != 0x34
            &&& bytes[0] != 0x36
            &&& bytes[0] != 0x37
        },
    ensures
        if bytes.len() == 0 {
            RequestView::parsed(bytes) == Err::<RequestView, Negative>(
                Negative { service: 0, code: 0x13 },
            )
        } else {
            refused_with(bytes, 0x11)
        },
{
}

/// The message `bytes` is refused, as the service it starts with, with
/// `code`.
pub open spec fn refused_with(bytes: Seq<u8>, code: u8) -> bool {
    RequestView::parsed(bytes) == Err::<RequestView, Negative>(
        Negative { service: bytes[0], code },
    )
}

/// A message is a negative response where it is `0x7f`, a service and a
/// code, and a positive one where its first byte is not `0x7f` and has bit
/// six set: to the service without that bit, with all that follows.
/// Nothing else is a response.
pub proof fn what_is_taken_for_a_response(bytes: Seq<u8>)
    ensures
        ({
            let parsed = ResponseView::parsed(bytes);
            if bytes.len() == 0 {
                parsed == Err::<ResponseView, ProtocolError>(ProtocolError::EmptyResponse)
            } else if bytes[0] == 0x7f && bytes.len() == 3 {
                &&& parsed matches Ok(ResponseView::Negative(negative))
                &&& negative.service == bytes[1]
                &&& negative.code == bytes[2]
            } else if bytes[0] == 0x7f {
                parsed == Err::<ResponseView, ProtocolError>(ProtocolError::NegativeWithoutCode)
            } else if bytes[0] as int / 64 % 2 == 1 {
                &&& parsed matches Ok(ResponseView::Positive { service, data })
                &&& service == bytes[0] - 0x40
                &&& data == bytes.skip(1)
            } else {
                parsed == Err::<ResponseView, ProtocolError>(ProtocolError::NotAResponse)
            }
        }),
{
    if bytes.len() > 0 {
        lemma_bit_six(bytes[0]);
    }
}

/// Every refusal is heard as one, whatever was asked, whatever service it
/// names and whatever its code: all but `0x78`, which says to wait.
pub proof fn a_refusal_is_heard(asked: u8, service: u8, code: u8)
    ensures
        heard(asked, seq![0x7fu8, service, code]) == if code == 0x78 {
            Ok::<Option<Seq<u8>>, ProtocolError>(None)
        } else {
            Err::<Option<Seq<u8>>, ProtocolError>(
                ProtocolError::Refused(Negative { service, code }),
            )
        },
{
}

/// Data is heard from a message whose first byte is the service that was
/// asked plus `0x40`, and from no other; it is all that follows. Any other
/// positive answer is one to another service, which the error names.
pub proof fn data_is_heard_from_the_answer_that_was_asked(asked: u8, message: Seq<u8>)
    ensures
        heard(asked, message) matches Ok(Some(data)) ==> {
            &&& message.len() > 0
            &&& message[0] == asked + 0x40
            &&& message[0] != 0x7f
            &&& data == message.skip(1)
        },
        message.len() > 0 && message[0] != 0x7f && message[0] as int / 64 % 2 == 1 ==> heard(
            asked,
            message,
        ) == if message[0] == asked + 0x40 {
            Ok::<Option<Seq<u8>>, ProtocolError>(Some(message.skip(1)))
        } else {
            Err::<Option<Seq<u8>>, ProtocolError>(
                ProtocolError::AnotherService { answered: (message[0] - 0x40) as u8, asked },
            )
        },
{
    if message.len() > 0 {
        lemma_bit_six(message[0]);
    }
}

/// A message that is no response is heard as what is wrong with it, and
/// only a negative response of code `0x78` makes a tester wait.
pub proof fn what_is_no_answer_is_heard_as_such(asked: u8, message: Seq<u8>)
    ensures
        message.len() == 0 ==> heard(asked, message) == Err::<Option<Seq<u8>>, ProtocolError>(
            ProtocolError::EmptyResponse,
        ),
        message.len() > 0 && message[0] == 0x7f && message.len() != 3 ==> heard(asked, message)
            == Err::<Option<Seq<u8>>, ProtocolError>(ProtocolError::NegativeWithoutCode),
        message.len() > 0 && message[0] as int / 64 % 2 == 0 ==> heard(asked, message) == Err::<
            Option<Seq<u8>>,
            ProtocolError,
        >(ProtocolError::NotAResponse),
        heard(asked, message) == Ok::<Option<Seq<u8>>, ProtocolError>(None) <==> message.len() == 3
            && message[0] == 0x7f && message[2] == 0x78,
{
    if message.len() > 0 {
        lemma_bit_six(message[0]);
    }
}

/// Bit six of a byte, as a number.
proof fn lemma_bit_six(byte: u8)
    ensures
        (byte & 0x40 != 0) == (byte as int / 64 % 2 == 1),
        byte & 0x40 != 0 ==> byte & !0x40u8 == byte - 0x40 && byte | 0x40 == byte,
        byte & 0x40 == 0 ==> byte | 0x40 == byte + 0x40,
{
    assert((byte & 0x40 != 0) == (byte / 64 % 2 == 1)) by (bit_vector);
    assert(byte & 0x40 != 0 ==> byte & !0x40u8 == byte - 0x40 && byte | 0x40 == byte)
        by (bit_vector);
    assert(byte & 0x40 == 0 ==> byte | 0x40 == byte + 0x40) by (bit_vector);
}

} // verus!
