//! What holds of the protocol as a whole: of every request, every answer
//! and every ECU.
//!
//! [`layout`] says where every byte of a message stands, [`serving`] what an
//! ECU answers to any bytes, [`asking`] what a tester asks to write a Stream,
//! and [`naming`] how identifiers, Streams and errors are spelled. The rest
//! stands here.
use vstd::prelude::*;

use crate::ecu::{EcuView, MIN_BLOCK_LENGTH};
use crate::error::ProtocolError;
use crate::loopback::{conversation, Outcome};
use crate::service::{
    code, Negative, RequestView, ResponseView, LENGTH_FORMAT, NEGATIVE, POSITIVE,
    READ_DATA_BY_IDENTIFIER, REQUEST_DOWNLOAD, REQUEST_TRANSFER_EXIT, ROUTINE_CONTROL,
    TRANSFER_DATA,
};
use crate::text::{digit_char, digit_value, digits_value, hex16};
use crate::transport::{after_head, heard, identifier_of};
use crate::wire::{be16, be32, four_bytes_read_back, two_bytes_read_back};
use crate::write::{chunks_of, transfers, WriteView};

pub mod asking;
pub mod layout;
pub mod naming;
pub mod serving;

verus! {

/// Every request an ECU takes encodes and parses back. A routine's control
/// is 1, 2 or 3: an ECU takes no other.
pub proof fn every_request_reads_back(request: RequestView)
    requires
        request matches RequestView::RoutineControl { control, .. } ==> 1 <= control <= 3,
    ensures
        RequestView::parsed(request.encoding()) == Ok::<RequestView, Negative>(request),
{
    let bytes = request.encoding();
    let rest = bytes.skip(1);
    assert(rest =~= request.parameters());
    match request {
        RequestView::ReadDataByIdentifier { did } => {
            two_bytes_read_back(did, be16(did));
        },
        RequestView::WriteDataByIdentifier { did, data } => {
            two_bytes_read_back(did, be16(did));
            assert(rest.take(2) =~= be16(did));
            assert(rest.skip(2) =~= data);
        },
        RequestView::RoutineControl { control, routine, data } => {
            two_bytes_read_back(routine, be16(routine));
            assert(rest.subrange(1, 3) =~= be16(routine));
            assert(rest.skip(3) =~= data);
        },
        RequestView::RequestDownload { address, size } => {
            two_bytes_read_back(address, be16(address));
            four_bytes_read_back(size, be32(size));
            assert(rest.subrange(2, 4) =~= be16(address));
            assert(rest.subrange(4, 8) =~= be32(size));
        },
        RequestView::TransferData { block, data } => {
            assert(rest.skip(1) =~= data);
        },
        RequestView::RequestTransferExit => {},
    }
}

/// A request that parses is the one its bytes encode, but for the data
/// format of a download, which no request keeps: it encodes as zero.
pub proof fn every_parsed_request_writes_back(bytes: Seq<u8>)
    requires
        RequestView::parsed(bytes) is Ok,
    ensures
        RequestView::parsed(bytes)->Ok_0.encoding() == if bytes[0] == REQUEST_DOWNLOAD {
            bytes.update(1, 0)
        } else {
            bytes
        },
{
    let rest = bytes.skip(1);
    let request = RequestView::parsed(bytes)->Ok_0;
    match request {
        RequestView::ReadDataByIdentifier { .. } => {
            two_bytes_read_back(0, rest);
        },
        RequestView::WriteDataByIdentifier { .. } => {
            two_bytes_read_back(0, rest.take(2));
        },
        RequestView::RoutineControl { .. } => {
            two_bytes_read_back(0, rest.subrange(1, 3));
        },
        RequestView::RequestDownload { .. } => {
            two_bytes_read_back(0, rest.subrange(2, 4));
            four_bytes_read_back(0, rest.subrange(4, 8));
        },
        _ => {},
    }
    if bytes[0] == REQUEST_DOWNLOAD {
        assert(request.encoding() =~= bytes.update(1, 0));
    } else {
        assert(request.encoding() =~= bytes);
    }
}

/// Every response an ECU gives encodes and parses back: a negative one
/// always, a positive one to a service whose identifier has the positive
/// bit clear and does not become the mark of a negative one.
pub proof fn every_response_reads_back(response: ResponseView)
    requires
        response matches ResponseView::Positive { service, .. } ==> service & POSITIVE == 0
            && service != NEGATIVE & !POSITIVE,
    ensures
        ResponseView::parsed(response.encoding()) == Ok::<ResponseView, ProtocolError>(response),
{
    if let ResponseView::Positive { service, data } = response {
        assert(service & 0x40 == 0 && service != 0x7f & !0x40u8 ==> service | 0x40 != 0x7f && (
        service | 0x40) & 0x40 != 0 && (service | 0x40) & !0x40u8 == service) by (bit_vector);
        assert(response.encoding().skip(1) =~= data);
    }
}

/// A response that parses is the one its bytes encode.
pub proof fn every_parsed_response_writes_back(bytes: Seq<u8>)
    requires
        ResponseView::parsed(bytes) is Ok,
    ensures
        ResponseView::parsed(bytes)->Ok_0.encoding() == bytes,
{
    let first = bytes[0];
    assert(first & 0x40 != 0 ==> (first & !0x40u8) | 0x40 == first) by (bit_vector);
    assert(ResponseView::parsed(bytes)->Ok_0.encoding() =~= bytes);
}

/// No request is a response.
pub proof fn no_request_is_a_response(request: RequestView)
    ensures
        ResponseView::parsed(request.encoding()) == Err::<ResponseView, ProtocolError>(
            ProtocolError::NotAResponse,
        ),
{
    assert(request.encoding()[0] == request.service());
    the_services_have_the_positive_bit_clear(request);
}

/// Every service here leaves the positive bit to its answer, which adds
/// `0x40` to it.
pub proof fn the_services_have_the_positive_bit_clear(request: RequestView)
    ensures
        request.service() & POSITIVE == 0,
        request.service() != NEGATIVE & !POSITIVE,
        request.service() | POSITIVE == request.service() + 0x40,
{
    assert(0x22u8 & 0x40 == 0 && 0x2eu8 & 0x40 == 0 && 0x31u8 & 0x40 == 0 && 0x34u8 & 0x40 == 0
        && 0x36u8 & 0x40 == 0 && 0x37u8 & 0x40 == 0 && 0x7fu8 & !0x40u8 == 0x3f) by (bit_vector);
    assert(0x22u8 | 0x40 == 0x62 && 0x2eu8 | 0x40 == 0x6e && 0x31u8 | 0x40 == 0x71 && 0x34u8 | 0x40
        == 0x74 && 0x36u8 | 0x40 == 0x76 && 0x37u8 | 0x40 == 0x77) by (bit_vector);
}

/// The block length of a download's answer reads back.
pub proof fn a_block_length_reads_back(block_length: u16)
    ensures
        ResponseView::download(block_length) matches ResponseView::Positive { data, .. }
            && ResponseView::block_length(data) == Some(block_length),
{
    two_bytes_read_back(block_length, be16(block_length));
    assert((seq![LENGTH_FORMAT] + be16(block_length)).skip(1) =~= be16(
        block_length,
    ));
}

/// A negative response with the code for a pending answer is waited
/// through, whatever service it names.
pub proof fn a_pending_answer_is_waited_for(asked: u8, service: u8)
    ensures
        heard(asked, (Negative { service, code: code::RESPONSE_PENDING }).encoding()) == Ok::<
            Option<Seq<u8>>,
            ProtocolError,
        >(None),
{
}

/// An ECU answers every message about the service it names: positively with
/// that identifier plus `0x40`, or negatively with `0x7f`, the identifier
/// and a code, and never with a pending one. Either way the tester reads
/// the response that the ECU gave.
pub proof fn every_answer_is_heard(ecu: EcuView, message: Seq<u8>)
    requires
        message.len() > 0,
    ensures
        ({
            let response = ecu.answer(message).response;
            &&& ResponseView::parsed(response.encoding()) == Ok::<ResponseView, ProtocolError>(
                response,
            )
            &&& match response {
                ResponseView::Positive { service, data } => {
                    &&& service == message[0]
                    &&& response.encoding() == seq![(service + 0x40) as u8] + data
                    &&& heard(message[0], response.encoding()) == Ok::<
                        Option<Seq<u8>>,
                        ProtocolError,
                    >(Some(data))
                },
                ResponseView::Negative(negative) => {
                    &&& negative.service == message[0]
                    &&& response.encoding() == seq![0x7fu8, negative.service, negative.code]
                    &&& heard(message[0], response.encoding()) == Err::<
                        Option<Seq<u8>>,
                        ProtocolError,
                    >(ProtocolError::Refused(negative))
                },
            }
        }),
{
    let response = ecu.answer(message).response;
    if let Ok(request) = RequestView::parsed(message) {
        the_services_have_the_positive_bit_clear(request);
        assert(request.service() == message[0]);
    }
    every_response_reads_back(response);
}

/// Only a completed write changes what an ECU holds, and only at the
/// identifier it reports; a refusal completes none.
pub proof fn only_a_completed_write_changes_what_is_held(ecu: EcuView, message: Seq<u8>)
    ensures
        ({
            let answer = ecu.answer(message);
            &&& answer.response is Negative ==> answer.written is None
            &&& match answer.written {
                None => answer.ecu.identifiers == ecu.identifiers,
                Some(did) => {
                    &&& answer.ecu.held(did) is Some
                    &&& forall|other: u16|
                        other != did ==> #[trigger] answer.ecu.held(other) == ecu.held(other)
                },
            }
        }),
{
}

/// A refused request leaves the ECU as it was; but an exit, refused or not,
/// leaves no download open.
pub proof fn a_refusal_leaves_the_ecu_as_it_was(ecu: EcuView, message: Seq<u8>)
    ensures
        ({
            let answer = ecu.answer(message);
            answer.response is Negative ==> answer.ecu == if RequestView::parsed(message) == Ok::<
                RequestView,
                Negative,
            >(RequestView::RequestTransferExit) {
                EcuView { download: None, ..ecu }
            } else {
                ecu
            }
        }),
{
}

/// A read and a routine leave the ECU as it was.
pub proof fn reads_and_routines_change_nothing(ecu: EcuView, message: Seq<u8>)
    requires
        message.len() > 0,
        message[0] == READ_DATA_BY_IDENTIFIER || message[0] == ROUTINE_CONTROL,
    ensures
        ecu.answer(message).ecu == ecu,
        ecu.answer(message).written is None,
{
}

/// No run of messages changes the block length an ECU takes, and an ECU
/// that was valid stays so.
pub proof fn every_ecu_stays_valid(ecu: EcuView, messages: Seq<Seq<u8>>)
    ensures
        ecu.after(messages).block_length == ecu.block_length,
        ecu.valid() ==> ecu.after(messages).valid(),
    decreases messages.len(),
{
    if messages.len() > 0 {
        every_ecu_stays_valid(ecu.answer(messages[0]).ecu, messages.skip(1));
    }
}

/// What a write in one message puts at an identifier, a read of it gives
/// back, and a read of any other identifier gives what it gave before.
pub proof fn a_write_reads_back(ecu: EcuView, did: u16, data: Seq<u8>, other: u16)
    ensures
        ({
            let write = RequestView::WriteDataByIdentifier { did, data };
            let written = ecu.answer(write.encoding());
            let read = RequestView::ReadDataByIdentifier { did };
            let read_other = RequestView::ReadDataByIdentifier { did: other };
            &&& written.written == Some(did)
            &&& heard(write.service(), written.response.encoding()) == Ok::<
                Option<Seq<u8>>,
                ProtocolError,
            >(Some(be16(did)))
            &&& heard(
                read.service(),
                written.ecu.answer(read.encoding()).response.encoding(),
            ) matches Ok(Some(answer)) && after_head(answer, 2) == data
            &&& other != did ==> written.ecu.answer(read_other.encoding()).response == ecu.answer(
                read_other.encoding(),
            ).response
        }),
{
    let write = RequestView::WriteDataByIdentifier { did, data };
    let read = RequestView::ReadDataByIdentifier { did };
    every_request_reads_back(write);
    every_request_reads_back(read);
    every_request_reads_back(RequestView::ReadDataByIdentifier { did: other });
    let written = ecu.answer(write.encoding());
    every_answer_is_heard(ecu, write.encoding());
    every_answer_is_heard(written.ecu, read.encoding());
    assert((be16(did) + data).skip(2) =~= data);
}

/// An exit with no download open, or with one that is short, is refused as
/// out of sequence, and nothing lands.
pub proof fn a_short_download_does_not_land(ecu: EcuView)
    requires
        !ecu.complete(),
    ensures
        ecu.answer(RequestView::RequestTransferExit.encoding()) == (EcuView {
            download: None,
            ..ecu
        }).refusing(REQUEST_TRANSFER_EXIT, code::REQUEST_SEQUENCE_ERROR),
{
    every_request_reads_back(RequestView::RequestTransferExit);
}

/// The chunks of a Stream, end to end, are the Stream; each holds at least
/// a byte and at most `room`.
pub proof fn chunks_make_the_stream(bytes: Seq<u8>, room: nat)
    requires
        room > 0,
    ensures
        chunks_of(bytes, room).flatten() == bytes,
        forall|i: int|
            0 <= i < chunks_of(bytes, room).len() ==> 0 < #[trigger] chunks_of(
                bytes,
                room,
            )[i].len() <= room,
    decreases bytes.len(),
{
    let chunks = chunks_of(bytes, room);
    if bytes.len() == 0 {
        assert(chunks.flatten() =~= bytes);
    } else if bytes.len() <= room {
        assert(chunks.drop_first().flatten() =~= seq![]);
        assert(chunks.flatten() =~= bytes);
    } else {
        let rest = bytes.skip(room as int);
        chunks_make_the_stream(rest, room);
        assert(chunks.drop_first() =~= chunks_of(rest, room));
        assert(chunks.flatten() =~= bytes);
        assert forall|i: int| 0 <= i < chunks.len() implies 0 < #[trigger] chunks[i].len()
            <= room by {
            if i > 0 {
                assert(chunks[i] == chunks_of(rest, room)[i - 1]);
            }
        }
    }
}

/// A write that is asked in one message fits it, and a block of a download
/// fits the block length it was cut for.
pub proof fn what_a_write_asks_fits(did: u16, bytes: Seq<u8>, ceiling: nat, block_length: u16)
    requires
        block_length >= MIN_BLOCK_LENGTH,
    ensures
        WriteView::of(did, bytes, ceiling) matches Ok(WriteView::Asking { requests }) ==> {
            &&& requests.len() == 1
            &&& requests[0].encoding().len() <= ceiling
        },
        forall|i: int|
            0 <= i < WriteView::blocks(bytes, block_length).len() ==> (#[trigger] WriteView::blocks(
                bytes,
                block_length,
            )[i]).encoding().len() <= block_length,
{
    chunks_make_the_stream(bytes, (block_length - 2) as nat);
    assert forall|i: int| 0 <= i < WriteView::blocks(bytes, block_length).len() implies (
    #[trigger] WriteView::blocks(bytes, block_length)[i]).encoding().len() <= block_length by {
        let chunks = chunks_of(bytes, (block_length - 2) as nat);
        if i < chunks.len() {
            assert(chunks[i].len() <= block_length - 2);
        }
    }
}

/// However a download is cut into blocks, so long as the ECU takes each of
/// them and together they are what was left to come, every block is granted
/// and the whole lands on the exit, at the address the download was opened
/// to and nowhere else.
pub proof fn a_download_lands_whole(ecu: EcuView, chunks: Seq<Seq<u8>>)
    requires
        ecu.download matches Some(download) && download.bytes.len() + chunks.flatten().len()
            == download.size,
        forall|i: int|
            0 <= i < chunks.len() ==> (#[trigger] chunks[i]).len() + 2 <= ecu.block_length,
    ensures
        ({
            let download = ecu.download->0;
            let bytes = download.bytes + chunks.flatten();
            conversation(
                WriteView::Asking {
                    requests: transfers(chunks, download.expected).push(
                        RequestView::RequestTransferExit,
                    ),
                },
                ecu,
            ) == Some(
                Outcome {
                    arrived: seq![(download.address, bytes)],
                    ecu: (EcuView { download: None, ..ecu }).holding(download.address, bytes),
                },
            )
        }),
    decreases chunks.len(),
{
    let download = ecu.download->0;
    let bytes = download.bytes + chunks.flatten();
    let requests = transfers(chunks, download.expected).push(RequestView::RequestTransferExit);
    let write = WriteView::Asking { requests };
    let rest = WriteView::Asking { requests: requests.skip(1) };
    if chunks.len() == 0 {
        let exit = RequestView::RequestTransferExit;
        every_request_reads_back(exit);
        every_answer_is_heard(ecu, exit.encoding());
        assert(bytes =~= download.bytes);
        let answer = ecu.answer(exit.encoding());
        assert(conversation(rest, answer.ecu) == Some(
            Outcome { arrived: seq![], ecu: answer.ecu },
        ));
        assert(seq![(download.address, bytes)] + seq![] =~= seq![(download.address, bytes)]);
    } else {
        let block = requests[0];
        assert(block == RequestView::TransferData { block: download.expected, data: chunks[0] });
        every_request_reads_back(block);
        every_answer_is_heard(ecu, block.encoding());
        let taken = ecu.answer(block.encoding()).ecu;
        let left = chunks.drop_first();
        assert(chunks.flatten() == chunks.first() + left.flatten());
        assert(taken == ecu.with_block(chunks[0]));
        a_download_lands_whole(taken, left);
        assert(rest->requests =~= transfers(left, taken.download->0.expected).push(
            RequestView::RequestTransferExit,
        ));
        assert(taken.download->0.bytes + left.flatten() =~= bytes);
    }
}

/// What a tester writes arrives: a Stream that fits a message, or that four
/// bytes can size, is granted at every step, by any ECU whose blocks hold a
/// byte, and its bytes arrive as one Stream at the identifier they were
/// written to. What the ECU holds elsewhere stays; so does an open download
/// where the Stream fits a message, and else none is open after.
pub proof fn a_write_arrives(ecu: EcuView, did: u16, bytes: Seq<u8>, ceiling: nat)
    requires
        ecu.block_length >= 3,
        bytes.len() + 3 <= ceiling || bytes.len() <= 0xffff_ffff,
    ensures
        ({
            &&& WriteView::of(did, bytes, ceiling) matches Ok(write)
            &&& conversation(write, ecu) matches Some(outcome)
            &&& outcome.arrived == seq![(did, bytes)]
            &&& outcome.ecu.identifiers == ecu.identifiers.insert(did, bytes)
            &&& outcome.ecu.block_length == ecu.block_length
            &&& outcome.ecu.download == if bytes.len() + 3 <= ceiling {
                ecu.download
            } else {
                None
            }
        }),
{
    let write = WriteView::of(did, bytes, ceiling)->Ok_0;
    let request = write.next()->0;
    every_request_reads_back(request);
    every_answer_is_heard(ecu, request.encoding());
    let answer = ecu.answer(request.encoding());
    match write {
        WriteView::Asking { requests } => {
            let rest = WriteView::Asking { requests: requests.skip(1) };
            assert(conversation(rest, answer.ecu) == Some(
                Outcome { arrived: seq![], ecu: answer.ecu },
            ));
            assert(seq![(did, bytes)] + seq![] =~= seq![(did, bytes)]);
        },
        WriteView::Opening { .. } => {
            let room = (ecu.block_length - 2) as nat;
            let chunks = chunks_of(bytes, room);
            a_block_length_reads_back(ecu.block_length);
            chunks_make_the_stream(bytes, room);
            a_download_lands_whole(answer.ecu, chunks);
            assert(answer.ecu.download->0.bytes + chunks.flatten() =~= bytes);
        },
    }
}

/// What a tester writes, a read gives back, in one message or as a
/// download.
pub proof fn what_is_written_reads_back(ecu: EcuView, did: u16, bytes: Seq<u8>, ceiling: nat)
    requires
        ecu.block_length >= 3,
        bytes.len() + 3 <= ceiling || bytes.len() <= 0xffff_ffff,
    ensures
        ({
            let read = RequestView::ReadDataByIdentifier { did };
            &&& WriteView::of(did, bytes, ceiling) matches Ok(write)
            &&& conversation(write, ecu) matches Some(outcome)
            &&& outcome.ecu.held(did) == Some(bytes)
            &&& heard(
                read.service(),
                outcome.ecu.answer(read.encoding()).response.encoding(),
            ) matches Ok(Some(answer))
            &&& after_head(answer, 2) == bytes
        }),
{
    let read = RequestView::ReadDataByIdentifier { did };
    a_write_arrives(ecu, did, bytes, ceiling);
    let outcome = conversation(WriteView::of(did, bytes, ceiling)->Ok_0, ecu)->0;
    every_request_reads_back(read);
    every_answer_is_heard(outcome.ecu, read.encoding());
    assert((be16(did) + bytes).skip(2) =~= bytes);
}

/// A block that is refused leaves the ECU as it was, so none of its bytes
/// ever lands.
pub proof fn a_refused_block_changes_nothing(ecu: EcuView, block: u8, data: Seq<u8>)
    requires
        ecu.block_refusal(block, data) is Some,
    ensures
        ecu.answer((RequestView::TransferData { block, data }).encoding()) == ecu.refusing(
            TRANSFER_DATA,
            ecu.block_refusal(block, data)->0,
        ),
        ecu.refusing(TRANSFER_DATA, ecu.block_refusal(block, data)->0).ecu == ecu,
{
    every_request_reads_back(RequestView::TransferData { block, data });
}

/// Whether `message` is none that moves the download `ecu` has open: a
/// read, a routine, a write in one message, a block that is refused, or no
/// request at all.
pub open spec fn moves_no_download(ecu: EcuView, message: Seq<u8>) -> bool {
    match RequestView::parsed(message) {
        Ok(RequestView::RequestDownload { .. }) => false,
        Ok(RequestView::RequestTransferExit) => false,
        Ok(RequestView::TransferData { block, data }) => ecu.block_refusal(block, data) is Some,
        _ => true,
    }
}

/// Reads, routines, writes in one message, blocks that are refused and
/// requests that do not parse, however many, leave an open download as it
/// was: the next block is refused or taken as it would have been, and
/// leaves the download that it would have left.
pub proof fn an_open_download_stays_as_it_was(
    ecu: EcuView,
    messages: Seq<Seq<u8>>,
    block: u8,
    data: Seq<u8>,
)
    requires
        forall|i: int| 0 <= i < messages.len() ==> moves_no_download(ecu, #[trigger] messages[i]),
    ensures
        ({
            let after = ecu.after(messages);
            &&& after.download == ecu.download
            &&& after.block_refusal(block, data) == ecu.block_refusal(block, data)
            &&& after.with_block(data).download == ecu.with_block(data).download
            &&& after.complete() == ecu.complete()
        }),
    decreases messages.len(),
{
    if messages.len() > 0 {
        let next = ecu.answer(messages[0]).ecu;
        let rest = messages.skip(1);
        assert(moves_no_download(ecu, messages[0]));
        assert forall|i: int| 0 <= i < rest.len() implies moves_no_download(
            next,
            #[trigger] rest[i],
        ) by {
            assert(rest[i] == messages[i + 1]);
        }
        an_open_download_stays_as_it_was(next, rest, block, data);
    }
}

/// An exit, granted or refused, leaves no download open, and none is open
/// until another is asked for: whatever else comes in between, every block
/// and every exit is refused as out of sequence. So a short download cannot
/// be resumed.
pub proof fn no_download_is_open_after_an_exit(
    ecu: EcuView,
    messages: Seq<Seq<u8>>,
    block: u8,
    data: Seq<u8>,
)
    requires
        forall|i: int|
            0 <= i < messages.len() ==> !(RequestView::parsed(#[trigger] messages[i]) matches Ok(
                RequestView::RequestDownload { .. },
            )),
    ensures
        ({
            let exit = RequestView::RequestTransferExit;
            let transfer = RequestView::TransferData { block, data };
            let after = ecu.answer(exit.encoding()).ecu.after(messages);
            &&& after.download is None
            &&& after.block_refusal(block, data) == Some(code::REQUEST_SEQUENCE_ERROR)
            &&& after.answer(transfer.encoding()) == after.refusing(
                TRANSFER_DATA,
                code::REQUEST_SEQUENCE_ERROR,
            )
            &&& after.answer(exit.encoding()) == after.refusing(
                REQUEST_TRANSFER_EXIT,
                code::REQUEST_SEQUENCE_ERROR,
            )
        }),
{
    let exit = RequestView::RequestTransferExit;
    every_request_reads_back(exit);
    every_request_reads_back(RequestView::TransferData { block, data });
    lemma_no_download_opens(ecu.answer(exit.encoding()).ecu, messages);
}

/// Only a request for a download opens one.
proof fn lemma_no_download_opens(ecu: EcuView, messages: Seq<Seq<u8>>)
    requires
        ecu.download is None,
        forall|i: int|
            0 <= i < messages.len() ==> !(RequestView::parsed(#[trigger] messages[i]) matches Ok(
                RequestView::RequestDownload { .. },
            )),
    ensures
        ecu.after(messages).download is None,
    decreases messages.len(),
{
    if messages.len() > 0 {
        let rest = messages.skip(1);
        assert forall|i: int| 0 <= i < rest.len() implies !(RequestView::parsed(
            #[trigger] rest[i],
        ) matches Ok(RequestView::RequestDownload { .. })) by {
            assert(rest[i] == messages[i + 1]);
        }
        assert(!(RequestView::parsed(messages[0]) matches Ok(RequestView::RequestDownload { .. })));
        lemma_no_download_opens(ecu.answer(messages[0]).ecu, rest);
    }
}

/// `n`, or `bound` where that is less.
pub open spec fn at_most(n: int, bound: int) -> int {
    if n < bound {
        n
    } else {
        bound
    }
}

/// Block `i` of a Stream holds the `room` bytes from `i * room` on, the
/// last one what is left of them, and there are as many blocks as it takes.
pub proof fn the_blocks_of_a_stream(bytes: Seq<u8>, room: nat)
    requires
        room > 0,
    ensures
        chunks_of(bytes, room).len() == (bytes.len() + room - 1) / room as int,
        forall|i: int|
            0 <= i < chunks_of(bytes, room).len() ==> #[trigger] chunks_of(bytes, room)[i]
                == bytes.subrange(i * room, at_most(i * room + room, bytes.len() as int)),
    decreases bytes.len(),
{
    let chunks = chunks_of(bytes, room);
    let len = bytes.len() as int;
    let r = room as int;
    if len == 0 {
        assert((r - 1) / r == 0) by (nonlinear_arith)
            requires
                r > 0,
        ;
    } else if len <= r {
        assert((len + r - 1) / r == 1) by (nonlinear_arith)
            requires
                0 < len <= r,
        ;
        assert(0 * r == 0);
        assert(bytes.subrange(0, len) =~= bytes);
        assert(chunks[0] == bytes.subrange(0 * r, at_most(0 * r + r, len)));
    } else {
        let rest = bytes.skip(r);
        the_blocks_of_a_stream(rest, room);
        assert((len + r - 1) / r == (len - r + r - 1) / r + 1) by (nonlinear_arith)
            requires
                r > 0,
        ;
        assert forall|i: int| 0 <= i < chunks.len() implies #[trigger] chunks[i] == bytes.subrange(
            i * room,
            at_most(i * room + room, len),
        ) by {
            if i == 0 {
                assert(bytes.subrange(0, r) =~= bytes.take(r));
            } else {
                let j = i - 1;
                let end = at_most(j * r + r, len - r);
                assert(chunks[i] == chunks_of(rest, room)[j]);
                assert(j * r + r == i * r && 0 <= j * r) by (nonlinear_arith)
                    requires
                        j == i - 1,
                        0 <= j,
                        0 < r,
                ;
                lemma_block_starts_inside(len - r, r, j);
                assert(rest.subrange(j * r, end) =~= bytes.subrange(j * r + r, end + r));
            }
        }
    }
}

/// A block that there is starts before the Stream ends.
proof fn lemma_block_starts_inside(len: int, r: int, j: int)
    requires
        r > 0,
        len > 0,
        0 <= j < (len + r - 1) / r,
    ensures
        j * r < len,
{
    let n = (len + r - 1) / r;
    assert(n * r <= len + r - 1) by (nonlinear_arith)
        requires
            n == (len + r - 1) / r,
            r > 0,
            len > 0,
    ;
    assert(j * r <= n * r - r) by (nonlinear_arith)
        requires
            j <= n - 1,
            r > 0,
    ;
}

/// The identifier that ends the URI of a Stream is one that a target can
/// name.
pub proof fn an_origin_can_be_a_target(own: u16, did: u16)
    ensures
        identifier_of(own, hex16(did)) == Some(did),
{
    let path = hex16(did);
    let digits = path.skip(2);
    reveal_strlit("0x");
    assert("0x"@ =~= path.subrange(0, 2));
    assert(forall|n: int| 0 <= n < 16 ==> digit_value(#[trigger] digit_char(n)) == Some(n as nat));
    reveal_with_fuel(digits_value, 5);
    assert(did == (did / 4096) * 4096 + (did / 256 % 16) * 256 + (did / 16 % 16) * 16 + did % 16);
    assert(digits_value(digits) == did);
}

} // verus!
