//! What an ECU answers to every message, byte by byte, and what comes of a
//! download by the blocks that were granted.
use vstd::prelude::*;

use crate::ecu::{Ecu, EcuView};
use crate::laws::layout::{
    the_bytes_of_a_block, the_bytes_of_a_download, the_bytes_of_a_read, the_bytes_of_a_response,
    the_bytes_of_a_routine, the_bytes_of_an_exit, what_is_taken_for_a_block, what_is_taken_for_a_download,
    what_is_taken_for_a_read, what_is_taken_for_a_routine, what_is_taken_for_a_write,
    what_is_taken_for_an_exit, what_is_taken_for_no_request,
};
use crate::service::RequestView;
use crate::transport::UdsTransport;

verus! {

/// The bytes that `ecu` answers to `message`.
pub open spec fn reply(ecu: EcuView, message: Seq<u8>) -> Seq<u8> {
    ecu.answer(message).response.encoding()
}

/// What is put at an identifier is held there, and nothing changes at any
/// other.
pub proof fn what_is_put_is_held(ecu: EcuView, did: u16, bytes: Seq<u8>, other: u16)
    ensures
        ecu.holding(did, bytes).held(did) == Some(bytes),
        other != did ==> ecu.holding(did, bytes).held(other) == ecu.held(other),
        ecu.holding(did, bytes).block_length == ecu.block_length,
        ecu.holding(did, bytes).download == ecu.download,
{
}

/// An ECU that was told nothing holds nothing at any identifier, has no
/// download open, and takes blocks of 4095 bytes.
pub proof fn a_new_ecu_holds_nothing(did: u16, address: u16, size: u32, block: u8, data: Seq<u8>)
    ensures
        EcuView::empty().held(did) is None,
        reply(EcuView::empty(), (RequestView::ReadDataByIdentifier { did }).encoding())
            == seq![0x7fu8, 0x22, 0x31],
        reply(EcuView::empty(), (RequestView::RequestDownload { address, size }).encoding())
            == seq![0x74u8, 0x20, 0x0f, 0xff],
        reply(EcuView::empty(), (RequestView::TransferData { block, data }).encoding())
            == seq![0x7fu8, 0x36, 0x24],
        reply(EcuView::empty(), RequestView::RequestTransferExit.encoding())
            == seq![0x7fu8, 0x37, 0x24],
{
    let read = (RequestView::ReadDataByIdentifier { did }).encoding();
    the_bytes_of_a_read(did);
    what_a_read_is_answered(EcuView::empty(), read);
    let open = (RequestView::RequestDownload { address, size }).encoding();
    the_bytes_of_a_download(address, size);
    what_a_download_is_answered(EcuView::empty(), open);
    the_bytes_of_an_exit();
    nothing_is_taken_with_no_download_open(EcuView::empty(), seq![], block, data);
}

/// An ECU told to take blocks of a length takes that length, but never less
/// than three; what it holds and the download it has open stay.
pub proof fn an_ecu_takes_the_blocks_it_was_told(ecu: Ecu, block_length: u16, told: Ecu)
    requires
        call_ensures(Ecu::in_blocks_of, (ecu, block_length), told),
    ensures
        block_length >= 3 ==> told@.block_length == block_length,
        block_length < 3 ==> told@.block_length == 3,
        told@.identifiers == ecu@.identifiers,
        told@.download == ecu@.download,
{
}

/// An end that was told nothing writes and serves the identifier `0xf190`
/// as an ECU that holds nothing.
pub proof fn an_end_told_nothing(end: UdsTransport, did: u16)
    requires
        call_ensures(UdsTransport::new, (), end) || call_ensures(UdsTransport::loopback, (), end),
    ensures
        end@.did == 0xf190,
        end@.ecu.held(did) is None,
        end@.ecu.download is None,
        end@.ecu.block_length == 4095,
{
}

/// An end told an identifier keeps its ECU, and one told an ECU keeps its
/// identifier.
pub proof fn an_end_keeps_what_it_was_not_told(
    end: UdsTransport,
    did: u16,
    ecu: Ecu,
    told: UdsTransport,
)
    ensures
        call_ensures(UdsTransport::at, (end, did), told) ==> told@.did == did && told@.ecu
            == end@.ecu,
        call_ensures(UdsTransport::serving, (end, ecu), told) ==> told@.ecu == ecu@ && told@.did
            == end@.did,
{
}

/// A read is answered with `0x62`, the identifier and what it holds, or
/// refused as out of range where it holds nothing; it changes nothing.
pub proof fn what_a_read_is_answered(ecu: EcuView, message: Seq<u8>)
    requires
        message.len() == 3,
        message[0] == 0x22,
    ensures
        reply(ecu, message) == match ecu.held((message[1] * 256 + message[2]) as u16) {
            Some(bytes) => seq![0x62u8, message[1], message[2]] + bytes,
            None => seq![0x7fu8, 0x22, 0x31],
        },
        ecu.answer(message).written is None,
        ecu.answer(message).ecu == ecu,
{
    what_is_taken_for_a_read(message);
    let did = (message[1] * 256 + message[2]) as u16;
    the_bytes_of_a_response(ecu.answer(message).response);
    if let Some(bytes) = ecu.held(did) {
        assert(reply(ecu, message) =~= seq![0x62u8, message[1], message[2]] + bytes);
    }
}

/// A write in one message is answered with `0x6e` and the identifier,
/// which then holds all that followed it. What any other identifier holds,
/// the block length and an open download stay.
pub proof fn what_a_write_is_answered(ecu: EcuView, message: Seq<u8>, other: u16)
    requires
        message.len() >= 3,
        message[0] == 0x2e,
    ensures
        ({
            let did = (message[1] * 256 + message[2]) as u16;
            let answer = ecu.answer(message);
            &&& reply(ecu, message) == seq![0x6eu8, message[1], message[2]]
            &&& answer.written == Some(did)
            &&& answer.ecu.held(did) == Some(message.skip(3))
            &&& other != did ==> answer.ecu.held(other) == ecu.held(other)
            &&& answer.ecu.block_length == ecu.block_length
            &&& answer.ecu.download == ecu.download
        }),
{
    what_is_taken_for_a_write(message);
    the_bytes_of_a_response(ecu.answer(message).response);
    assert(reply(ecu, message) =~= seq![0x6eu8, message[1], message[2]]);
}

/// Every routine is granted, whether it is to start, to stop or to give its
/// results: the answer is four bytes, `0x71`, the control and the routine,
/// high byte first. It changes nothing.
pub proof fn every_routine_is_echoed(ecu: EcuView, control: u8, routine: u16, data: Seq<u8>)
    requires
        1 <= control <= 3,
    ensures
        ({
            let message = (RequestView::RoutineControl { control, routine, data }).encoding();
            let bytes = reply(ecu, message);
            &&& bytes.len() == 4
            &&& bytes[0] == 0x71
            &&& bytes[1] == control
            &&& bytes[2] == routine as int / 256
            &&& bytes[3] == routine as int % 256
            &&& ecu.answer(message).written is None
            &&& ecu.answer(message).ecu == ecu
        }),
{
    the_bytes_of_a_routine(control, routine, data);
    what_a_routine_is_answered(
        ecu,
        (RequestView::RoutineControl { control, routine, data }).encoding(),
    );
}

/// Any message that is a routine is answered with `0x71` and the three
/// bytes that follow its first.
pub proof fn what_a_routine_is_answered(ecu: EcuView, message: Seq<u8>)
    requires
        message.len() >= 4,
        message[0] == 0x31,
        1 <= message[1] <= 3,
    ensures
        reply(ecu, message) == seq![0x71u8, message[1], message[2], message[3]],
        ecu.answer(message).written is None,
        ecu.answer(message).ecu == ecu,
{
    what_is_taken_for_a_routine(message);
    the_bytes_of_a_response(ecu.answer(message).response);
    assert(reply(ecu, message) =~= seq![0x71u8, message[1], message[2], message[3]]);
}

/// Every request for a download is granted, of any size and whether or not
/// another is open: the answer is `0x74`, `0x20` and the block length, high
/// byte first. What the ECU holds stays.
pub proof fn what_a_download_is_answered(ecu: EcuView, message: Seq<u8>)
    requires
        opens(message),
    ensures
        ({
            let answer = ecu.answer(message);
            let bytes = reply(ecu, message);
            &&& bytes.len() == 4
            &&& bytes[0] == 0x74
            &&& bytes[1] == 0x20
            &&& bytes[2] == ecu.block_length as int / 256
            &&& bytes[3] == ecu.block_length as int % 256
            &&& answer.written is None
            &&& answer.ecu.identifiers == ecu.identifiers
            &&& answer.ecu.block_length == ecu.block_length
        }),
{
    what_is_taken_for_a_download(message);
    the_bytes_of_a_response(ecu.answer(message).response);
}

/// A message that is no request the ECU takes is answered with `0x7f`, its
/// first byte and the code that refuses it; it changes nothing.
pub proof fn what_is_no_request_is_answered(ecu: EcuView, message: Seq<u8>)
    requires
        RequestView::parsed(message) is Err,
    ensures
        reply(ecu, message) == seq![
            0x7fu8,
            if message.len() == 0 {
                0
            } else {
                message[0]
            },
            RequestView::parsed(message)->Err_0.code,
        ],
        ecu.answer(message).written is None,
        ecu.answer(message).ecu == ecu,
{
    the_bytes_of_a_response(ecu.answer(message).response);
}

/// Whether `message` asks for a download.
pub open spec fn opens(message: Seq<u8>) -> bool {
    message.len() == 9 && message[0] == 0x34 && message[2] == 0x42
}

/// Whether `message` is an exit.
pub open spec fn closes(message: Seq<u8>) -> bool {
    message.len() == 1 && message[0] == 0x37
}

/// Whether `ecu` grants `message` as a block.
pub open spec fn granted(ecu: EcuView, message: Seq<u8>) -> bool {
    reply(ecu, message)[0] == 0x76
}

/// How many of `messages`, answered in order, are granted as blocks.
pub open spec fn blocks_granted(ecu: EcuView, messages: Seq<Seq<u8>>) -> nat
    decreases messages.len(),
{
    if messages.len() == 0 {
        0
    } else {
        let later = blocks_granted(ecu.answer(messages[0]).ecu, messages.skip(1));
        if granted(ecu, messages[0]) {
            1 + later
        } else {
            later
        }
    }
}

/// What the blocks among `messages` that are granted carry, end to end:
/// what follows the service and the counter of each.
pub open spec fn bytes_granted(ecu: EcuView, messages: Seq<Seq<u8>>) -> Seq<u8>
    decreases messages.len(),
{
    if messages.len() == 0 {
        seq![]
    } else {
        let later = bytes_granted(ecu.answer(messages[0]).ecu, messages.skip(1));
        if granted(ecu, messages[0]) {
            messages[0].skip(2) + later
        } else {
            later
        }
    }
}

/// The next block of a download, once it was opened and `messages` were
/// answered, none of which closed it or opened another. Of `n` blocks
/// granted so far, only the counter `(n + 1) % 256` is the next: any other,
/// lower or higher, is refused with `0x73`. The next block is refused with
/// `0x13` where it is longer than the ECU takes and with `0x31` where it
/// runs past the size, and otherwise granted. A refusal changes nothing.
pub proof fn what_a_block_is_answered(
    ecu: EcuView,
    open: Seq<u8>,
    messages: Seq<Seq<u8>>,
    block: u8,
    data: Seq<u8>,
)
    requires
        opens(open),
        forall|i: int|
            0 <= i < messages.len() ==> !opens(#[trigger] messages[i]) && !closes(messages[i]),
    ensures
        ({
            let opened = ecu.answer(open).ecu;
            let after = opened.after(messages);
            let n = blocks_granted(opened, messages);
            let taken = bytes_granted(opened, messages);
            let size = open[5] * 0x100_0000 + open[6] * 0x1_0000 + open[7] * 0x100 + open[8];
            let message = (RequestView::TransferData { block, data }).encoding();
            &&& reply(after, message) == if block != (n + 1) % 256 {
                seq![0x7fu8, 0x36, 0x73]
            } else if data.len() + 2 > ecu.block_length {
                seq![0x7fu8, 0x36, 0x13]
            } else if taken.len() + data.len() > size {
                seq![0x7fu8, 0x36, 0x31]
            } else {
                seq![0x76u8, block]
            }
            &&& after.answer(message).written is None
            &&& after.answer(message).ecu.identifiers == after.identifiers
            &&& !granted(after, message) ==> after.answer(message).ecu == after
        }),
{
    lemma_an_open_download(ecu, open, messages);
    let after = ecu.answer(open).ecu.after(messages);
    let message = (RequestView::TransferData { block, data }).encoding();
    the_bytes_of_a_block(block, data);
    what_is_taken_for_a_block(message);
    assert(message.skip(2) =~= data);
    the_bytes_of_a_response(after.answer(message).response);
    assert(granted(after, message) ==> reply(after, message) =~= seq![0x76u8, block]);
}

/// The exit of a download, once it was opened and `messages` were answered,
/// none of which closed it or opened another. It is granted with the one
/// byte `0x77` where the bytes of the granted blocks are as many as the
/// download was opened for, and these bytes, in their order, are then what
/// its address holds. Else it is refused with `0x24`, and nothing lands.
/// What any other identifier holds stays.
pub proof fn what_an_exit_is_answered(
    ecu: EcuView,
    open: Seq<u8>,
    messages: Seq<Seq<u8>>,
    other: u16,
)
    requires
        opens(open),
        forall|i: int|
            0 <= i < messages.len() ==> !opens(#[trigger] messages[i]) && !closes(messages[i]),
    ensures
        ({
            let opened = ecu.answer(open).ecu;
            let after = opened.after(messages);
            let taken = bytes_granted(opened, messages);
            let address = (open[3] * 256 + open[4]) as u16;
            let size = open[5] * 0x100_0000 + open[6] * 0x1_0000 + open[7] * 0x100 + open[8];
            let exit = seq![0x37u8];
            let left = after.answer(exit).ecu;
            &&& if taken.len() == size {
                &&& reply(after, exit) == seq![0x77u8]
                &&& after.answer(exit).written == Some(address)
                &&& left.held(address) == Some(taken)
                &&& other != address ==> left.held(other) == after.held(other)
            } else {
                &&& reply(after, exit) == seq![0x7fu8, 0x37, 0x24]
                &&& after.answer(exit).written is None
                &&& left.held(other) == after.held(other)
            }
            &&& left.block_length == ecu.block_length
        }),
{
    lemma_an_open_download(ecu, open, messages);
    let after = ecu.answer(open).ecu.after(messages);
    let exit = seq![0x37u8];
    what_is_taken_for_an_exit(exit);
    the_bytes_of_a_response(after.answer(exit).response);
    assert(after.complete() ==> reply(after, exit) =~= seq![0x77u8]);
}

/// A block that was granted and is sent again at once is refused with
/// `0x73`, and changes nothing.
pub proof fn a_repeated_block_is_refused(ecu: EcuView, message: Seq<u8>)
    requires
        granted(ecu, message),
    ensures
        message.len() >= 2,
        message[0] == 0x36,
        reply(ecu.answer(message).ecu, message) == seq![0x7fu8, 0x36, 0x73],
        ecu.answer(message).ecu.answer(message).ecu == ecu.answer(message).ecu,
{
    let taken = ecu.answer(message).ecu;
    lemma_only_a_block_is_granted(ecu, message);
    what_is_taken_for_a_block(message);
    the_bytes_of_a_response(taken.answer(message).response);
}

/// Blocks come in order: of two messages granted as blocks one after the
/// other, the second has the next counter, and after 255 comes 0.
pub proof fn granted_blocks_are_numbered_in_order(ecu: EcuView, first: Seq<u8>, second: Seq<u8>)
    requires
        granted(ecu, first),
        granted(ecu.answer(first).ecu, second),
    ensures
        second[1] == (first[1] + 1) % 256,
{
    let taken = ecu.answer(first).ecu;
    lemma_only_a_block_is_granted(ecu, first);
    lemma_only_a_block_is_granted(taken, second);
    what_is_taken_for_a_block(first);
    what_is_taken_for_a_block(second);
    the_bytes_of_a_response(ecu.answer(first).response);
    the_bytes_of_a_response(taken.answer(second).response);
}

/// With no download open, and none asked for by any of `messages`, every
/// block and every exit is refused with `0x24` and changes nothing.
pub proof fn nothing_is_taken_with_no_download_open(
    ecu: EcuView,
    messages: Seq<Seq<u8>>,
    block: u8,
    data: Seq<u8>,
)
    requires
        ecu.download is None,
        forall|i: int| 0 <= i < messages.len() ==> !opens(#[trigger] messages[i]),
    ensures
        ({
            let after = ecu.after(messages);
            let message = (RequestView::TransferData { block, data }).encoding();
            let exit = seq![0x37u8];
            &&& reply(after, message) == seq![0x7fu8, 0x36, 0x24]
            &&& after.answer(message).written is None
            &&& after.answer(message).ecu == after
            &&& reply(after, exit) == seq![0x7fu8, 0x37, 0x24]
            &&& after.answer(exit).written is None
            &&& after.answer(exit).ecu == after
        }),
    decreases messages.len(),
{
    if messages.len() > 0 {
        let rest = messages.skip(1);
        assert forall|i: int| 0 <= i < rest.len() implies !opens(#[trigger] rest[i]) by {
            assert(rest[i] == messages[i + 1]);
        }
        assert(!opens(messages[0]));
        lemma_what_moves_a_download(ecu, messages[0]);
        nothing_is_taken_with_no_download_open(ecu.answer(messages[0]).ecu, rest, block, data);
    } else {
        let message = (RequestView::TransferData { block, data }).encoding();
        let exit = seq![0x37u8];
        the_bytes_of_a_block(block, data);
        what_is_taken_for_a_block(message);
        what_is_taken_for_an_exit(exit);
        the_bytes_of_a_response(ecu.answer(message).response);
        the_bytes_of_a_response(ecu.answer(exit).response);
    }
}

/// An exit, granted or refused, leaves no download open.
pub proof fn an_exit_leaves_no_download_open(ecu: EcuView)
    ensures
        ecu.answer(seq![0x37u8]).ecu.download is None,
{
    what_is_taken_for_an_exit(seq![0x37u8]);
}

/// Only a block is answered with `0x76`.
proof fn lemma_only_a_block_is_granted(ecu: EcuView, message: Seq<u8>)
    requires
        granted(ecu, message),
    ensures
        message.len() >= 2,
        message[0] == 0x36,
        ecu.block_refusal(message[1], message.skip(2)) is None,
{
    the_bytes_of_a_response(ecu.answer(message).response);
    if message.len() >= 2 && message[0] == 0x36 {
        what_is_taken_for_a_block(message);
    }
}

/// What an answer makes of the download that was open.
proof fn lemma_what_moves_a_download(ecu: EcuView, message: Seq<u8>)
    requires
        !opens(message),
    ensures
        ({
            let after = ecu.answer(message).ecu;
            &&& after.block_length == ecu.block_length
            &&& after.download == if closes(message) {
                None
            } else if granted(ecu, message) {
                ecu.with_block(message.skip(2)).download
            } else {
                ecu.download
            }
            &&& granted(ecu, message) ==> ecu.download is Some
        }),
{
    let response = ecu.answer(message).response;
    the_bytes_of_a_response(response);
    if message.len() == 0 {
        what_is_taken_for_no_request(message);
    } else if message[0] == 0x22 {
        what_is_taken_for_a_read(message);
    } else if message[0] == 0x2e {
        what_is_taken_for_a_write(message);
    } else if message[0] == 0x31 {
        what_is_taken_for_a_routine(message);
    } else if message[0] == 0x34 {
        what_is_taken_for_a_download(message);
    } else if message[0] == 0x36 {
        what_is_taken_for_a_block(message);
    } else if message[0] == 0x37 {
        what_is_taken_for_an_exit(message);
    } else {
        what_is_taken_for_no_request(message);
    }
}

/// What a download has come to: the counter of its next block and the bytes
/// it holds.
proof fn lemma_blocks_add_up(ecu: EcuView, messages: Seq<Seq<u8>>)
    requires
        ecu.download is Some,
        forall|i: int|
            0 <= i < messages.len() ==> !opens(#[trigger] messages[i]) && !closes(messages[i]),
    ensures
        ({
            let after = ecu.after(messages);
            let (was, is) = (ecu.download->0, after.download->0);
            &&& after.block_length == ecu.block_length
            &&& after.download is Some
            &&& is.address == was.address
            &&& is.size == was.size
            &&& is.expected == (was.expected + blocks_granted(ecu, messages)) % 256
            &&& is.bytes == was.bytes + bytes_granted(ecu, messages)
        }),
    decreases messages.len(),
{
    let was = ecu.download->0;
    if messages.len() == 0 {
        assert(was.bytes + seq![] =~= was.bytes);
    } else {
        let rest = messages.skip(1);
        let next = ecu.answer(messages[0]).ecu;
        assert(!opens(messages[0]) && !closes(messages[0]));
        assert forall|i: int| 0 <= i < rest.len() implies !opens(#[trigger] rest[i]) && !closes(
            rest[i],
        ) by {
            assert(rest[i] == messages[i + 1]);
        }
        lemma_what_moves_a_download(ecu, messages[0]);
        lemma_blocks_add_up(next, rest);
        if granted(ecu, messages[0]) {
            assert(was.bytes + messages[0].skip(2) + bytes_granted(next, rest) =~= was.bytes
                + bytes_granted(ecu, messages));
        }
    }
}

/// What a download that was opened by `open` has come to.
proof fn lemma_an_open_download(ecu: EcuView, open: Seq<u8>, messages: Seq<Seq<u8>>)
    requires
        opens(open),
        forall|i: int|
            0 <= i < messages.len() ==> !opens(#[trigger] messages[i]) && !closes(messages[i]),
    ensures
        ({
            let opened = ecu.answer(open).ecu;
            let after = opened.after(messages);
            let download = after.download->0;
            &&& after.block_length == ecu.block_length
            &&& after.download is Some
            &&& download.address == (open[3] * 256 + open[4]) as u16
            &&& download.size == open[5] * 0x100_0000 + open[6] * 0x1_0000 + open[7] * 0x100
                + open[8]
            &&& download.expected == (blocks_granted(opened, messages) + 1) % 256
            &&& download.bytes == bytes_granted(opened, messages)
        }),
{
    let opened = ecu.answer(open).ecu;
    what_is_taken_for_a_download(open);
    lemma_blocks_add_up(opened, messages);
    assert(seq![] + bytes_granted(opened, messages) =~= bytes_granted(opened, messages));
}

} // verus!
