//! What a tester asks to write a Stream: every request, in its order, for a
//! Stream of any length.
use vstd::prelude::*;

use crate::error::ProtocolError;
use crate::laws::layout::the_bytes_of_a_block_length;
use crate::laws::{at_most, the_blocks_of_a_stream};
use crate::service::RequestView;
use crate::transport::UdsTransport;
use crate::write::{chunks_of, WriteView};

verus! {

/// A write can be asked where the Stream and the three bytes before it fit
/// a message, or where four bytes can say how long it is; of any other
/// Stream the error says that it is too long.
pub proof fn which_writes_can_be_asked(did: u16, bytes: Seq<u8>, ceiling: nat)
    ensures
        WriteView::of(did, bytes, ceiling) is Ok <==> bytes.len() + 3 <= ceiling || bytes.len()
            <= 0xffff_ffff,
        WriteView::of(did, bytes, ceiling) is Err ==> WriteView::of(did, bytes, ceiling) == Err::<
            WriteView,
            ProtocolError,
        >(ProtocolError::DownloadTooLong),
{
}

/// The request that comes next once `write` has been answered with
/// `answers`, in order; `None` once it is done.
pub open spec fn asked_after(write: WriteView, answers: Seq<Seq<u8>>) -> Result<
    Option<RequestView>,
    ProtocolError,
>
    decreases answers.len(),
{
    if answers.len() == 0 {
        Ok(write.next())
    } else {
        match write.after(answers[0]) {
            Ok(rest) => asked_after(rest, answers.skip(1)),
            Err(error) => Err(error),
        }
    }
}

/// A Stream that fits a message with the three bytes before it is written
/// in that one request, and the write is done once it is answered, whatever
/// the answer holds.
pub proof fn what_a_short_write_asks(
    did: u16,
    bytes: Seq<u8>,
    ceiling: nat,
    answers: Seq<Seq<u8>>,
)
    requires
        bytes.len() + 3 <= ceiling,
    ensures
        WriteView::of(did, bytes, ceiling) matches Ok(write) && asked_after(write, answers) == Ok::<
            Option<RequestView>,
            ProtocolError,
        >(
            if answers.len() == 0 {
                Some(RequestView::WriteDataByIdentifier { did, data: bytes })
            } else {
                None
            },
        ),
{
    lemma_the_rest_is_asked_in_order(
        seq![RequestView::WriteDataByIdentifier { did, data: bytes }],
        answers,
    );
}

/// A longer Stream is written as a download. First it is opened at the
/// identifier, for as many bytes as the Stream has. The answer to that must
/// be `0x20` and a block length of at least three. Of the requests after
/// it, number `i` is a block with counter `(i + 1) % 256` and the bytes of
/// the Stream from `i` blocks on, as many as fit beside the two bytes of
/// service and counter, until there are none left; then comes the exit, and
/// then nothing.
pub proof fn what_a_long_write_asks(
    did: u16,
    bytes: Seq<u8>,
    ceiling: nat,
    answers: Seq<Seq<u8>>,
)
    requires
        bytes.len() + 3 > ceiling,
        bytes.len() <= 0xffff_ffff,
    ensures
        ({
            &&& WriteView::of(did, bytes, ceiling) matches Ok(write)
            &&& {
                let asked = asked_after(write, answers);
                let first = answers[0];
                let room = first[1] * 256 + first[2] - 2;
                let i = answers.len() - 1;
                if answers.len() == 0 {
                    &&& asked matches Ok(Some(RequestView::RequestDownload { address, size }))
                    &&& address == did
                    &&& size == bytes.len()
                } else if first.len() != 3 || first[0] != 0x20 {
                    asked == Err::<Option<RequestView>, ProtocolError>(ProtocolError::NoBlockLength)
                } else if room < 1 {
                    asked == Err::<Option<RequestView>, ProtocolError>(
                        ProtocolError::BlockHoldsNoData,
                    )
                } else if i * room < bytes.len() {
                    &&& asked matches Ok(Some(RequestView::TransferData { block, data }))
                    &&& block == (i + 1) % 256
                    &&& data == bytes.subrange(
                        i * room,
                        if (i + 1) * room < bytes.len() {
                            (i + 1) * room
                        } else {
                            bytes.len() as int
                        },
                    )
                } else if i == 0 || (i - 1) * room < bytes.len() {
                    asked == Ok::<Option<RequestView>, ProtocolError>(
                        Some(RequestView::RequestTransferExit),
                    )
                } else {
                    asked == Ok::<Option<RequestView>, ProtocolError>(None)
                }
            }
        }),
{
    let write = WriteView::Opening { did, bytes };
    if answers.len() > 0 {
        let first = answers[0];
        let room = first[1] * 256 + first[2] - 2;
        let i = answers.len() - 1;
        the_bytes_of_a_block_length(0, first);
        if first.len() == 3 && first[0] == 0x20 && room >= 1 {
            let requests = WriteView::blocks(bytes, (room + 2) as u16);
            let chunks = chunks_of(bytes, room as nat);
            let n = chunks.len() as int;
            assert(write.after(first) == Ok::<WriteView, ProtocolError>(
                WriteView::Asking { requests },
            ));
            lemma_the_rest_is_asked_in_order(requests, answers.skip(1));
            the_blocks_of_a_stream(bytes, room as nat);
            lemma_how_many_blocks(bytes.len() as int, room, n, i);
            assert((i + 1) * room == i * room + room) by (nonlinear_arith);
            if i < n {
                assert(chunks[i] == bytes.subrange(
                    i * room,
                    at_most(i * room + room, bytes.len() as int),
                ));
            }
        }
    }
}

/// Which block is the last.
proof fn lemma_how_many_blocks(len: int, room: int, n: int, i: int)
    requires
        len >= 0,
        room > 0,
        n == (len + room - 1) / room,
        i >= 0,
    ensures
        n >= 0,
        i < n <==> i * room < len,
        i == n <==> i * room >= len && (i == 0 || (i - 1) * room < len),
{
    assert(n * room >= len && (n - 1) * room < len && n >= 0) by (nonlinear_arith)
        requires
            len >= 0,
            room > 0,
            n == (len + room - 1) / room,
    ;
    if i < n {
        assert(i * room <= (n - 1) * room) by (nonlinear_arith)
            requires
                i <= n - 1,
                room > 0,
        ;
    } else {
        assert(i * room >= n * room) by (nonlinear_arith)
            requires
                i >= n,
                room > 0,
        ;
        if i > n {
            assert((i - 1) * room >= n * room) by (nonlinear_arith)
                requires
                    i - 1 >= n,
                    room > 0,
            ;
        } else if i > 0 {
            assert((i - 1) * room < len);
        }
    }
}

/// Once the blocks are sized, what is asked does not depend on what the
/// answers hold.
proof fn lemma_the_rest_is_asked_in_order(requests: Seq<RequestView>, answers: Seq<Seq<u8>>)
    ensures
        asked_after(WriteView::Asking { requests }, answers) == Ok::<
            Option<RequestView>,
            ProtocolError,
        >(
            if answers.len() < requests.len() {
                Some(requests[answers.len() as int])
            } else {
                None
            },
        ),
    decreases answers.len(),
{
    if answers.len() > 0 {
        let rest = if requests.len() == 0 {
            requests
        } else {
            requests.skip(1)
        };
        lemma_the_rest_is_asked_in_order(rest, answers.skip(1));
    }
}

/// What a read was answered with, after `0x62`, is two bytes of identifier
/// and then what it holds; of an answer too short for both there is nothing.
pub proof fn a_read_is_what_follows_the_identifier(answer: &[u8], bytes: Vec<u8>)
    requires
        call_ensures(UdsTransport::read, (answer,), bytes),
    ensures
        bytes@.len() == if answer@.len() < 2 {
            0
        } else {
            answer@.len() - 2
        },
        forall|i: int| 0 <= i < bytes@.len() ==> #[trigger] bytes@[i] == answer@[2 + i],
{
}

/// What a routine was answered with, after `0x71`, is three bytes of
/// control and routine and then the results; of an answer too short for
/// both there is nothing.
pub proof fn a_result_is_what_follows_the_routine(answer: &[u8], results: Vec<u8>)
    requires
        call_ensures(UdsTransport::routine, (answer,), results),
    ensures
        results@.len() == if answer@.len() < 3 {
            0
        } else {
            answer@.len() - 3
        },
        forall|i: int| 0 <= i < results@.len() ==> #[trigger] results@[i] == answer@[3 + i],
{
}

} // verus!
