//! A write as the tester asks it: in one message when the bytes fit, as a
//! download in the blocks the ECU sizes when they do not.
//!
//! A [`Write`] says which request comes next and takes the data of its
//! positive answer; whoever holds the link asks. [`WriteView`] is what a
//! write has still to ask.
use vstd::prelude::*;
use vstd::slice::{slice_subrange, slice_to_vec};

use crate::error::ProtocolError;
use crate::service::{Request, RequestView, Response, ResponseView};

verus! {

/// What of a block is not data: the service and the counter.
pub const BLOCK_HEAD: usize = 2;

/// What of a write in one message is not data: the service and the
/// identifier.
pub const WRITE_HEAD: usize = 3;

/// A write in progress at the tester.
pub struct Write {
    did: u16,
    bytes: Vec<u8>,
    stage: Stage,
}

/// What a write asks next.
enum Stage {
    /// The one message that holds all the bytes.
    Whole,
    /// The download to be opened.
    Open,
    /// Block `block`, of at most `room` bytes, once `sent` are there.
    Blocks { room: usize, sent: usize, block: u8 },
    /// The download to be closed.
    Exit,
    /// Nothing.
    Done,
}

/// What a write has still to ask.
pub enum WriteView {
    /// The download of `bytes` to `did`, of which the ECU has yet to size
    /// the blocks.
    Opening { did: u16, bytes: Seq<u8> },
    /// `requests`, in order.
    Asking { requests: Seq<RequestView> },
}

/// `bytes` cut into chunks of `room`, the last of them as long as what is
/// left.
pub open spec fn chunks_of(bytes: Seq<u8>, room: nat) -> Seq<Seq<u8>>
    decreases bytes.len(),
{
    if bytes.len() == 0 || room == 0 {
        seq![]
    } else if bytes.len() <= room {
        seq![bytes]
    } else {
        seq![bytes.take(room as int)] + chunks_of(bytes.skip(room as int), room)
    }
}

/// `chunks` as blocks of a download, numbered from `first` and wrapping.
pub open spec fn transfers(chunks: Seq<Seq<u8>>, first: u8) -> Seq<RequestView> {
    Seq::new(
        chunks.len(),
        |i: int|
            RequestView::TransferData { block: ((first + i) % 256) as u8, data: chunks[i] },
    )
}

impl WriteView {
    /// A write of `bytes` to `did` over a link whose messages hold
    /// `ceiling` bytes.
    pub open spec fn of(did: u16, bytes: Seq<u8>, ceiling: nat) -> Result<WriteView, ProtocolError> {
        if bytes.len() + WRITE_HEAD <= ceiling {
            Ok(
                WriteView::Asking {
                    requests: seq![RequestView::WriteDataByIdentifier { did, data: bytes }],
                },
            )
        } else if bytes.len() <= u32::MAX {
            Ok(WriteView::Opening { did, bytes })
        } else {
            Err(ProtocolError::DownloadTooLong)
        }
    }

    /// The blocks of `bytes` as `block_length` sizes them, and the exit.
    pub open spec fn blocks(bytes: Seq<u8>, block_length: u16) -> Seq<RequestView> {
        transfers(chunks_of(bytes, (block_length - BLOCK_HEAD) as nat), 1).push(
            RequestView::RequestTransferExit,
        )
    }

    /// A bound on how many requests are still to come.
    pub open spec fn steps(self) -> nat {
        match self {
            WriteView::Opening { bytes, .. } => bytes.len() + 2,
            WriteView::Asking { requests } => requests.len(),
        }
    }

    /// The request that comes next, until the write is done.
    pub open spec fn next(self) -> Option<RequestView> {
        match self {
            WriteView::Opening { did, bytes } => Some(
                RequestView::RequestDownload { address: did, size: bytes.len() as u32 },
            ),
            WriteView::Asking { requests } => if requests.len() == 0 {
                None
            } else {
                Some(requests[0])
            },
        }
    }

    /// The write once the next request has been answered with `data`.
    pub open spec fn after(self, data: Seq<u8>) -> Result<WriteView, ProtocolError> {
        match self {
            WriteView::Opening { bytes, .. } => match ResponseView::block_length(data) {
                None => Err(ProtocolError::NoBlockLength),
                Some(block_length) => if block_length <= BLOCK_HEAD {
                    Err(ProtocolError::BlockHoldsNoData)
                } else {
                    Ok(WriteView::Asking { requests: WriteView::blocks(bytes, block_length) })
                },
            },
            WriteView::Asking { requests } => if requests.len() == 0 {
                Ok(self)
            } else {
                Ok(WriteView::Asking { requests: requests.skip(1) })
            },
        }
    }

    /// Every answer brings a write nearer to its end.
    pub proof fn lemma_steps(self, data: Seq<u8>)
        requires
            self.next() is Some,
        ensures
            self.after(data) matches Ok(rest) ==> rest.steps() < self.steps(),
    {
        if let WriteView::Opening { bytes, .. } = self {
            if let Some(block_length) = ResponseView::block_length(data) {
                lemma_chunk_count(bytes, (block_length - BLOCK_HEAD) as nat);
            }
        }
    }
}

impl View for Write {
    type V = WriteView;

    closed spec fn view(&self) -> WriteView {
        match self.stage {
            Stage::Whole => WriteView::Asking {
                requests: seq![
                    RequestView::WriteDataByIdentifier { did: self.did, data: self.bytes@ },
                ],
            },
            Stage::Open => WriteView::Opening { did: self.did, bytes: self.bytes@ },
            Stage::Blocks { room, sent, block } => WriteView::Asking {
                requests: transfers(
                    chunks_of(self.bytes@.skip(sent as int), room as nat),
                    block,
                ).push(RequestView::RequestTransferExit),
            },
            Stage::Exit => WriteView::Asking { requests: seq![RequestView::RequestTransferExit] },
            Stage::Done => WriteView::Asking { requests: seq![] },
        }
    }
}

impl Write {
    #[verifier::type_invariant]
    spec fn coherent(self) -> bool {
        match self.stage {
            Stage::Open => self.bytes@.len() <= u32::MAX,
            Stage::Blocks { room, sent, .. } => room > 0 && sent < self.bytes@.len(),
            _ => true,
        }
    }

    /// A write of `bytes` to `did` over a link whose messages hold
    /// `ceiling` bytes.
    ///
    /// # Errors
    /// More bytes than a download can size.
    pub fn new(did: u16, bytes: &[u8], ceiling: usize) -> (write: Result<Write, ProtocolError>)
        ensures
            match write {
                Ok(write) => WriteView::of(did, bytes@, ceiling as nat) == Ok::<
                    WriteView,
                    ProtocolError,
                >(write@),
                Err(error) => WriteView::of(did, bytes@, ceiling as nat) == Err::<
                    WriteView,
                    ProtocolError,
                >(error),
            },
            write is Ok <==> bytes@.len() + 3 <= ceiling || bytes@.len() <= 0xffff_ffff,
            write matches Err(error) ==> error == ProtocolError::DownloadTooLong,
    {
        let stage = if ceiling >= WRITE_HEAD && bytes.len() <= ceiling - WRITE_HEAD {
            Stage::Whole
        } else if bytes.len() as u64 <= u32::MAX as u64 {
            Stage::Open
        } else {
            return Err(ProtocolError::DownloadTooLong);
        };
        Ok(Write { did, bytes: slice_to_vec(bytes), stage })
    }

    /// The request that comes next, until the write is done.
    #[must_use]
    pub fn next(&self) -> (request: Option<Request>)
        ensures
            match request {
                Some(request) => self@.next() == Some(request@),
                None => self@.next() is None,
            },
    {
        proof {
            use_type_invariant(self);
        }
        match self.stage {
            Stage::Whole => Some(
                Request::WriteDataByIdentifier {
                    did: self.did,
                    data: slice_to_vec(self.bytes.as_slice()),
                },
            ),
            Stage::Open => Some(
                Request::RequestDownload { address: self.did, size: self.bytes.len() as u32 },
            ),
            Stage::Blocks { room, sent, block } => {
                let end = self.chunk_end(room, sent);
                let data = slice_to_vec(slice_subrange(self.bytes.as_slice(), sent, end));
                proof {
                    first_chunk(self.bytes@, sent as int, room as nat);
                }
                Some(Request::TransferData { block, data })
            },
            Stage::Exit => Some(Request::RequestTransferExit),
            Stage::Done => None,
        }
    }

    /// Take `data`, the positive answer to the next request.
    ///
    /// # Errors
    /// A download's answer without a block length, or with one that holds
    /// no data.
    pub fn accept(&mut self, data: &[u8]) -> (accepted: Result<(), ProtocolError>)
        ensures
            match accepted {
                Ok(()) => old(self)@.after(data@) == Ok::<WriteView, ProtocolError>(final(self)@),
                Err(error) => {
                    &&& old(self)@.after(data@) == Err::<WriteView, ProtocolError>(error)
                    &&& final(self)@ == old(self)@
                },
            },
    {
        proof {
            use_type_invariant(&*self);
        }
        let ghost before = self@;
        match self.stage {
            Stage::Open => {
                let block_length = match Response::block_length(data) {
                    Ok(block_length) => block_length as usize,
                    Err(error) => {
                        return Err(error);
                    },
                };
                if block_length <= BLOCK_HEAD {
                    return Err(ProtocolError::BlockHoldsNoData);
                }
                assert(self.bytes@.skip(0) =~= self.bytes@);
                if self.bytes.len() == 0 {
                    self.stage = Stage::Exit;
                    assert(self@->requests =~= WriteView::blocks(self.bytes@, block_length as u16));
                } else {
                    self.stage = Stage::Blocks { room: block_length - BLOCK_HEAD, sent: 0, block: 1 };
                }
            },
            Stage::Blocks { room, sent, block } => {
                let end = self.chunk_end(room, sent);
                proof {
                    first_chunk(self.bytes@, sent as int, room as nat);
                }
                if end == self.bytes.len() {
                    self.stage = Stage::Exit;
                } else {
                    self.stage = Stage::Blocks { room, sent: end, block: block.wrapping_add(1) };
                }
                assert(self@->requests =~= before->requests.skip(1));
            },
            Stage::Whole | Stage::Exit | Stage::Done => {
                self.stage = Stage::Done;
                assert(before->requests.len() > 0 ==> self@->requests =~= before->requests.skip(1));
            },
        }
        Ok(())
    }

    /// Where the chunk of `room` bytes that starts at `sent` ends.
    fn chunk_end(&self, room: usize, sent: usize) -> (end: usize)
        requires
            sent < self.bytes@.len(),
        ensures
            end == if sent + room < self.bytes@.len() { sent + room } else {
                self.bytes@.len() as int
            },
    {
        let left = self.bytes.len() - sent;
        if room < left {
            sent + room
        } else {
            self.bytes.len()
        }
    }
}

/// No chunk is empty, so there are no more of them than bytes.
proof fn lemma_chunk_count(bytes: Seq<u8>, room: nat)
    ensures
        chunks_of(bytes, room).len() <= bytes.len(),
    decreases bytes.len(),
{
    if 0 < room < bytes.len() {
        lemma_chunk_count(bytes.skip(room as int), room);
    }
}

/// What is left of `bytes` at `sent` is its first chunk and what is left
/// after that.
proof fn first_chunk(bytes: Seq<u8>, sent: int, room: nat)
    requires
        0 <= sent < bytes.len(),
        room > 0,
    ensures
        ({
            let end = if sent + room < bytes.len() { sent + room } else { bytes.len() as int };
            chunks_of(bytes.skip(sent), room) == seq![bytes.subrange(sent, end)] + chunks_of(
                bytes.skip(end),
                room,
            )
        }),
{
    let left = bytes.skip(sent);
    if sent + room < bytes.len() {
        assert(left.take(room as int) =~= bytes.subrange(sent, sent + room));
        assert(left.skip(room as int) =~= bytes.skip(sent + room));
    } else {
        assert(left =~= bytes.subrange(sent, bytes.len() as int));
        assert(chunks_of(bytes.skip(bytes.len() as int), room) =~= seq![]);
    }
}

} // verus!
