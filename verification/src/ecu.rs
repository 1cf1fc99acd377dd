//! One electronic control unit's worth of ISO 14229: the identifiers it
//! holds, the routines it runs, and the download it has open.
//!
//! An ECU answers every request with exactly one response. A write to a
//! data identifier that fits one message lands at once; a longer one is
//! opened with `RequestDownload` to the identifier's address, arrives in
//! `TransferData` blocks the ECU sized, and lands on `RequestTransferExit`.
//! Either way the ECU says which identifier was written, so whoever serves
//! as it can hand the bytes on as a Stream.
//!
//! [`EcuView`] is an ECU as a mathematical value, and [`EcuView::answer`]
//! is the one answer it gives to any message.
use std::collections::HashMap;
use vstd::prelude::*;
use vstd::slice::slice_to_vec;

use crate::service::{code, Negative, Request, RequestView, Response, ResponseView};
use crate::wire::{be16, push16};

verus! {

broadcast use vstd::std_specs::hash::group_hash_axioms;

/// The block length an ECU takes unless told otherwise: what one ISO-TP
/// message holds, counting the service and the counter.
pub const MAX_BLOCK_LENGTH: u16 = 4095;

/// The least block length that carries a byte.
pub const MIN_BLOCK_LENGTH: u16 = 3;

/// A download in progress.
struct Download {
    address: u16,
    size: u32,
    expected: u8,
    bytes: Vec<u8>,
}

/// An ECU: what it holds by data identifier, and the download it has open.
pub struct Ecu {
    identifiers: HashMap<u16, Vec<u8>>,
    block_length: u16,
    download: Option<Download>,
}

/// A download in progress as a mathematical value: `bytes` of the `size`
/// have come, and the next block is numbered `expected`.
pub struct DownloadView {
    pub address: u16,
    pub size: u32,
    pub expected: u8,
    pub bytes: Seq<u8>,
}

/// An ECU as a mathematical value.
pub struct EcuView {
    pub identifiers: Map<u16, Seq<u8>>,
    pub block_length: u16,
    pub download: Option<DownloadView>,
}

/// One answer of an ECU: the response, the identifier that a write has just
/// completed, and the ECU that the request leaves behind.
pub struct Answer {
    pub response: ResponseView,
    pub written: Option<u16>,
    pub ecu: EcuView,
}

impl Download {
    spec fn model(self) -> DownloadView {
        DownloadView {
            address: self.address,
            size: self.size,
            expected: self.expected,
            bytes: self.bytes@,
        }
    }
}

impl View for Ecu {
    type V = EcuView;

    closed spec fn view(&self) -> EcuView {
        EcuView {
            identifiers: self.identifiers@.map_values(|bytes: Vec<u8>| bytes@),
            block_length: self.block_length,
            download: match self.download {
                Some(download) => Some(download.model()),
                None => None,
            },
        }
    }
}

impl EcuView {
    /// What every ECU keeps: a block holds at least a byte, and a download
    /// never holds more than it was opened for.
    pub open spec fn valid(self) -> bool {
        &&& self.block_length >= MIN_BLOCK_LENGTH
        &&& self.download matches Some(download) ==> download.bytes.len() <= download.size
    }

    /// An ECU holding nothing.
    pub open spec fn empty() -> EcuView {
        EcuView { identifiers: Map::empty(), block_length: MAX_BLOCK_LENGTH, download: None }
    }

    /// The same ECU with `bytes` at `did`.
    pub open spec fn holding(self, did: u16, bytes: Seq<u8>) -> EcuView {
        EcuView { identifiers: self.identifiers.insert(did, bytes), ..self }
    }

    /// What `did` holds.
    pub open spec fn held(self, did: u16) -> Option<Seq<u8>> {
        if self.identifiers.dom().contains(did) {
            Some(self.identifiers[did])
        } else {
            None
        }
    }

    /// The code that refuses block `block` of `data`, if one does: no
    /// download is open, the block is not the next, it is longer than the
    /// ECU takes, or it runs past the size.
    pub open spec fn block_refusal(self, block: u8, data: Seq<u8>) -> Option<u8> {
        match self.download {
            None => Some(code::REQUEST_SEQUENCE_ERROR),
            Some(download) => if block != download.expected {
                Some(code::WRONG_BLOCK_SEQUENCE_COUNTER)
            } else if data.len() + 2 > self.block_length {
                Some(code::INCORRECT_MESSAGE_LENGTH)
            } else if download.bytes.len() + data.len() > download.size {
                Some(code::REQUEST_OUT_OF_RANGE)
            } else {
                None
            },
        }
    }

    /// The ECU once it has taken `data` as the next block.
    pub open spec fn with_block(self, data: Seq<u8>) -> EcuView {
        let download = self.download->0;
        EcuView {
            download: Some(
                DownloadView {
                    expected: ((download.expected + 1) % 256) as u8,
                    bytes: download.bytes + data,
                    ..download
                },
            ),
            ..self
        }
    }

    /// Whether the open download, if there is one, has all its bytes.
    pub open spec fn complete(self) -> bool {
        self.download matches Some(download) && download.bytes.len() == download.size
    }

    /// The ECU refusing `service` with `code`.
    pub open spec fn refusing(self, service: u8, code: u8) -> Answer {
        Answer {
            response: ResponseView::Negative(Negative { service, code }),
            written: None,
            ecu: self,
        }
    }

    /// The ECU answering `service` with `data`.
    pub open spec fn granting(self, service: u8, data: Seq<u8>, written: Option<u16>) -> Answer {
        Answer { response: ResponseView::Positive { service, data }, written, ecu: self }
    }

    /// The answer to `request`.
    pub open spec fn answer_to(self, request: RequestView) -> Answer {
        let service = request.service();
        match request {
            RequestView::ReadDataByIdentifier { did } => match self.held(did) {
                Some(bytes) => self.granting(service, be16(did) + bytes, None),
                None => self.refusing(service, code::REQUEST_OUT_OF_RANGE),
            },
            RequestView::WriteDataByIdentifier { did, data } => self.holding(did, data).granting(
                service,
                be16(did),
                Some(did),
            ),
            RequestView::RoutineControl { control, routine, .. } => self.granting(
                service,
                seq![control] + be16(routine),
                None,
            ),
            RequestView::RequestDownload { address, size } => Answer {
                response: ResponseView::download(self.block_length),
                written: None,
                ecu: EcuView {
                    download: Some(DownloadView { address, size, expected: 1, bytes: seq![] }),
                    ..self
                },
            },
            RequestView::TransferData { block, data } => match self.block_refusal(block, data) {
                Some(code) => self.refusing(service, code),
                None => self.with_block(data).granting(service, seq![block], None),
            },
            RequestView::RequestTransferExit => {
                let closed = EcuView { download: None, ..self };
                if self.complete() {
                    let download = self.download->0;
                    closed.holding(download.address, download.bytes).granting(
                        service,
                        seq![],
                        Some(download.address),
                    )
                } else {
                    closed.refusing(service, code::REQUEST_SEQUENCE_ERROR)
                }
            },
        }
    }

    /// The one answer to the message `bytes`.
    pub open spec fn answer(self, bytes: Seq<u8>) -> Answer {
        match RequestView::parsed(bytes) {
            Ok(request) => self.answer_to(request),
            Err(negative) => self.refusing(negative.service, negative.code),
        }
    }

    /// The ECU once it has answered `messages`, in order.
    pub open spec fn after(self, messages: Seq<Seq<u8>>) -> EcuView
        decreases messages.len(),
    {
        if messages.len() == 0 {
            self
        } else {
            self.answer(messages[0]).ecu.after(messages.skip(1))
        }
    }
}

impl Default for Ecu {
    fn default() -> (ecu: Ecu)
        ensures
            ecu@ == EcuView::empty(),
            ecu@.block_length == 4095,
            ecu@.valid(),
    {
        Ecu::new()
    }
}

impl Ecu {
    /// An ECU holding nothing, taking blocks of [`MAX_BLOCK_LENGTH`].
    #[must_use]
    pub fn new() -> (ecu: Ecu)
        ensures
            ecu@ == EcuView::empty(),
            ecu@.block_length == 4095,
            ecu@.valid(),
    {
        let ecu = Ecu {
            identifiers: HashMap::new(),
            block_length: MAX_BLOCK_LENGTH,
            download: None,
        };
        assert(ecu@.identifiers =~= Map::empty());
        ecu
    }

    /// Hold `bytes` at `did`.
    #[must_use]
    pub fn holding(self, did: u16, bytes: &[u8]) -> (ecu: Ecu)
        ensures
            ecu@ == self@.holding(did, bytes@),
            self@.valid() ==> ecu@.valid(),
    {
        let mut ecu = self;
        ecu.store(did, slice_to_vec(bytes));
        ecu
    }

    /// Take download blocks of `block_length`, service and counter counted;
    /// three is the least that carries a byte.
    #[must_use]
    pub fn in_blocks_of(self, block_length: u16) -> (ecu: Ecu)
        ensures
            ecu@ == (EcuView {
                block_length: if block_length < MIN_BLOCK_LENGTH {
                    MIN_BLOCK_LENGTH
                } else {
                    block_length
                },
                ..self@
            }),
            ecu@.block_length == if block_length < 3 {
                3
            } else {
                block_length
            },
            self@.valid() ==> ecu@.valid(),
    {
        let mut ecu = self;
        ecu.block_length = if block_length < MIN_BLOCK_LENGTH {
            MIN_BLOCK_LENGTH
        } else {
            block_length
        };
        ecu
    }

    /// What `did` holds.
    #[must_use]
    pub fn held(&self, did: u16) -> (bytes: Option<Vec<u8>>)
        ensures
            match bytes {
                Some(bytes) => self@.held(did) == Some(bytes@),
                None => self@.held(did) is None,
            },
    {
        match self.identifiers.get(&did) {
            Some(bytes) => Some(slice_to_vec(bytes.as_slice())),
            None => None,
        }
    }

    /// The one response to `request`, and the identifier a write to it has
    /// just completed, if one has.
    #[must_use]
    pub fn answer(&mut self, request: &[u8]) -> (answer: (Response, Option<u16>))
        ensures
            answer.0@ == old(self)@.answer(request@).response,
            answer.1 == old(self)@.answer(request@).written,
            final(self)@ == old(self)@.answer(request@).ecu,
            old(self)@.valid() ==> final(self)@.valid(),
    {
        let request = match Request::parse(request) {
            Ok(request) => request,
            Err(negative) => {
                return (Response::Negative(negative), None);
            },
        };
        let service = request.service();
        match request {
            Request::ReadDataByIdentifier { did } => match self.held(did) {
                Some(bytes) => {
                    let mut head: Vec<u8> = Vec::new();
                    push16(&mut head, did);
                    (positive(service, head, bytes.as_slice()), None)
                },
                None => (refusal(service, code::REQUEST_OUT_OF_RANGE), None),
            },
            Request::WriteDataByIdentifier { did, data } => {
                self.store(did, data);
                let mut head: Vec<u8> = Vec::new();
                push16(&mut head, did);
                (positive(service, head, &[]), Some(did))
            },
            Request::RoutineControl { control, routine, .. } => {
                let mut head: Vec<u8> = Vec::new();
                head.push(control);
                push16(&mut head, routine);
                (positive(service, head, &[]), None)
            },
            Request::RequestDownload { address, size } => {
                self.download = Some(Download { address, size, expected: 1, bytes: Vec::new() });
                (Response::download(self.block_length), None)
            },
            Request::TransferData { block, data } => match self.take_block(block, data.as_slice()) {
                Ok(()) => {
                    let mut head: Vec<u8> = Vec::new();
                    head.push(block);
                    (positive(service, head, &[]), None)
                },
                Err(code) => (refusal(service, code), None),
            },
            Request::RequestTransferExit => match self.close_download() {
                Ok(address) => (positive(service, Vec::new(), &[]), Some(address)),
                Err(code) => (refusal(service, code), None),
            },
        }
    }

    fn store(&mut self, did: u16, bytes: Vec<u8>)
        ensures
            final(self)@ == old(self)@.holding(did, bytes@),
    {
        self.identifiers.insert(did, bytes);
        assert(self@.identifiers =~= old(self)@.identifiers.insert(did, bytes@));
    }

    /// Take `data` as block `block` of the open download.
    ///
    /// # Errors
    /// The code that refuses the block; the ECU is then as it was.
    pub fn take_block(&mut self, block: u8, data: &[u8]) -> (taken: Result<(), u8>)
        ensures
            match taken {
                Ok(()) => {
                    &&& old(self)@.block_refusal(block, data@) is None
                    &&& final(self)@ == old(self)@.with_block(data@)
                },
                Err(code) => {
                    &&& old(self)@.block_refusal(block, data@) == Some(code)
                    &&& final(self)@ == old(self)@
                },
            },
            ({
                let was = old(self)@.download;
                taken == if was is None {
                    Err::<(), u8>(0x24)
                } else if block != was->0.expected {
                    Err(0x73)
                } else if data@.len() + 2 > old(self)@.block_length {
                    Err(0x13)
                } else if was->0.bytes.len() + data@.len() > was->0.size {
                    Err(0x31)
                } else {
                    Ok(())
                }
            }),
            old(self)@.valid() ==> final(self)@.valid(),
    {
        let block_length = self.block_length;
        match &mut self.download {
            None => Err(code::REQUEST_SEQUENCE_ERROR),
            Some(download) => {
                if block != download.expected {
                    return Err(code::WRONG_BLOCK_SEQUENCE_COUNTER);
                }
                if data.len() as u128 + 2 > block_length as u128 {
                    return Err(code::INCORRECT_MESSAGE_LENGTH);
                }
                if download.bytes.len() as u128 + data.len() as u128 > download.size as u128 {
                    return Err(code::REQUEST_OUT_OF_RANGE);
                }
                let ghost before = download.bytes@;
                download.bytes.extend_from_slice(data);
                assert(download.bytes@ =~= before + data@);
                download.expected = download.expected.wrapping_add(1);
                Ok(())
            },
        }
    }

    /// Close the open download and hold its bytes at its address, which is
    /// returned.
    ///
    /// # Errors
    /// The code that refuses it: no download is open, or it is short.
    /// Either way none is open after.
    pub fn close_download(&mut self) -> (closed: Result<u16, u8>)
        ensures
            match closed {
                Ok(address) => {
                    &&& old(self)@.complete()
                    &&& address == old(self)@.download->0.address
                    &&& final(self)@ == (EcuView { download: None, ..old(self)@ }).holding(
                        address,
                        old(self)@.download->0.bytes,
                    )
                },
                Err(code) => {
                    &&& !old(self)@.complete()
                    &&& code == code::REQUEST_SEQUENCE_ERROR
                    &&& final(self)@ == (EcuView { download: None, ..old(self)@ })
                },
            },
            final(self)@.download is None,
            old(self)@.valid() ==> final(self)@.valid(),
    {
        match self.download.take() {
            None => Err(code::REQUEST_SEQUENCE_ERROR),
            Some(download) => {
                if download.bytes.len() as u128 != download.size as u128 {
                    return Err(code::REQUEST_SEQUENCE_ERROR);
                }
                self.store(download.address, download.bytes);
                Ok(download.address)
            },
        }
    }
}

/// The positive response to `service` of `head` and `tail`.
fn positive(service: u8, head: Vec<u8>, tail: &[u8]) -> (response: Response)
    ensures
        response@ == (ResponseView::Positive { service, data: head@ + tail@ }),
{
    let mut data = head;
    data.extend_from_slice(tail);
    assert(data@ =~= head@ + tail@);
    Response::Positive { service, data }
}

/// The negative response to `service` with `code`.
fn refusal(service: u8, code: u8) -> (response: Response)
    ensures
        response@ == ResponseView::Negative(Negative { service, code }),
{
    Response::Negative(Negative { service, code })
}

} // verus!
