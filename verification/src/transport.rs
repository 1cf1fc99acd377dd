//! One end of a diagnostic session: what a tester makes of an ECU's
//! answers, and what an ECU makes of a tester's requests.
//!
//! The link between them carries whole messages. Whoever holds one hands
//! each message that came here, and delivers what is handed back.
use vstd::prelude::*;
use vstd::slice::{slice_subrange, slice_to_vec};

use crate::ecu::{Ecu, EcuView};
use crate::error::ProtocolError;
use crate::service::{code, Request, Response, ResponseView};
use crate::text::{hex16, hex_value, push_hex16, read_hex16};
use crate::write::{Write, WriteView};

verus! {

/// The data identifier a Location writes or serves unless told otherwise:
/// the vehicle identification number of ISO 14229-1 annex C.
pub const DEFAULT_DID: u16 = 0xf190;

/// One end of a diagnostic session: a tester when it sends, an ECU when it
/// receives.
pub struct UdsTransport {
    did: u16,
    ecu: Ecu,
}

/// One end of a session as a mathematical value.
pub struct UdsTransportView {
    pub did: u16,
    pub ecu: EcuView,
}

/// A Stream that arrived, and the identifier it was written to as a URI.
#[derive(Clone, Debug, PartialEq, Eq)]
pub struct Arrived {
    pub origin_uri: String,
    pub bytes: Vec<u8>,
}

impl View for UdsTransport {
    type V = UdsTransportView;

    closed spec fn view(&self) -> UdsTransportView {
        UdsTransportView { did: self.did, ecu: self.ecu@ }
    }
}

/// What `message` says to a tester that asked `service`: the data of the
/// positive answer, `None` while the answer is pending, or what is wrong.
pub open spec fn heard(service: u8, message: Seq<u8>) -> Result<Option<Seq<u8>>, ProtocolError> {
    match ResponseView::parsed(message) {
        Err(error) => Err(error),
        Ok(ResponseView::Positive { service: answered, data }) => if answered == service {
            Ok(Some(data))
        } else {
            Err(ProtocolError::AnotherService { answered, asked: service })
        },
        Ok(ResponseView::Negative(negative)) => if negative.code == code::RESPONSE_PENDING {
            Ok(None)
        } else {
            Err(ProtocolError::Refused(negative))
        },
    }
}

/// `bytes` without the first `n`, or nothing when there are fewer.
pub open spec fn after_head(bytes: Seq<u8>, n: nat) -> Seq<u8> {
    if n <= bytes.len() {
        bytes.skip(n as int)
    } else {
        seq![]
    }
}

/// The bus that the URI of an ISO-TP message names: what stands between
/// `isotp://` and the next slash.
pub open spec fn bus_of(uri: Seq<char>) -> Seq<char> {
    if "isotp://"@.is_prefix_of(uri) {
        let rest = uri.skip("isotp://"@.len() as int);
        match rest.index_of_first('/') {
            Some(end) => rest.take(end),
            None => rest,
        }
    } else {
        "isotp"@
    }
}

/// `uds://<bus>/0x<did>`.
pub open spec fn origin_of(bus: Seq<char>, did: u16) -> Seq<char> {
    "uds://"@ + bus + "/"@ + hex16(did)
}

/// The identifier that the path of a target names, `did` where the path is
/// empty.
pub open spec fn identifier_of(did: u16, path: Seq<char>) -> Option<u16> {
    if path.len() == 0 {
        Some(did)
    } else if "0x"@.is_prefix_of(path) {
        hex_value(path.skip(2))
    } else {
        None
    }
}

impl UdsTransport {
    /// One end of a session, writing and serving [`DEFAULT_DID`] as an ECU
    /// holding nothing.
    #[must_use]
    pub fn new() -> (end: UdsTransport)
        ensures
            end@ == (UdsTransportView { did: DEFAULT_DID, ecu: EcuView::empty() }),
            end@.did == 0xf190,
            end@.ecu.valid(),
    {
        UdsTransport { did: DEFAULT_DID, ecu: Ecu::new() }
    }

    /// Write to and serve `did`.
    #[must_use]
    pub fn at(self, did: u16) -> (end: UdsTransport)
        ensures
            end@ == (UdsTransportView { did, ..self@ }),
    {
        UdsTransport { did, ecu: self.ecu }
    }

    /// Serve as `ecu` when receiving.
    #[must_use]
    pub fn serving(self, ecu: Ecu) -> (end: UdsTransport)
        ensures
            end@ == (UdsTransportView { ecu: ecu@, ..self@ }),
    {
        UdsTransport { did: self.did, ecu }
    }

    /// The ECU this end serves as.
    #[must_use]
    pub fn ecu(&self) -> (ecu: &Ecu)
        ensures
            ecu@ == self@.ecu,
    {
        &self.ecu
    }

    /// The data identifier this end writes and serves.
    #[must_use]
    pub fn did(&self) -> (did: u16)
        ensures
            did == self@.did,
    {
        self.did
    }

    /// What `message` answers to `request`: the data of its positive
    /// answer, or `None` while the ECU asks to wait for another message.
    ///
    /// # Errors
    /// A negative response, an answer to another service, or a message that
    /// is no response.
    pub fn exchange(request: &Request, message: &[u8]) -> (answer: Result<
        Option<Vec<u8>>,
        ProtocolError,
    >)
        ensures
            match answer {
                Ok(Some(data)) => heard(request@.service(), message@) == Ok::<
                    Option<Seq<u8>>,
                    ProtocolError,
                >(Some(data@)),
                Ok(None) => heard(request@.service(), message@) == Ok::<
                    Option<Seq<u8>>,
                    ProtocolError,
                >(None),
                Err(error) => heard(request@.service(), message@) == Err::<
                    Option<Seq<u8>>,
                    ProtocolError,
                >(error),
            },
    {
        let asked = request.service();
        match Response::parse(message) {
            Err(error) => Err(error),
            Ok(Response::Positive { service, data }) => {
                if service == asked {
                    Ok(Some(data))
                } else {
                    Err(ProtocolError::AnotherService { answered: service, asked })
                }
            },
            Ok(Response::Negative(negative)) => {
                if negative.code == code::RESPONSE_PENDING {
                    Ok(None)
                } else {
                    Err(ProtocolError::Refused(negative))
                }
            },
        }
    }

    /// What the answer to a read holds: what follows the identifier it
    /// echoes.
    #[must_use]
    pub fn read(answer: &[u8]) -> (bytes: Vec<u8>)
        ensures
            bytes@ == after_head(answer@, 2),
    {
        rest_after(answer, 2)
    }

    /// A write of `bytes` to `did` over a link whose messages hold
    /// `ceiling` bytes: in one message when they fit, as a download in the
    /// blocks the ECU sizes when they do not.
    ///
    /// # Errors
    /// More bytes than a download can size.
    pub fn write(did: u16, bytes: &[u8], ceiling: usize) -> (write: Result<Write, ProtocolError>)
        ensures
            match write {
                Ok(write) => WriteView::of(did, bytes@, ceiling as nat) == Ok::<
                    WriteView,
                    ProtocolError,
                >(write@),
                Err(error) => WriteView::of(did, bytes@, ceiling as nat) == Err::<
                    WriteView,
                    ProtocolError,
                >(error),
            },
            write is Ok <==> bytes@.len() + 3 <= ceiling || bytes@.len() <= 0xffff_ffff,
            write matches Err(error) ==> error == ProtocolError::DownloadTooLong,
    {
        Write::new(did, bytes, ceiling)
    }

    /// What the answer to a routine holds: what follows the control and the
    /// routine it echoes.
    #[must_use]
    pub fn routine(answer: &[u8]) -> (results: Vec<u8>)
        ensures
            results@ == after_head(answer@, 3),
    {
        rest_after(answer, 3)
    }

    /// Serve `request`, which came from `origin_uri`, as the ECU: the
    /// response to deliver, and the Stream that arrived once a tester has
    /// completed a write.
    ///
    /// # Errors
    /// A tester that hung up: a request of no bytes.
    pub fn serve(&mut self, origin_uri: &str, request: &[u8]) -> (served: Result<
        (Response, Option<Arrived>),
        ProtocolError,
    >)
        ensures
            final(self)@.did == old(self)@.did,
            old(self)@.ecu.valid() ==> final(self)@.ecu.valid(),
            match served {
                Err(error) => {
                    &&& request@.len() == 0
                    &&& error == ProtocolError::HungUp
                    &&& final(self)@ == old(self)@
                },
                Ok((response, arrived)) => {
                    let answer = old(self)@.ecu.answer(request@);
                    &&& request@.len() > 0
                    &&& response@ == answer.response
                    &&& final(self)@.ecu == answer.ecu
                    &&& match (arrived, answer.written) {
                        (None, None) => true,
                        (Some(arrived), Some(did)) => {
                            &&& arrived.origin_uri@ == origin_of(bus_of(origin_uri@), did)
                            &&& answer.ecu.held(did) == Some(arrived.bytes@)
                        },
                        _ => false,
                    }
                },
            },
    {
        if request.len() == 0 {
            return Err(ProtocolError::HungUp);
        }
        let (response, written) = self.ecu.answer(request);
        match written {
            None => Ok((response, None)),
            Some(did) => {
                let bytes = match self.ecu.held(did) {
                    Some(bytes) => bytes,
                    None => Vec::new(),
                };
                Ok((response, Some(Arrived { origin_uri: origin(origin_uri, did), bytes })))
            },
        }
    }

    /// The identifier that the path of a target names: `0x`, a plus sign if
    /// there is one, and hex digits. This end's own where there is no path
    /// or an empty one.
    ///
    /// # Errors
    /// A path that is not a data identifier.
    pub fn addressed(&self, path: Option<&str>) -> (did: Result<u16, ProtocolError>)
        ensures
            match path {
                None => did == Ok::<u16, ProtocolError>(self@.did),
                Some(path) => match did {
                    Ok(did) => identifier_of(self@.did, path@) == Some(did),
                    Err(error) => {
                        &&& identifier_of(self@.did, path@) is None
                        &&& error matches ProtocolError::NotAnIdentifier(named)
                        &&& named@ == path@
                    },
                },
            },
    {
        match path {
            None => Ok(self.did),
            Some(path) => {
                if path.is_empty() {
                    return Ok(self.did);
                }
                proof {
                    reveal_strlit("0x");
                }
                if starts_with(path, "0x") {
                    if let Some(did) = read_hex16(path, 2) {
                        return Ok(did);
                    }
                }
                Err(ProtocolError::NotAnIdentifier(path.to_string()))
            },
        }
    }
}

/// `bytes` without the first `n`.
fn rest_after(bytes: &[u8], n: usize) -> (rest: Vec<u8>)
    ensures
        rest@ == after_head(bytes@, n as nat),
{
    if n <= bytes.len() {
        slice_to_vec(slice_subrange(bytes, n, bytes.len()))
    } else {
        Vec::new()
    }
}

/// The URI of what was written to `did` by a message from `uri`.
fn origin(uri: &str, did: u16) -> (origin: String)
    ensures
        origin@ == origin_of(bus_of(uri@), did),
{
    let mut origin = "uds://".to_string();
    origin.append(bus(uri));
    origin.append("/");
    push_hex16(&mut origin, did);
    origin
}

/// Whether `text` starts with `prefix`.
fn starts_with(text: &str, prefix: &str) -> (starts: bool)
    ensures
        starts == prefix@.is_prefix_of(text@),
{
    let len = prefix.unicode_len();
    if text.unicode_len() < len {
        return false;
    }
    let mut at: usize = 0;
    while at < len
        invariant
            at <= len == prefix@.len() <= text@.len(),
            forall|i: int| 0 <= i < at ==> prefix@[i] == text@[i],
        decreases len - at,
    {
        if text.get_char(at) != prefix.get_char(at) {
            assert(text@.subrange(0, len as int)[at as int] != prefix@[at as int]);
            return false;
        }
        at = at + 1;
    }
    assert(text@.subrange(0, len as int) =~= prefix@);
    true
}

/// The bus that the URI of an ISO-TP message names.
fn bus(uri: &str) -> (bus: &str)
    ensures
        bus@ == bus_of(uri@),
{
    if !starts_with(uri, "isotp://") {
        return "isotp";
    }
    let start = "isotp://".unicode_len();
    let len = uri.unicode_len();
    let ghost rest = uri@.skip(start as int);
    let mut end = start;
    while end < len && uri.get_char(end) != '/'
        invariant
            start <= end <= len == uri@.len(),
            rest == uri@.skip(start as int),
            forall|i: int| 0 <= i < end - start ==> rest[i] != '/',
        decreases len - end,
    {
        end = end + 1;
    }
    proof {
        rest.index_of_first_ensures('/');
        if end < len {
            assert(rest[end - start] == '/');
        }
    }
    assert(uri@.subrange(start as int, end as int) =~= rest.take(end - start));
    uri.substring_char(start, end)
}

} // verus!
