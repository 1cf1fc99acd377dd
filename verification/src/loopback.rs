//! Both ends of one diagnostic session in one process.
//!
//! A tester writes a Stream to the data identifier, and an ECU serves the
//! identifier and hands the Stream on when the write completes. Here each
//! request goes straight to the ECU, and its answer straight back.
use vstd::prelude::*;

use crate::ecu::EcuView;
use crate::error::ProtocolError;
use crate::laws::a_write_arrives;
use crate::transport::{
    bus_of, heard, origin_of, Arrived, UdsTransport, UdsTransportView, DEFAULT_DID,
};
use crate::write::WriteView;

verus! {

/// The URI of every message that passes here.
pub const LOOPBACK_URI: &'static str = "isotp://loopback";

/// How a write that succeeded ended: the Streams that arrived at the ECU,
/// each with the identifier it was written to, and the ECU it left behind.
pub struct Outcome {
    pub arrived: Seq<(u16, Seq<u8>)>,
    pub ecu: EcuView,
}

/// What comes of the rest of `write` when `ecu` answers it: nothing if an
/// answer is not the positive one the tester waits for.
pub open spec fn conversation(write: WriteView, ecu: EcuView) -> Option<Outcome>
    decreases write.steps(),
{
    match write.next() {
        None => Some(Outcome { arrived: seq![], ecu }),
        Some(request) => {
            let answer = ecu.answer(request.encoding());
            match heard(request.service(), answer.response.encoding()) {
                Ok(Some(data)) => match write.after(data) {
                    Ok(rest) => {
                        proof {
                            write.lemma_steps(data);
                        }
                        match conversation(rest, answer.ecu) {
                            Some(outcome) => match answer.written {
                                Some(did) => Some(
                                    Outcome {
                                        arrived: seq![(did, answer.ecu.identifiers[did])]
                                            + outcome.arrived,
                                        ..outcome
                                    },
                                ),
                                None => Some(outcome),
                            },
                            None => None,
                        }
                    },
                    Err(_) => None,
                },
                _ => None,
            }
        },
    }
}

impl UdsTransport {
    /// Both ends on this machine: a tester whose far end is an ECU holding
    /// nothing.
    #[must_use]
    pub fn loopback() -> (end: UdsTransport)
        ensures
            end@ == (UdsTransportView { did: DEFAULT_DID, ecu: EcuView::empty() }),
            end@.did == 0xf190,
            end@.ecu.valid(),
    {
        UdsTransport::new()
    }

    /// Write `payload` as the tester, serve it as the ECU, and take the
    /// Stream that arrives; a message holds `ceiling` bytes.
    ///
    /// # Errors
    /// More bytes than a download can size.
    pub fn round(&mut self, payload: &[u8], ceiling: usize) -> (arrived: Result<
        Arrived,
        ProtocolError,
    >)
        requires
            old(self)@.ecu.valid(),
        ensures
            final(self)@.did == old(self)@.did,
            final(self)@.ecu.valid(),
            arrived is Ok <==> payload@.len() + 3 <= ceiling || payload@.len() <= 0xffff_ffff,
            arrived matches Ok(stream) ==> stream.bytes@ == payload@,
            arrived matches Err(error) ==> error == ProtocolError::DownloadTooLong,
            match WriteView::of(old(self)@.did, payload@, ceiling as nat) {
                Ok(write) => {
                    &&& arrived matches Ok(stream)
                    &&& stream.bytes@ == payload@
                    &&& stream.origin_uri@ == origin_of("loopback"@, old(self)@.did)
                    &&& conversation(write, old(self)@.ecu) == Some(
                        Outcome {
                            arrived: seq![(old(self)@.did, payload@)],
                            ecu: final(self)@.ecu,
                        },
                    )
                },
                Err(error) => {
                    &&& arrived == Err::<Arrived, ProtocolError>(error)
                    &&& final(self)@ == old(self)@
                },
            },
            final(self)@.ecu.identifiers == if arrived is Ok {
                old(self)@.ecu.identifiers.insert(old(self)@.did, payload@)
            } else {
                old(self)@.ecu.identifiers
            },
    {
        let did = self.did();
        let mut write = match UdsTransport::write(did, payload, ceiling) {
            Ok(write) => write,
            Err(error) => {
                return Err(error);
            },
        };
        proof {
            a_write_arrives(self@.ecu, did, payload@, ceiling as nat);
            lemma_loopback_bus();
        }
        let ghost outcome = conversation(write@, self@.ecu)->0;
        let mut arrived: Option<Arrived> = None;
        loop
            invariant
                self@.did == did == old(self)@.did,
                self@.ecu.valid(),
                bus_of(LOOPBACK_URI@) == "loopback"@,
                outcome.arrived == seq![(did, payload@)],
                conversation(write@, self@.ecu) == Some(
                    Outcome {
                        arrived: if arrived is None {
                            outcome.arrived
                        } else {
                            seq![]
                        },
                        ecu: outcome.ecu,
                    },
                ),
                arrived matches Some(stream) ==> stream.bytes@ == payload@
                    && stream.origin_uri@ == origin_of("loopback"@, did),
            ensures
                write@.next() is None,
            decreases write@.steps(),
        {
            let request = match write.next() {
                Some(request) => request,
                None => {
                    break;
                },
            };
            let message = request.encode();
            let ghost answer = self@.ecu.answer(message@);
            let (response, stream) = match self.serve(LOOPBACK_URI, message.as_slice()) {
                Ok(served) => served,
                Err(error) => {
                    return Err(error);
                },
            };
            match UdsTransport::exchange(&request, response.encode().as_slice()) {
                Ok(Some(data)) => {
                    proof {
                        write@.lemma_steps(data@);
                    }
                    if let Err(error) = write.accept(data.as_slice()) {
                        return Err(error);
                    }
                },
                Ok(None) => {},
                Err(error) => {
                    return Err(error);
                },
            }
            if let Some(stream) = stream {
                proof {
                    let first = seq![(answer.written->0, stream.bytes@)];
                    let later = conversation(write@, self@.ecu)->0.arrived;
                    assert((first + later)[0] == first[0]);
                    assert((first + later).len() == 1 + later.len());
                    assert(later =~= seq![]);
                }
                arrived = Some(stream);
            }
        }
        match arrived {
            Some(stream) => Ok(stream),
            // Never so: a write that is done has arrived.
            None => Err(ProtocolError::HungUp),
        }
    }
}

/// The messages that pass here come from the bus `loopback`.
proof fn lemma_loopback_bus()
    ensures
        bus_of(LOOPBACK_URI@) == "loopback"@,
{
    reveal_strlit("isotp://loopback");
    reveal_strlit("isotp://");
    reveal_strlit("loopback");
    let rest = LOOPBACK_URI@.skip("isotp://"@.len() as int);
    assert("isotp://"@ =~= LOOPBACK_URI@.subrange(0, 8));
    assert(rest =~= "loopback"@);
    rest.index_of_first_ensures('/');
}

} // verus!
