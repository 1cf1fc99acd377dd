# uds

ISO 14229 diagnostics, verified with Verus: a tester writes a Stream to a data
identifier, by WriteDataByIdentifier or by a download in TransferData blocks,
and an ECU serves the identifier, so that the bytes written to it arrive as a
Stream.

- `src/service.rs`: requests and responses, and their bytes on the wire
- `src/ecu.rs`: the ECU, and the one answer it gives to any message
- `src/write.rs`: a write as the tester asks it, request by request
- `src/transport.rs`: one end of a session; what each message means to it
- `src/loopback.rs`: both ends in one process
- `src/laws.rs`: what holds of the protocol as a whole
- `src/wire.rs`, `src/text.rs`, `src/error.rs`: integers, hex and errors
- `app/`: the transport over an ISO-TP link
