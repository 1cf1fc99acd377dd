use uds::{Ecu, Request, UdsTransport, DEFAULT_DID};

/// What one ISO-TP message holds.
const CEILING: usize = 4095;

/// `len` bytes that repeat with a period no block length divides.
fn patterned(len: usize) -> Vec<u8> {
    (0..len).map(|i| (i % 251) as u8).collect()
}

fn edge_payloads() -> Vec<(&'static str, Vec<u8>)> {
    vec![
        ("empty", vec![]),
        ("one byte", vec![0]),
        ("every byte", (0..=255).collect()),
        ("the longest message", patterned(CEILING - 3)),
        ("the shortest download", patterned(CEILING - 2)),
        ("two full blocks", patterned(2 * 4093)),
        ("zeros", vec![0; 5000]),
        ("line ends", b"\r\n".repeat(400)),
    ]
}

#[test]
fn the_loopback_returns_the_edge_payloads_whole() {
    let mut loopback = UdsTransport::loopback();
    let edges = edge_payloads();
    for (name, bytes) in edges {
        let arrived = loopback
            .round(&bytes, CEILING)
            .unwrap_or_else(|error| panic!("{name}: {error:?}"));
        assert_eq!(arrived.bytes, bytes, "{name}");
        assert_eq!(arrived.origin_uri, "uds://loopback/0xf190", "{name}");
    }
    assert_eq!(
        loopback.ecu().held(DEFAULT_DID).expect("held"),
        b"\r\n".repeat(400)
    );
}

#[test]
fn a_stream_too_long_for_one_message_downloads_in_blocks() {
    let long = patterned(10_000);
    let arrived = UdsTransport::loopback()
        .round(&long, CEILING)
        .expect("three blocks");
    assert_eq!(arrived.bytes, long);
    let mut small = UdsTransport::loopback()
        .at(0x0100)
        .serving(Ecu::new().in_blocks_of(64));
    let arrived = small
        .round(&patterned(1000), 64)
        .expect("seventeen blocks");
    assert_eq!(arrived.bytes, patterned(1000));
    assert_eq!(arrived.origin_uri, "uds://loopback/0x0100");
}

#[test]
fn the_blocks_of_a_stream_are_counted() {
    for (len, block_length, blocks) in [(10_000, 4095u16, 3), (1000, 64, 17), (0, 64, 0), (62, 64, 1)]
    {
        let mut write = UdsTransport::write(1, &patterned(len), 0).expect("write");
        let [hi, lo] = block_length.to_be_bytes();
        write.accept(&[0x20, hi, lo]).expect("open");
        let mut seen = 0;
        while let Some(Request::TransferData { block, .. }) = write.next() {
            seen += 1;
            assert_eq!(usize::from(block), seen % 256);
            write.accept(&[block]).expect("block");
        }
        assert_eq!(seen, blocks);
    }
}

#[test]
fn a_download_of_one_byte_blocks_wraps_its_counter() {
    let mut end = UdsTransport::loopback().serving(Ecu::new().in_blocks_of(3).holding(9, b"nine"));
    let bytes = patterned(1000);
    let arrived = end.round(&bytes, 0).expect("a thousand blocks");
    assert_eq!(arrived.bytes, bytes);
    assert_eq!(end.ecu().held(9).expect("held"), b"nine");
    let read = Request::ReadDataByIdentifier { did: DEFAULT_DID };
    let (response, _) = end.serve("isotp://loopback", &read.encode()).expect("served");
    let data = UdsTransport::exchange(&read, &response.encode())
        .expect("heard")
        .expect("answered");
    assert_eq!(UdsTransport::read(&data), bytes);
}

#[test]
fn what_a_write_asks_fits_the_message_and_the_block() {
    let whole = UdsTransport::write(1, &patterned(61), 64).expect("write");
    let request = whole.next().expect("request");
    assert!(matches!(request, Request::WriteDataByIdentifier { .. }));
    assert_eq!(request.encode().len(), 64);
    let mut download = UdsTransport::write(1, &patterned(62), 64).expect("write");
    assert!(matches!(
        download.next(),
        Some(Request::RequestDownload { size: 62, .. })
    ));
    download.accept(&[0x20, 0, 10]).expect("open");
    let mut lengths = vec![];
    while let Some(request) = download.next() {
        lengths.push(request.encode().len());
        download.accept(&[]).expect("answer");
    }
    assert_eq!(lengths, [10, 10, 10, 10, 10, 10, 10, 8, 1]);
}
