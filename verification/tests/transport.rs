use uds::{code, Ecu, Negative, ProtocolError, Request, Response, UdsTransport, Write, DEFAULT_DID};

#[test]
fn a_negative_response_names_the_service_and_the_code() {
    let mut ecu = UdsTransport::new();
    let request = Request::ReadDataByIdentifier { did: 0x0001 };
    let (response, arrived) = ecu.serve("isotp://loopback", &request.encode()).expect("request");
    assert!(arrived.is_none());
    let error = UdsTransport::exchange(&request, &response.encode()).expect_err("unknown");
    let message = error.message();
    assert!(
        message.contains("0x22") && message.contains("0x31"),
        "{message}"
    );
}

#[test]
fn a_pending_answer_is_waited_for_and_a_wrong_one_refused() {
    let read = Request::ReadDataByIdentifier { did: 0xf190 };
    let pending = Negative {
        service: 0x22,
        code: code::RESPONSE_PENDING,
    };
    assert_eq!(
        UdsTransport::exchange(&read, &pending.encode()).expect("pending"),
        None
    );
    let data = UdsTransport::exchange(&read, &[0x62, 0xf1, 0x90, 7])
        .expect("read")
        .expect("answer");
    assert_eq!(UdsTransport::read(&data), [7]);
    let error = UdsTransport::exchange(&read, &[0x6e, 0xf1, 0x90]).expect_err("another service");
    assert!(error.message().contains("0x2e"), "{error:?}");
    let mut ecu = UdsTransport::new();
    let error = ecu
        .serve("isotp://loopback", &[])
        .expect_err("the tester hung up");
    assert!(error.message().contains("hung up"), "{error:?}");
}

#[test]
fn a_target_names_the_identifier_and_the_ends_name_themselves() {
    let tester = UdsTransport::new();
    assert_eq!(tester.addressed(Some("0xf1a0")).expect("did"), 0xf1a0);
    assert_eq!(tester.addressed(Some("")).expect("default"), DEFAULT_DID);
    assert_eq!(tester.addressed(None).expect("default"), DEFAULT_DID);
    assert!(tester.addressed(Some("vin")).is_err());
    assert_eq!(tester.at(0x0100).did(), 0x0100);
}

#[test]
fn a_path_is_read_as_hex_of_sixteen_bits() {
    let end = UdsTransport::new();
    assert_eq!(end.addressed(Some("0xABcd")), Ok(0xabcd));
    assert_eq!(end.addressed(Some("0x0")), Ok(0));
    assert_eq!(end.addressed(Some("0x00000ffff")), Ok(0xffff));
    assert_eq!(end.addressed(Some("0x+1f")), Ok(0x1f));
    for path in [
        "0x", "0x+", "0x10000", "0xfffff", "0x-1", "0x 1", "0xg", "0X10", "f190", "x", "0", "0x1/2",
        "0x\u{e9}", "/0x10",
    ] {
        assert_eq!(
            end.addressed(Some(path)),
            Err(ProtocolError::NotAnIdentifier(path.to_string())),
            "{path}"
        );
        assert_eq!(
            u16::from_str_radix(path.strip_prefix("0x").unwrap_or("none"), 16).ok(),
            None
        );
    }
}

#[test]
fn what_a_read_and_a_routine_hold_follows_what_they_echo() {
    assert_eq!(UdsTransport::read(&[0xf1, 0x90, 1, 2]), [1, 2]);
    assert!(UdsTransport::read(&[0xf1, 0x90]).is_empty());
    assert!(UdsTransport::read(&[0xf1]).is_empty());
    assert_eq!(UdsTransport::routine(&[1, 0xff, 0, 9]), [9]);
    assert!(UdsTransport::routine(&[1, 0xff]).is_empty());
}

#[test]
fn a_message_that_answers_nothing_is_an_error() {
    let exit = Request::RequestTransferExit;
    assert_eq!(
        UdsTransport::exchange(&exit, &[]),
        Err(ProtocolError::EmptyResponse)
    );
    assert_eq!(
        UdsTransport::exchange(&exit, &[0x76, 1]),
        Err(ProtocolError::AnotherService {
            answered: 0x36,
            asked: 0x37
        })
    );
    assert_eq!(
        UdsTransport::exchange(&exit, &[0x7f, 0x37, 0x24]),
        Err(ProtocolError::Refused(Negative {
            service: 0x37,
            code: 0x24
        }))
    );
    assert_eq!(UdsTransport::exchange(&exit, &[0x77]), Ok(Some(vec![])));
    assert_eq!(
        UdsTransport::exchange(&exit, &[0x7f, 0x99, 0x78]),
        Ok(None),
        "a pending answer is waited for, whatever service it names"
    );
}

#[test]
fn a_completed_write_arrives_with_its_origin() {
    let mut end = UdsTransport::new();
    let write = Request::WriteDataByIdentifier {
        did: 0x00ab,
        data: b"xyz".to_vec(),
    };
    for (from, origin) in [
        ("isotp://can0/0x7e0", "uds://can0/0x00ab"),
        ("isotp://can0", "uds://can0/0x00ab"),
        ("isotp:///0x7e0", "uds:///0x00ab"),
        ("can://can0", "uds://isotp/0x00ab"),
        ("isotp:/", "uds://isotp/0x00ab"),
        ("isotp://b\u{fc}s/1/2", "uds://b\u{fc}s/0x00ab"),
    ] {
        let (response, arrived) = end.serve(from, &write.encode()).expect("served");
        assert_eq!(response.encode(), [0x6e, 0x00, 0xab]);
        let arrived = arrived.expect("arrived");
        assert_eq!(arrived.origin_uri, origin, "{from}");
        assert_eq!(arrived.bytes, b"xyz");
    }
    assert_eq!(end.ecu().held(0x00ab).expect("held"), b"xyz");
    assert_eq!(end.addressed(Some("0x00ab")), Ok(0x00ab));
}

#[test]
fn a_write_that_fits_is_one_request() {
    let mut write = UdsTransport::write(0x0100, b"abc", 6).expect("write");
    assert_eq!(
        write.next(),
        Some(Request::WriteDataByIdentifier {
            did: 0x0100,
            data: b"abc".to_vec()
        })
    );
    assert_eq!(write.accept(&[0x01, 0x00]), Ok(()));
    assert_eq!(write.next(), None);
    assert_eq!(write.accept(&[]), Ok(()));
    assert_eq!(write.next(), None);
}

#[test]
fn a_write_that_does_not_fit_is_a_download() {
    let mut write = Write::new(0x0100, b"abcdefgh", 10).expect("write");
    assert_eq!(
        write.next(),
        Some(Request::RequestDownload {
            address: 0x0100,
            size: 8
        })
    );
    assert_eq!(
        write.accept(&[0x10, 5]),
        Err(ProtocolError::NoBlockLength)
    );
    assert_eq!(
        write.accept(&[0x20, 0, 2]),
        Err(ProtocolError::BlockHoldsNoData)
    );
    assert_eq!(write.accept(&[0x20, 0, 5]), Ok(()));
    for (block, data) in [(1u8, &b"abc"[..]), (2, b"def"), (3, b"gh")] {
        assert_eq!(
            write.next(),
            Some(Request::TransferData {
                block,
                data: data.to_vec()
            })
        );
        assert_eq!(write.accept(&[block]), Ok(()));
    }
    assert_eq!(write.next(), Some(Request::RequestTransferExit));
    assert_eq!(write.accept(&[]), Ok(()));
    assert_eq!(write.next(), None);
}

#[test]
fn an_empty_download_has_no_blocks() {
    let mut write = Write::new(1, &[], 2).expect("write");
    assert_eq!(
        write.next(),
        Some(Request::RequestDownload {
            address: 1,
            size: 0
        })
    );
    assert_eq!(write.accept(&[0x20, 0, 3]), Ok(()));
    assert_eq!(write.next(), Some(Request::RequestTransferExit));
}

#[test]
fn an_end_serves_as_the_ecu_it_was_given() {
    let mut end = UdsTransport::new().serving(Ecu::new().holding(1, b"one"));
    let read = Request::ReadDataByIdentifier { did: 1 };
    let (response, _) = end.serve("isotp://can0", &read.encode()).expect("served");
    assert_eq!(
        response,
        Response::Positive {
            service: 0x22,
            data: vec![0, 1, b'o', b'n', b'e']
        }
    );
}
