use uds::service::{POSITIVE, READ_DATA_BY_IDENTIFIER, TRANSFER_DATA};
use uds::{code, Negative, ProtocolError, Request, Response};

#[test]
fn every_request_encodes_and_parses_back() {
    let requests = [
        Request::ReadDataByIdentifier { did: 0xf190 },
        Request::WriteDataByIdentifier {
            did: 0xf190,
            data: b"WVWZZZ".to_vec(),
        },
        Request::RoutineControl {
            control: 1,
            routine: 0xff00,
            data: vec![1, 2],
        },
        Request::RequestDownload {
            address: 0xf190,
            size: 70_000,
        },
        Request::TransferData {
            block: 1,
            data: vec![9; 10],
        },
        Request::RequestTransferExit,
    ];
    for request in requests {
        let bytes = request.encode();
        assert_eq!(bytes[0], request.service());
        assert_eq!(
            Request::parse(&bytes).expect("parse"),
            request,
            "{request:?}"
        );
    }
    assert_eq!(
        Request::RequestDownload {
            address: 0x1234,
            size: 5
        }
        .encode(),
        [0x34, 0x00, 0x42, 0x12, 0x34, 0, 0, 0, 5]
    );
}

#[test]
fn a_request_the_ecu_cannot_take_names_why() {
    let refused = |bytes: &[u8]| Request::parse(bytes).expect_err("refused").code;
    assert_eq!(refused(&[]), code::INCORRECT_MESSAGE_LENGTH);
    assert_eq!(refused(&[0x22, 0xf1]), code::INCORRECT_MESSAGE_LENGTH);
    assert_eq!(refused(&[0x2e, 0xf1]), code::INCORRECT_MESSAGE_LENGTH);
    assert_eq!(
        refused(&[0x31, 9, 0xff, 0x00]),
        code::SUB_FUNCTION_NOT_SUPPORTED
    );
    assert_eq!(
        refused(&[0x34, 0, 0x44, 0, 0, 0, 0]),
        code::REQUEST_OUT_OF_RANGE
    );
    assert_eq!(refused(&[0x36]), code::INCORRECT_MESSAGE_LENGTH);
    assert_eq!(refused(&[0x37, 1]), code::INCORRECT_MESSAGE_LENGTH);
    assert_eq!(refused(&[0x10, 1]), code::SERVICE_NOT_SUPPORTED);
    assert_eq!(
        Negative {
            service: 0x10,
            code: 0x11
        }
        .encode(),
        [0x7f, 0x10, 0x11]
    );
}

#[test]
fn a_response_is_positive_or_says_why_not() {
    let positive = Response::Positive {
        service: READ_DATA_BY_IDENTIFIER,
        data: vec![0xf1, 0x90, 1],
    };
    assert_eq!(positive.encode(), [0x62, 0xf1, 0x90, 1]);
    assert_eq!(
        Response::parse(&[0x62, 0xf1, 0x90, 1]).expect("parse"),
        positive
    );
    let negative = Response::parse(&[0x7f, 0x22, 0x31]).expect("parse");
    assert_eq!(
        negative,
        Response::Negative(Negative {
            service: 0x22,
            code: 0x31
        })
    );
    assert_eq!(negative.encode(), [0x7f, 0x22, 0x31]);
    assert!(Response::parse(&[]).is_err());
    assert!(Response::parse(&[0x7f, 0x22]).is_err());
    assert!(
        Response::parse(&[0x22, 0xf1, 0x90]).is_err(),
        "a request is no response"
    );
    let download = Response::download(4095);
    assert_eq!(download.encode(), [0x74, 0x20, 0x0f, 0xff]);
    assert_eq!(
        Response::block_length(&[0x20, 0x0f, 0xff]).expect("length"),
        4095
    );
    assert!(Response::block_length(&[0x10, 0xff]).is_err());
}

#[test]
fn the_refusals_of_a_request_name_the_service() {
    let refused = |bytes: &[u8]| Request::parse(bytes).expect_err("refused");
    assert_eq!(refused(&[]), Negative { service: 0, code: 0x13 });
    assert_eq!(refused(&[0x22, 1, 2, 3]), Negative { service: 0x22, code: 0x13 });
    assert_eq!(refused(&[0x31, 1, 0xff]), Negative { service: 0x31, code: 0x13 });
    assert_eq!(refused(&[0x31, 0, 1, 2]), Negative { service: 0x31, code: 0x12 });
    assert_eq!(refused(&[0x34, 0]), Negative { service: 0x34, code: 0x13 });
    assert_eq!(refused(&[0x34, 0, 0x44]), Negative { service: 0x34, code: 0x31 });
    assert_eq!(refused(&[0x34, 0, 0x42]), Negative { service: 0x34, code: 0x13 });
    assert_eq!(
        refused(&[0x34, 0x00, 0x42, 0x12, 0x34, 0, 0, 0]),
        Negative { service: 0x34, code: 0x13 },
        "a byte short"
    );
    assert_eq!(
        refused(&[0x34, 0x00, 0x42, 0x12, 0x34, 0, 0, 0, 5, 6]),
        Negative { service: 0x34, code: 0x13 },
        "a byte long"
    );
    assert_eq!(
        refused(&[0x34, 0x00, 0x44, 0x12, 0x34, 0, 0, 0, 5]),
        Negative { service: 0x34, code: 0x31 },
        "another format"
    );
    assert_eq!(refused(&[0x10]), Negative { service: 0x10, code: 0x11 });
}

#[test]
fn a_download_drops_the_data_format() {
    let bytes = [0x34, 0x11, 0x42, 0x12, 0x34, 0xde, 0xad, 0xbe, 0xef];
    let request = Request::parse(&bytes).expect("parse");
    assert_eq!(
        request,
        Request::RequestDownload {
            address: 0x1234,
            size: 0xdead_beef
        }
    );
    let mut zeroed = bytes;
    zeroed[1] = 0;
    assert_eq!(request.encode(), zeroed);
}

#[test]
fn a_control_no_ecu_takes_does_not_read_back() {
    let request = Request::RoutineControl {
        control: 4,
        routine: 0,
        data: vec![],
    };
    assert_eq!(
        Request::parse(&request.encode()),
        Err(Negative {
            service: 0x31,
            code: 0x12
        })
    );
}

#[test]
fn a_message_that_is_no_response_says_how() {
    assert_eq!(Response::parse(&[]), Err(ProtocolError::EmptyResponse));
    assert_eq!(
        Response::parse(&[0x7f, 0x22]),
        Err(ProtocolError::NegativeWithoutCode)
    );
    assert_eq!(
        Response::parse(&[0x7f, 0x22, 0x31, 0]),
        Err(ProtocolError::NegativeWithoutCode)
    );
    assert_eq!(
        Response::parse(&[0x22, 0xf1, 0x90]),
        Err(ProtocolError::NotAResponse)
    );
    assert_eq!(
        Response::block_length(&[0x20, 1]),
        Err(ProtocolError::NoBlockLength)
    );
    assert_eq!(Response::block_length(&[0x20, 1, 2]), Ok(0x0102));
}

#[test]
fn a_positive_response_reads_back_and_its_bytes_write_back() {
    for service in [0x22, 0x2e, 0x31, 0x34, 0x36, 0x37] {
        let response = Response::Positive {
            service,
            data: vec![service, 0, 0xff],
        };
        let bytes = response.encode();
        assert_eq!(bytes[0], service + POSITIVE);
        assert_eq!(Response::parse(&bytes), Ok(response));
    }
    let bytes = [0xff, 1, 2];
    assert_eq!(Response::parse(&bytes).expect("parse").encode(), bytes);
    let mark = Response::Positive {
        service: 0x3f,
        data: vec![TRANSFER_DATA, 0x11],
    };
    assert_eq!(
        Response::parse(&mark.encode()),
        Ok(Response::Negative(Negative {
            service: 0x36,
            code: 0x11
        })),
        "0x3f answered positively is the mark of a negative response"
    );
}

#[test]
fn every_error_says_itself_in_words() {
    let words = [
        (ProtocolError::EmptyResponse, "an empty response"),
        (
            ProtocolError::NegativeWithoutCode,
            "a negative response without its code",
        ),
        (ProtocolError::NotAResponse, "a response that is not one"),
        (
            ProtocolError::NoBlockLength,
            "a download answer without a block length",
        ),
        (
            ProtocolError::AnotherService {
                answered: 0x2e,
                asked: 0x02,
            },
            "an answer to service 0x2e, not 0x02",
        ),
        (
            ProtocolError::Refused(Negative {
                service: 0xab,
                code: 0xcd,
            }),
            "service 0xab refused with code 0xcd",
        ),
        (
            ProtocolError::DownloadTooLong,
            "a download longer than four bytes can size",
        ),
        (
            ProtocolError::BlockHoldsNoData,
            "a block length that holds no data",
        ),
        (ProtocolError::HungUp, "the tester hung up"),
        (
            ProtocolError::NotAnIdentifier("vin".to_string()),
            "vin is not a data identifier",
        ),
    ];
    for (error, said) in words {
        assert_eq!(error.message(), said);
    }
}
