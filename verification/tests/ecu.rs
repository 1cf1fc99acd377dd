use uds::{Ecu, Request};

fn answered(ecu: &mut Ecu, request: &Request) -> (Vec<u8>, Option<u16>) {
    let (response, done) = ecu.answer(&request.encode());
    (response.encode(), done)
}

#[test]
fn a_write_lands_at_once_and_reads_back() {
    let mut ecu = Ecu::new().holding(0xf190, b"WVW");
    let read = Request::ReadDataByIdentifier { did: 0xf190 };
    assert_eq!(
        answered(&mut ecu, &read),
        (b"\x62\xf1\x90WVW".to_vec(), None)
    );
    let write = Request::WriteDataByIdentifier {
        did: 0xf190,
        data: b"XYZ".to_vec(),
    };
    assert_eq!(
        answered(&mut ecu, &write),
        (vec![0x6e, 0xf1, 0x90], Some(0xf190))
    );
    assert_eq!(ecu.held(0xf190).expect("held"), b"XYZ");
    let unknown = Request::ReadDataByIdentifier { did: 0x0001 };
    assert_eq!(answered(&mut ecu, &unknown), (vec![0x7f, 0x22, 0x31], None));
    let routine = Request::RoutineControl {
        control: 1,
        routine: 0xff00,
        data: vec![],
    };
    assert_eq!(
        answered(&mut ecu, &routine),
        (vec![0x71, 1, 0xff, 0x00], None)
    );
    assert_eq!(ecu.answer(&[0x10, 1]).0.encode(), [0x7f, 0x10, 0x11]);
}

#[test]
fn a_download_lands_on_exit_in_the_blocks_the_ecu_sized() {
    let mut ecu = Ecu::new().in_blocks_of(6);
    let open = Request::RequestDownload {
        address: 0x0100,
        size: 10,
    };
    assert_eq!(answered(&mut ecu, &open), (vec![0x74, 0x20, 0, 6], None));
    for (block, data) in [(1u8, &b"abcd"[..]), (2, b"efgh"), (3, b"ij")] {
        let transfer = Request::TransferData {
            block,
            data: data.to_vec(),
        };
        assert_eq!(answered(&mut ecu, &transfer), (vec![0x76, block], None));
    }
    assert_eq!(
        answered(&mut ecu, &Request::RequestTransferExit),
        (vec![0x77], Some(0x0100))
    );
    assert_eq!(ecu.held(0x0100).expect("held"), b"abcdefghij");
}

#[test]
fn a_download_out_of_order_is_refused_with_the_code_that_says_so() {
    let mut ecu = Ecu::default().in_blocks_of(6);
    let transfer = |block, data: &[u8]| Request::TransferData {
        block,
        data: data.to_vec(),
    };
    assert_eq!(
        answered(&mut ecu, &transfer(1, b"ab")).0,
        [0x7f, 0x36, 0x24]
    );
    assert_eq!(
        answered(&mut ecu, &Request::RequestTransferExit).0,
        [0x7f, 0x37, 0x24]
    );
    let open = Request::RequestDownload {
        address: 0x0100,
        size: 4,
    };
    answered(&mut ecu, &open);
    assert_eq!(
        answered(&mut ecu, &transfer(2, b"ab")).0,
        [0x7f, 0x36, 0x73]
    );
    assert_eq!(
        answered(&mut ecu, &transfer(1, b"abcde")).0,
        [0x7f, 0x36, 0x13]
    );
    assert_eq!(answered(&mut ecu, &transfer(1, b"abc")).0, [0x76, 1]);
    assert_eq!(
        answered(&mut ecu, &transfer(2, b"de")).0,
        [0x7f, 0x36, 0x31]
    );
    assert_eq!(
        answered(&mut ecu, &Request::RequestTransferExit).0,
        [0x7f, 0x37, 0x24]
    );
    assert!(
        ecu.held(0x0100).is_none(),
        "a short download does not land"
    );
}

#[test]
fn a_block_length_too_short_for_a_byte_is_three() {
    for asked in [0, 1, 2, 3] {
        let mut ecu = Ecu::new().in_blocks_of(asked);
        let open = Request::RequestDownload {
            address: 1,
            size: 1,
        };
        assert_eq!(answered(&mut ecu, &open).0, [0x74, 0x20, 0, 3]);
    }
    let mut ecu = Ecu::new();
    let open = Request::RequestDownload {
        address: 1,
        size: 1,
    };
    assert_eq!(answered(&mut ecu, &open).0, [0x74, 0x20, 0x0f, 0xff]);
}

#[test]
fn an_empty_message_is_answered_too() {
    let mut ecu = Ecu::new();
    let (response, written) = ecu.answer(&[]);
    assert_eq!(response.encode(), [0x7f, 0x00, 0x13]);
    assert_eq!(written, None);
}

#[test]
fn a_refused_exit_closes_the_download() {
    let mut ecu = Ecu::new();
    answered(
        &mut ecu,
        &Request::RequestDownload {
            address: 7,
            size: 2,
        },
    );
    assert_eq!(
        answered(&mut ecu, &Request::RequestTransferExit).0,
        [0x7f, 0x37, 0x24]
    );
    let transfer = Request::TransferData {
        block: 1,
        data: b"ab".to_vec(),
    };
    assert_eq!(answered(&mut ecu, &transfer).0, [0x7f, 0x36, 0x24]);
}

#[test]
fn a_download_is_not_disturbed_by_other_services() {
    let mut ecu = Ecu::new().holding(1, b"one");
    answered(
        &mut ecu,
        &Request::RequestDownload {
            address: 7,
            size: 2,
        },
    );
    answered(&mut ecu, &Request::ReadDataByIdentifier { did: 1 });
    answered(
        &mut ecu,
        &Request::WriteDataByIdentifier {
            did: 7,
            data: b"between".to_vec(),
        },
    );
    ecu.answer(&[0x99]);
    assert_eq!(ecu.held(7).expect("held"), b"between");
    answered(
        &mut ecu,
        &Request::TransferData {
            block: 1,
            data: b"ab".to_vec(),
        },
    );
    assert_eq!(
        answered(&mut ecu, &Request::RequestTransferExit),
        (vec![0x77], Some(7))
    );
    assert_eq!(ecu.held(7).expect("held"), b"ab");
    assert_eq!(ecu.held(1).expect("held"), b"one");
}

#[test]
fn the_block_counter_wraps() {
    let mut ecu = Ecu::new().in_blocks_of(3);
    answered(
        &mut ecu,
        &Request::RequestDownload {
            address: 7,
            size: 300,
        },
    );
    let mut block: u8 = 1;
    for n in 0..300u32 {
        let data = vec![n as u8];
        let transfer = Request::TransferData { block, data };
        assert_eq!(answered(&mut ecu, &transfer).0, [0x76, block]);
        block = block.wrapping_add(1);
    }
    assert_eq!(
        answered(&mut ecu, &Request::RequestTransferExit).1,
        Some(7)
    );
    assert_eq!(ecu.held(7).expect("held").len(), 300);
}

#[test]
fn a_refused_block_leaves_the_download_as_it_was() {
    let mut ecu = Ecu::new().in_blocks_of(6);
    answered(
        &mut ecu,
        &Request::RequestDownload {
            address: 7,
            size: 4,
        },
    );
    assert_eq!(ecu.take_block(2, b"xx"), Err(0x73));
    assert_eq!(ecu.take_block(1, b"xxxxx"), Err(0x13));
    assert_eq!(ecu.take_block(1, b"abc"), Ok(()));
    assert_eq!(ecu.take_block(2, b"xx"), Err(0x31));
    for between in [&[0x22, 0, 7][..], &[0x2e, 0, 7, 9], &[0x31, 1, 0, 0], &[0x10, 1], &[]] {
        let _ = ecu.answer(between);
    }
    assert_eq!(ecu.take_block(2, b"d"), Ok(()));
    assert_eq!(ecu.close_download(), Ok(7));
    assert_eq!(ecu.held(7).expect("held"), b"abcd");
}

#[test]
fn a_closed_download_cannot_be_resumed() {
    let mut ecu = Ecu::new();
    answered(
        &mut ecu,
        &Request::RequestDownload {
            address: 7,
            size: 4,
        },
    );
    assert_eq!(ecu.take_block(1, b"abc"), Ok(()));
    assert_eq!(ecu.close_download(), Err(0x24));
    let _ = ecu.answer(&[0x2e, 0, 1, 9]);
    assert_eq!(ecu.take_block(2, b"d"), Err(0x24));
    assert_eq!(ecu.take_block(1, b"abcd"), Err(0x24));
    assert_eq!(ecu.close_download(), Err(0x24));
    assert_eq!(ecu.held(7), None);
}
