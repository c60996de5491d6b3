use fastwebsockets::{
    inflate_payload, is_control, parse_frame, unmask, CloseCode, FragmentCollector, Frame, OpCode,
    Outgoing, ParseOutcome, ReadEvent, Role, WebSocket, WebSocketError,
};

fn server() -> WebSocket<()> {
    WebSocket::after_handshake((), Role::Server)
}

fn single(o: Outgoing) -> Vec<u8> {
    match o {
        Outgoing::Single(b) => b,
        Outgoing::Vectored(_, _) => panic!("expected a single write"),
    }
}

fn expect_frame(ev: ReadEvent) -> Frame {
    match ev {
        ReadEvent::Deliver(f) => f,
        _ => panic!("expected a frame"),
    }
}

fn expect_fail(ev: ReadEvent) -> WebSocketError {
    match ev {
        ReadEvent::Fail(e) => e,
        _ => panic!("expected a failure"),
    }
}

fn read_one(bytes: &[u8]) -> ReadEvent {
    let mut ws = server();
    ws.receive(bytes);
    ws.read_frame([0, 0, 0, 0])
}

#[test]
fn unmask_twice_gives_back_payload() {
    let plain = vec![1u8, 2, 3, 4, 5, 6, 7, 200];
    let mut p = plain.clone();
    unmask(&mut p, [0x11, 0x22, 0x33, 0x44]);
    assert_eq!(p, vec![1 ^ 0x11, 2 ^ 0x22, 3 ^ 0x33, 4 ^ 0x44, 5 ^ 0x11, 6 ^ 0x22, 7 ^ 0x33, 200 ^ 0x44]);
    unmask(&mut p, [0x11, 0x22, 0x33, 0x44]);
    assert_eq!(p, plain);
}

#[test]
fn encode_then_parse_gives_frame_back() {
    for len in [0usize, 5, 125, 126, 65535, 65536] {
        let payload: Vec<u8> = (0..len).map(|i| (i % 251) as u8).collect();
        let f = Frame::new(false, OpCode::Binary, Some([9, 8, 7, 6]), payload.clone());
        let bytes = f.encode();
        match parse_frame(&bytes, 1 << 20, false) {
            ParseOutcome::Complete { frame, compressed, consumed } => {
                assert!(!frame.fin);
                assert_eq!(frame.opcode, OpCode::Binary);
                assert_eq!(frame.mask, Some([9, 8, 7, 6]));
                assert_eq!(frame.payload, payload);
                assert!(!compressed);
                assert_eq!(consumed, bytes.len());
            }
            _ => panic!("expected a complete frame"),
        }
    }
}

#[test]
fn header_lengths() {
    assert_eq!(Frame::text(vec![b'a'; 125]).fmt_head(), vec![0x81, 125]);
    assert_eq!(Frame::text(vec![b'a'; 126]).fmt_head(), vec![0x81, 126, 0, 126]);
    assert_eq!(
        Frame::binary(vec![0; 65536]).fmt_head(),
        vec![0x82, 127, 0, 0, 0, 0, 0, 1, 0, 0]
    );
}

#[test]
fn reserved_bits_are_refused() {
    assert!(matches!(parse_frame(&[0xA1, 0x00], 1024, true), ParseOutcome::Invalid(WebSocketError::ReservedBitsNotZero)));
    assert!(matches!(parse_frame(&[0x91, 0x00], 1024, true), ParseOutcome::Invalid(WebSocketError::ReservedBitsNotZero)));
    assert!(matches!(parse_frame(&[0xF1, 0x00], 1024, true), ParseOutcome::Invalid(WebSocketError::ReservedBitsNotZero)));
}

#[test]
fn large_ping_is_refused() {
    assert_eq!(expect_fail(read_one(&[0x89, 0x7E, 0x00, 0x7E])), WebSocketError::PingFrameTooLarge);
    assert_eq!(expect_fail(read_one(&[0x89, 0x7E, 0x10, 0x00])), WebSocketError::PingFrameTooLarge);
}

#[test]
fn fragmented_control_is_refused() {
    assert_eq!(expect_fail(read_one(&[0x09, 0x00])), WebSocketError::ControlFrameFragmented);
    assert_eq!(expect_fail(read_one(&[0x08, 0x00])), WebSocketError::ControlFrameFragmented);
    assert_eq!(expect_fail(read_one(&[0x0A, 0x00])), WebSocketError::ControlFrameFragmented);
}

#[test]
fn close_with_reason_is_echoed_once() {
    let mut ws = server();
    ws.receive(&[0x88, 0x05, 0x03, 0xE8, b'b', b'y', b'e']);
    match ws.read_frame([0, 0, 0, 0]) {
        ReadEvent::ReplyThenDeliver(o, f) => {
            assert_eq!(single(o), vec![0x88, 0x05, 0x03, 0xE8, b'b', b'y', b'e']);
            assert_eq!(f.opcode, OpCode::Close);
            assert_eq!(f.payload, vec![0x03, 0xE8, b'b', b'y', b'e']);
        }
        _ => panic!("expected the close echo"),
    }
    assert!(matches!(ws.write_frame(Frame::close(1000, b""), [0, 0, 0, 0]), Err(WebSocketError::ConnectionClosed)));
}

#[test]
fn disallowed_close_code_answers_protocol_error() {
    match read_one(&[0x88, 0x02, 0x03, 0xEC]) {
        ReadEvent::ReplyThenFail(o, e) => {
            assert_eq!(single(o), vec![0x88, 0x02, 0x03, 0xEA]);
            assert_eq!(e, WebSocketError::InvalidCloseCode);
        }
        _ => panic!("expected a Close 1002 and a failure"),
    }
}

#[test]
fn text_must_be_utf8() {
    assert_eq!(expect_fail(read_one(&[0x81, 0x02, 0xC3, 0x28])), WebSocketError::InvalidUTF8);
    let f = expect_frame(read_one(&[0x81, 0x03, 0xE2, 0x82, 0xAC]));
    assert_eq!(f.payload, vec![0xE2, 0x82, 0xAC]);
    let partial = expect_frame(read_one(&[0x01, 0x01, 0xE2]));
    assert_eq!(partial.payload, vec![0xE2]);
}

#[test]
fn size_limit_is_strict() {
    let mut ws = server();
    ws.set_max_message_size(1024);
    ws.receive(&[0x82, 0x7E, 0x04, 0x00]);
    assert_eq!(expect_fail(ws.read_frame([0, 0, 0, 0])), WebSocketError::FrameTooLarge);
    let mut ws = server();
    ws.set_max_message_size(1024);
    ws.receive(&[0x82, 0x7E, 0x03, 0xFF]);
    assert!(matches!(ws.read_frame([0, 0, 0, 0]), ReadEvent::NeedMore));
}

#[test]
fn back_to_back_frames_in_one_read() {
    let mut ws = server();
    ws.receive(&[0x81, 0x02, b'h', b'i', 0x82, 0x01, 0x07]);
    let first = expect_frame(ws.read_frame([0, 0, 0, 0]));
    assert_eq!(first.opcode, OpCode::Text);
    assert_eq!(first.payload, b"hi".to_vec());
    let second = expect_frame(ws.read_frame([0, 0, 0, 0]));
    assert_eq!(second.opcode, OpCode::Binary);
    assert_eq!(second.payload, vec![0x07]);
    assert!(matches!(ws.read_frame([0, 0, 0, 0]), ReadEvent::NeedMore));
}

#[test]
fn frame_split_over_reads() {
    let mut ws = server();
    ws.receive(&[0x82]);
    assert!(matches!(ws.read_frame([0, 0, 0, 0]), ReadEvent::NeedMore));
    ws.receive(&[0x03, 1, 2]);
    assert!(matches!(ws.read_frame([0, 0, 0, 0]), ReadEvent::NeedMore));
    ws.receive(&[3]);
    assert_eq!(expect_frame(ws.read_frame([0, 0, 0, 0])).payload, vec![1, 2, 3]);
}

#[test]
fn assembler_joins_fragments() {
    let mut c = FragmentCollector::new(server());
    assert!(matches!(c.accept(Frame::new(false, OpCode::Text, None, b"he".to_vec())), Ok(None)));
    assert!(matches!(c.accept(Frame::new(false, OpCode::Continuation, None, b"ll".to_vec())), Ok(None)));
    let ping = c.accept(Frame::ping(vec![1])).unwrap().unwrap();
    assert_eq!(ping.opcode, OpCode::Ping);
    let whole = c.accept(Frame::new(true, OpCode::Continuation, None, b"o".to_vec())).unwrap().unwrap();
    assert!(whole.fin);
    assert_eq!(whole.opcode, OpCode::Text);
    assert_eq!(whole.payload, b"hello".to_vec());
}

#[test]
fn assembler_errors() {
    let mut c = FragmentCollector::new(server());
    assert!(matches!(
        c.accept(Frame::new(true, OpCode::Continuation, None, vec![1])),
        Err(WebSocketError::InvalidContinuationFrame)
    ));
    assert!(matches!(c.accept(Frame::new(false, OpCode::Binary, None, vec![1])), Ok(None)));
    assert!(matches!(c.accept(Frame::text(vec![b'a'])), Err(WebSocketError::InvalidFragment)));
    let mut small = server();
    small.set_max_message_size(4);
    let mut c = FragmentCollector::new(small);
    assert!(matches!(c.accept(Frame::new(false, OpCode::Binary, None, vec![1, 2, 3])), Ok(None)));
    assert!(matches!(
        c.accept(Frame::new(true, OpCode::Continuation, None, vec![4, 5])),
        Err(WebSocketError::FrameTooLarge)
    ));
    let whole = c.accept(Frame::new(true, OpCode::Continuation, None, vec![4])).unwrap().unwrap();
    assert_eq!(whole.payload, vec![1, 2, 3, 4]);
}

#[test]
fn server_unmasks_client_text() {
    let bytes = [
        0x81, 0x85, 0x01, 0x02, 0x03, 0x04, 0x48 ^ 0x01, 0x65 ^ 0x02, 0x6C ^ 0x03, 0x6C ^ 0x04, 0x6F ^ 0x01,
    ];
    let f = expect_frame(read_one(&bytes));
    assert_eq!(f.opcode, OpCode::Text);
    assert_eq!(f.payload, vec![0x48, 0x65, 0x6C, 0x6C, 0x6F]);
    assert_eq!(f.mask, None);
}

#[test]
fn ping_is_answered_with_pong() {
    let mut ws = server();
    ws.receive(&[0x89, 0x00]);
    match ws.read_frame([0, 0, 0, 0]) {
        ReadEvent::Reply(o) => assert_eq!(single(o), vec![0x8A, 0x00]),
        _ => panic!("expected a pong"),
    }
    assert!(matches!(ws.read_frame([0, 0, 0, 0]), ReadEvent::NeedMore));
}

#[test]
fn ping_is_delivered_without_auto_pong() {
    let mut ws = server();
    ws.set_auto_pong(false);
    ws.receive(&[0x89, 0x01, 0x05]);
    let f = expect_frame(ws.read_frame([0, 0, 0, 0]));
    assert_eq!(f.opcode, OpCode::Ping);
}

#[test]
fn close_code_1000_is_echoed() {
    let mut ws = server();
    ws.receive(&[0x88, 0x02, 0x03, 0xE8]);
    match ws.read_frame([0, 0, 0, 0]) {
        ReadEvent::ReplyThenDeliver(o, f) => {
            assert_eq!(single(o), vec![0x88, 0x02, 0x03, 0xE8]);
            assert_eq!(f.payload, vec![0x03, 0xE8]);
        }
        _ => panic!("expected the close echo"),
    }
    ws.receive(&[0x81, 0x00]);
    assert_eq!(expect_fail(ws.read_frame([0, 0, 0, 0])), WebSocketError::ConnectionClosed);
}

#[test]
fn close_without_auto_close_is_delivered() {
    let mut ws = server();
    ws.set_auto_close(false);
    ws.receive(&[0x88, 0x02, 0x03, 0xEC]);
    assert_eq!(expect_frame(ws.read_frame([0, 0, 0, 0])).opcode, OpCode::Close);
}

#[test]
fn close_body_errors() {
    assert_eq!(expect_fail(read_one(&[0x88, 0x01, 0x03])), WebSocketError::InvalidCloseFrame);
    match read_one(&[0x88, 0x04, 0x03, 0xE8, 0xC3, 0x28]) {
        ReadEvent::ReplyThenFail(o, e) => {
            assert_eq!(single(o), vec![0x88, 0x04, 0x03, 0xE8, 0xC3, 0x28]);
            assert_eq!(e, WebSocketError::InvalidUTF8);
        }
        _ => panic!("expected the close echo and a failure"),
    }
    match read_one(&[0x88, 0x00]) {
        ReadEvent::ReplyThenDeliver(o, _) => assert_eq!(single(o), vec![0x88, 0x00]),
        _ => panic!("expected the close echo"),
    }
}

#[test]
fn unknown_opcode_is_refused() {
    assert_eq!(expect_fail(read_one(&[0x83, 0x00])), WebSocketError::InvalidOpCode);
    assert_eq!(expect_fail(read_one(&[0x8B, 0x00])), WebSocketError::InvalidOpCode);
}

#[test]
fn client_masks_large_binary_with_vectored_write() {
    let mut ws = WebSocket::after_handshake((), Role::Client);
    let payload = vec![0xAAu8; 70000];
    match ws.write_frame(Frame::binary(payload), [1, 2, 3, 4]).unwrap() {
        Outgoing::Vectored(head, body) => {
            assert_eq!(head, vec![0x82, 0xFF, 0, 0, 0, 0, 0, 0x01, 0x11, 0x70, 1, 2, 3, 4]);
            assert_eq!(body.len(), 70000);
            assert_eq!(&body[..5], &[0xAA ^ 1, 0xAA ^ 2, 0xAA ^ 3, 0xAA ^ 4, 0xAA ^ 1]);
        }
        Outgoing::Single(_) => panic!("expected a vectored write"),
    }
}

#[test]
fn small_or_unvectored_writes_are_single() {
    let mut ws = server();
    assert_eq!(single(ws.write_frame(Frame::text(b"hi".to_vec()), [1, 2, 3, 4]).unwrap()), vec![0x81, 0x02, b'h', b'i']);
    ws.set_writev(false);
    let o = ws.write_frame(Frame::binary(vec![0; 2000]), [0, 0, 0, 0]).unwrap();
    assert_eq!(single(o).len(), 2004);
    ws.set_writev(true);
    ws.set_writev_threshold(4000);
    let o = ws.write_frame(Frame::binary(vec![0; 2000]), [0, 0, 0, 0]).unwrap();
    assert_eq!(single(o).len(), 2004);
}

#[test]
fn client_without_auto_mask_sends_plain() {
    let mut ws = WebSocket::after_handshake((), Role::Client);
    ws.set_auto_apply_mask(false);
    assert_eq!(single(ws.write_frame(Frame::pong(vec![7]), [1, 2, 3, 4]).unwrap()), vec![0x8A, 0x01, 7]);
}

#[test]
fn rsv1_needs_negotiated_compression() {
    let mut ws = server();
    ws.set_deflate(false);
    ws.receive(&[0xC1, 0x07, 0xF2, 0x48, 0xCD, 0xC9, 0xC9, 0x07, 0x00]);
    assert_eq!(expect_fail(ws.read_frame([0, 0, 0, 0])), WebSocketError::ReservedBitsNotZero);
    assert!(matches!(parse_frame(&[0xC1, 0x00], 1024, false), ParseOutcome::Invalid(WebSocketError::ReservedBitsNotZero)));
    assert!(matches!(parse_frame(&[0xC1, 0x00], 1024, true), ParseOutcome::Complete { compressed: true, .. }));
    assert!(matches!(parse_frame(&[0xE1, 0x00], 1024, true), ParseOutcome::Invalid(WebSocketError::ReservedBitsNotZero)));
}

#[test]
fn highly_compressed_payload_is_inflated_whole() {
    let compressed = vec![0x4A, 0x4C, 0x1C, 0x05, 0xA3, 0x60, 0x14, 0x0C, 0x77, 0x00, 0x00];
    assert_eq!(inflate_payload(&compressed), Ok(vec![b'a'; 1000]));
    let mut bytes = vec![0xC2, 0x0B];
    bytes.extend_from_slice(&compressed);
    assert_eq!(expect_frame(read_one(&bytes)).payload, vec![b'a'; 1000]);
}

#[test]
fn masked_compressed_text_is_unmasked_then_inflated() {
    let key = [0x01, 0x02, 0x03, 0x04];
    let compressed = [0xF2u8, 0x48, 0xCD, 0xC9, 0xC9, 0x07, 0x00];
    let mut bytes = vec![0xC1, 0x87, 1, 2, 3, 4];
    for (i, b) in compressed.iter().enumerate() {
        bytes.push(b ^ key[i % 4]);
    }
    assert_eq!(expect_frame(read_one(&bytes)).payload, b"Hello".to_vec());
}

#[test]
fn compressed_text_is_inflated() {
    let f = expect_frame(read_one(&[0xC1, 0x07, 0xF2, 0x48, 0xCD, 0xC9, 0xC9, 0x07, 0x00]));
    assert!(f.fin);
    assert_eq!(f.opcode, OpCode::Text);
    assert_eq!(f.payload, vec![0x48, 0x65, 0x6C, 0x6C, 0x6F]);
}

#[test]
fn bad_deflate_data_is_refused() {
    assert_eq!(expect_fail(read_one(&[0xC2, 0x02, 0xFF, 0xFF])), WebSocketError::InvalidEncoding);
    assert_eq!(inflate_payload(&vec![0xFF, 0xFF]), Err(WebSocketError::InvalidEncoding));
    assert_eq!(inflate_payload(&vec![0xF2, 0x48, 0xCD, 0xC9, 0xC9, 0x07, 0x00]), Ok(b"Hello".to_vec()));
}

#[test]
fn close_codes_are_classified() {
    assert_eq!(CloseCode::from_code(1000), CloseCode::Normal);
    assert_eq!(CloseCode::from_code(1004), CloseCode::Reserved);
    assert_eq!(CloseCode::from_code(3500), CloseCode::Application(3500));
    assert_eq!(CloseCode::from_code(4999), CloseCode::Private(4999));
    assert_eq!(CloseCode::from_code(1012), CloseCode::Other(1012));
    assert!(CloseCode::from_code(1000).is_allowed());
    assert!(CloseCode::from_code(1011).is_allowed());
    assert!(CloseCode::from_code(3000).is_allowed());
    for c in [1004u16, 1005, 1006, 1015, 999, 2000, 5000] {
        assert!(!CloseCode::from_code(c).is_allowed());
    }
}

#[test]
fn frame_helpers() {
    assert!(is_control(OpCode::Close) && is_control(OpCode::Ping) && is_control(OpCode::Pong));
    assert!(!is_control(OpCode::Text) && !is_control(OpCode::Continuation));
    assert_eq!(Frame::close(1000, b"ok").payload, vec![0x03, 0xE8, b'o', b'k']);
    assert!(Frame::text(vec![0xE2, 0x82, 0xAC]).is_utf8());
    assert!(!Frame::text(vec![0xC3, 0x28]).is_utf8());
    let mut f = Frame::binary(vec![1, 2, 3]);
    f.mask([5, 5, 5, 5]);
    assert_eq!(f.payload, vec![4, 7, 6]);
    f.unmask();
    assert_eq!(f.payload, vec![1, 2, 3]);
    assert_eq!(f.mask, None);
    assert_eq!(WebSocket::after_handshake(7u32, Role::Server).into_inner(), 7);
}

#[test]
fn several_pings_are_answered_in_order() {
    let mut ws = server();
    ws.receive(&[0x89, 0x01, 0x0A, 0x89, 0x00, 0x82, 0x01, 0x07]);
    match ws.read_frame([0, 0, 0, 0]) {
        ReadEvent::Reply(o) => assert_eq!(single(o), vec![0x8A, 0x01, 0x0A]),
        _ => panic!("expected the first pong"),
    }
    match ws.read_frame([0, 0, 0, 0]) {
        ReadEvent::Reply(o) => assert_eq!(single(o), vec![0x8A, 0x00]),
        _ => panic!("expected the second pong"),
    }
    assert_eq!(expect_frame(ws.read_frame([0, 0, 0, 0])).payload, vec![0x07]);
}
