use chess_sync::codec::{
    decode_c2s, decode_s2c, encode_c2s, encode_s2c, BoardState, C2sMessage, ConnectAck,
    ConnectRequest, DecodeError, Move, MoveAck, PieceType, S2cMessage,
};
use chess_sync::wire::{read_fields, write_fields, Field};

fn mv(from: u32, to: u32) -> Move {
    Move { from_square: from, to_square: to, promotion: None }
}

fn board(fen: &str) -> Option<BoardState> {
    Some(BoardState { fen_string: fen.to_string() })
}

#[test]
fn connect_request_bytes() {
    let e = C2sMessage::ConnectRequest(ConnectRequest { game_id: 69, spectate: false });
    assert_eq!(encode_c2s(&e), vec![0x0a, 0x02, 0x08, 0x45]);
}

#[test]
fn spectate_request_bytes() {
    let e = C2sMessage::ConnectRequest(ConnectRequest { game_id: 300, spectate: true });
    assert_eq!(encode_c2s(&e), vec![0x0a, 0x05, 0x08, 0xac, 0x02, 0x10, 0x01]);
}

#[test]
fn move_bytes() {
    assert_eq!(encode_c2s(&C2sMessage::Move(mv(12, 28))), vec![0x12, 0x04, 0x08, 0x0c, 0x10, 0x1c]);
}

#[test]
fn zero_move_bytes() {
    assert_eq!(encode_c2s(&C2sMessage::Move(mv(0, 0))), vec![0x12, 0x00]);
}

#[test]
fn promotion_bytes() {
    let m = Move { from_square: 52, to_square: 60, promotion: Some(PieceType::Queen) };
    assert_eq!(encode_s2c(&S2cMessage::Move(m)), vec![0x12, 0x06, 0x08, 0x34, 0x10, 0x3c, 0x18, 0x04]);
}

#[test]
fn move_ack_bytes() {
    let e = S2cMessage::MoveAck(MoveAck { legal: true, board_result: board("8") });
    assert_eq!(encode_s2c(&e), vec![0x1a, 0x07, 0x08, 0x01, 0x12, 0x03, 0x0a, 0x01, 0x38]);
}

#[test]
fn c2s_round_trips() {
    let cases = vec![
        C2sMessage::ConnectRequest(ConnectRequest { game_id: 69, spectate: false }),
        C2sMessage::ConnectRequest(ConnectRequest { game_id: 0, spectate: true }),
        C2sMessage::ConnectRequest(ConnectRequest { game_id: u64::MAX, spectate: true }),
        C2sMessage::Move(mv(12, 28)),
        C2sMessage::Move(mv(0, 0)),
        C2sMessage::Move(Move { from_square: u32::MAX, to_square: 7, promotion: Some(PieceType::Pawn) }),
        C2sMessage::Move(Move { from_square: 8, to_square: 0, promotion: Some(PieceType::King) }),
    ];
    for e in cases {
        assert_eq!(decode_c2s(&encode_c2s(&e)), Ok(e));
    }
}

#[test]
fn s2c_round_trips() {
    let start = "rnbqkbnr/pppppppp/8/8/8/8/PPPPPPPP/RNBQKBNR w KQkq - 0 1";
    let cases = vec![
        S2cMessage::ConnectAck(ConnectAck {
            success: true,
            game_id: Some(69),
            client_is_white: Some(false),
            starting_position: board(start),
        }),
        S2cMessage::ConnectAck(ConnectAck {
            success: false,
            game_id: Some(0),
            client_is_white: None,
            starting_position: None,
        }),
        S2cMessage::ConnectAck(ConnectAck {
            success: true,
            game_id: None,
            client_is_white: Some(true),
            starting_position: board(""),
        }),
        S2cMessage::Move(mv(12, 28)),
        S2cMessage::MoveAck(MoveAck { legal: false, board_result: board("ä ö") }),
        S2cMessage::MoveAck(MoveAck { legal: true, board_result: None }),
    ];
    for e in cases {
        assert_eq!(decode_s2c(&encode_s2c(&e)), Ok(e));
    }
}

#[test]
fn empty_payload_is_rejected() {
    assert_eq!(decode_c2s(&[]), Err(DecodeError));
    assert_eq!(decode_s2c(&[]), Err(DecodeError));
}

#[test]
fn unknown_kind_is_rejected() {
    assert_eq!(decode_c2s(&[0x1a, 0x00]), Err(DecodeError));
    assert_eq!(decode_s2c(&[0x22, 0x00]), Err(DecodeError));
}

#[test]
fn truncated_message_is_rejected() {
    assert_eq!(decode_c2s(&[0x0a, 0x05, 0x08]), Err(DecodeError));
    assert_eq!(decode_c2s(&[0x0a, 0x02, 0x08, 0xc5]), Err(DecodeError));
}

#[test]
fn default_is_not_substituted() {
    // an explicit zero square is not how the message is written
    assert_eq!(decode_c2s(&[0x12, 0x02, 0x08, 0x00]), Err(DecodeError));
    // two messages in one read
    assert_eq!(decode_c2s(&[0x12, 0x00, 0x12, 0x00]), Err(DecodeError));
}

#[test]
fn direction_is_checked() {
    let ack = encode_s2c(&S2cMessage::MoveAck(MoveAck { legal: true, board_result: None }));
    assert_eq!(decode_c2s(&ack), Err(DecodeError));
}

#[test]
fn square_out_of_u32_is_rejected() {
    // from_square = 2^32
    assert_eq!(decode_c2s(&[0x12, 0x06, 0x08, 0x80, 0x80, 0x80, 0x80, 0x10]), Err(DecodeError));
}

#[test]
fn unknown_piece_is_rejected() {
    assert_eq!(decode_c2s(&[0x12, 0x02, 0x18, 0x06]), Err(DecodeError));
}

#[test]
fn invalid_utf8_is_rejected() {
    let bytes = vec![0x1a, 0x05, 0x12, 0x03, 0x0a, 0x01, 0xff];
    assert_eq!(decode_s2c(&bytes), Err(DecodeError));
}

#[test]
fn fields_round_trip() {
    let fs = vec![
        Field::Varint { tag: 1, value: 150 },
        Field::Bytes { tag: 2, data: vec![1, 2, 3] },
        Field::Varint { tag: 16, value: u64::MAX },
    ];
    let bytes = write_fields(&fs);
    assert_eq!(&bytes[0..3], &[0x08, 0x96, 0x01]);
    assert_eq!(bytes.len(), 3 + 5 + 12);
    let back = read_fields(&bytes).unwrap();
    assert_eq!(back.len(), 3);
    match &back[2] {
        Field::Varint { tag, value } => {
            assert_eq!(*tag, 16);
            assert_eq!(*value, u64::MAX);
        }
        _ => panic!("wrong field kind"),
    }
    match &back[1] {
        Field::Bytes { tag, data } => {
            assert_eq!(*tag, 2);
            assert_eq!(data, &vec![1, 2, 3]);
        }
        _ => panic!("wrong field kind"),
    }
}

#[test]
fn overlong_varint_is_rejected() {
    let bytes = vec![0x08, 0xff, 0xff, 0xff, 0xff, 0xff, 0xff, 0xff, 0xff, 0xff, 0x02];
    assert!(read_fields(&bytes).is_none());
}

#[test]
fn unsupported_wire_type_is_rejected() {
    assert!(read_fields(&[0x09, 0, 0, 0, 0, 0, 0, 0, 0]).is_none());
}
