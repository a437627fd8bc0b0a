use chess_sync::board::{square_at, square_file, square_rank, is_move_ok, ApplyError, SharedBoardState, Verdict};
use chess_sync::codec::{
    decode_c2s, decode_s2c, encode_c2s, encode_s2c, BoardState, C2sMessage, ConnectAck,
    ConnectRequest, Move, MoveAck, S2cMessage,
};
use chess_sync::handshake::{
    answer_connect, client_handshake, connect_request, server_handshake, start_fen,
    take_connect_ack, ConnectionState, HandshakeError, START_FEN,
};
use chess_sync::relay::{answer_move, server_inbound, server_local_move, ClientAction, ClientSession, ServerAction};

const AFTER_E4: &str = "rnbqkbnr/pppppppp/8/8/4P3/8/PPPP1PPP/RNBQKBNR b KQkq e3 0 1";
const AFTER_D4: &str = "rnbqkbnr/pppppppp/8/8/3P4/8/PPP1PPPP/RNBQKBNR b KQkq d3 0 1";

fn mv(from: u32, to: u32) -> Move {
    Move { from_square: from, to_square: to, promotion: None }
}

fn verdict(before: &str, after: Option<&str>) -> Verdict {
    Verdict { before: before.to_string(), after: after.map(|s| s.to_string()) }
}

fn accept(game_id: u64) -> S2cMessage {
    S2cMessage::ConnectAck(ConnectAck {
        success: true,
        game_id: Some(game_id),
        client_is_white: Some(false),
        starting_position: Some(BoardState { fen_string: START_FEN.to_string() }),
    })
}

#[test]
fn squares() {
    assert_eq!(square_file(28), 4);
    assert_eq!(square_rank(28), 3);
    assert_eq!(square_at(4, 3), 28);
    assert_eq!(square_at(7, 7), 63);
    assert!(is_move_ok(&mv(12, 28)));
    assert!(!is_move_ok(&mv(0, 0)));
    assert!(!is_move_ok(&mv(12, 64)));
}

#[test]
fn start_position() {
    assert_eq!(start_fen(), "rnbqkbnr/pppppppp/8/8/8/8/PPPPPPPP/RNBQKBNR w KQkq - 0 1");
}

#[test]
fn request_is_for_playing() {
    assert_eq!(
        connect_request(69),
        C2sMessage::ConnectRequest(ConnectRequest { game_id: 69, spectate: false })
    );
}

#[test]
fn player_is_accepted() {
    let (state, reply) = answer_connect(&connect_request(69), &start_fen());
    assert_eq!(state, ConnectionState::Connected);
    assert_eq!(reply, Some(accept(69)));
}

#[test]
fn spectator_is_rejected() {
    let req = C2sMessage::ConnectRequest(ConnectRequest { game_id: 69, spectate: true });
    let (state, reply) = answer_connect(&req, &start_fen());
    assert_eq!(state, ConnectionState::Closed);
    assert_eq!(
        reply,
        Some(S2cMessage::ConnectAck(ConnectAck {
            success: false,
            game_id: Some(69),
            client_is_white: None,
            starting_position: None,
        }))
    );
}

#[test]
fn move_during_handshake_closes() {
    let (state, reply) = answer_connect(&C2sMessage::Move(mv(12, 28)), &start_fen());
    assert_eq!(state, ConnectionState::Closed);
    assert_eq!(reply, None);
    let (state, reply) = server_handshake(&[0xff, 0x01], &start_fen());
    assert_eq!(state, ConnectionState::Closed);
    assert_eq!(reply, None);
}

#[test]
fn client_reads_acceptance() {
    let w = take_connect_ack(&accept(69)).unwrap();
    assert!(!w.is_white);
    assert_eq!(w.fen, START_FEN);
}

#[test]
fn client_handshake_errors() {
    let reject = S2cMessage::ConnectAck(ConnectAck {
        success: false,
        game_id: Some(69),
        client_is_white: None,
        starting_position: None,
    });
    assert_eq!(take_connect_ack(&reject).err(), Some(HandshakeError::Rejected));
    let partial = S2cMessage::ConnectAck(ConnectAck {
        success: true,
        game_id: Some(69),
        client_is_white: Some(true),
        starting_position: None,
    });
    assert_eq!(take_connect_ack(&partial).err(), Some(HandshakeError::Incomplete));
    assert_eq!(take_connect_ack(&S2cMessage::Move(mv(1, 2))).err(), Some(HandshakeError::Unexpected));
    assert_eq!(client_handshake(&[0x0a]).err(), Some(HandshakeError::Decode));
}

#[test]
fn board_takes_legal_move() {
    let mut b = SharedBoardState::new(start_fen());
    let r = b.apply_move(&mv(12, 28), &verdict(START_FEN, Some(AFTER_E4)));
    assert_eq!(r, Ok(AFTER_E4.to_string()));
    assert_eq!(b.snapshot(), AFTER_E4);
}

#[test]
fn board_refuses_illegal_move() {
    let mut b = SharedBoardState::new(start_fen());
    let r = b.apply_move(&mv(12, 36), &verdict(START_FEN, None));
    assert_eq!(r, Err(ApplyError::IllegalMove));
    assert_eq!(b.snapshot(), START_FEN);
}

#[test]
fn board_refuses_malformed_move() {
    let mut b = SharedBoardState::new(start_fen());
    let r = b.apply_move(&mv(0, 0), &verdict(START_FEN, Some(AFTER_E4)));
    assert_eq!(r, Err(ApplyError::IllegalMove));
    assert_eq!(b.snapshot(), START_FEN);
}

#[test]
fn second_of_concurrent_moves_is_stale() {
    let mut b = SharedBoardState::new(start_fen());
    let local = b.apply_move(&mv(11, 27), &verdict(START_FEN, Some(AFTER_D4)));
    assert_eq!(local, Ok(AFTER_D4.to_string()));
    let remote = b.apply_move(&mv(12, 28), &verdict(START_FEN, Some(AFTER_E4)));
    assert_eq!(remote, Err(ApplyError::Stale));
    assert_eq!(b.snapshot(), AFTER_D4);
}

#[test]
fn repeated_acceptance_changes_nothing() {
    let mut c = ClientSession::new(start_fen());
    c.submit(mv(12, 28));
    let ack = S2cMessage::MoveAck(MoveAck {
        legal: true,
        board_result: Some(BoardState { fen_string: AFTER_E4.to_string() }),
    });
    assert_eq!(c.on_message(&ack), ClientAction::Apply(mv(12, 28)));
    assert_eq!(c.snapshot(), AFTER_E4);
    assert_eq!(c.on_message(&ack), ClientAction::Nothing);
    assert_eq!(c.snapshot(), AFTER_E4);
    assert_eq!(c.pending(), None);
}

#[test]
fn full_game_start() {
    // client asks to join
    let hello = encode_c2s(&connect_request(69));
    let (state, reply) = server_handshake(&hello, &start_fen());
    assert_eq!(state, ConnectionState::Connected);
    let reply = reply.unwrap();
    assert_eq!(decode_s2c(&reply), Ok(accept(69)));
    let welcome = client_handshake(&reply).unwrap();
    assert!(!welcome.is_white);
    let mut client = ClientSession::new(welcome.fen);
    let mut server = SharedBoardState::new(start_fen());

    // client plays e2-e4; its board waits for the answer
    let sent = client.submit(mv(12, 28));
    assert_eq!(client.snapshot(), START_FEN);
    assert_eq!(client.pending(), Some(mv(12, 28)));
    let m = match server_inbound(&sent) {
        ServerAction::Judge(m) => m,
        other => panic!("unexpected {:?}", other),
    };
    assert_eq!(m, mv(12, 28));
    let answer = answer_move(&mut server, &m, &verdict(START_FEN, Some(AFTER_E4)));
    assert_eq!(
        decode_s2c(&answer),
        Ok(S2cMessage::MoveAck(MoveAck {
            legal: true,
            board_result: Some(BoardState { fen_string: AFTER_E4.to_string() }),
        }))
    );
    assert_eq!(client.on_bytes(&answer), ClientAction::Apply(mv(12, 28)));
    assert_eq!(client.snapshot(), AFTER_E4);
    assert_eq!(client.pending(), None);
}

#[test]
fn illegal_move_is_answered_with_unchanged_position() {
    let mut client = ClientSession::new(start_fen());
    let mut server = SharedBoardState::new(start_fen());
    for m in [mv(0, 0), mv(20, 28)] {
        let sent = client.submit(m);
        assert_eq!(server_inbound(&sent), ServerAction::Judge(m));
        let answer = answer_move(&mut server, &m, &verdict(START_FEN, None));
        assert_eq!(
            decode_s2c(&answer),
            Ok(S2cMessage::MoveAck(MoveAck {
                legal: false,
                board_result: Some(BoardState { fen_string: START_FEN.to_string() }),
            }))
        );
        assert_eq!(client.on_bytes(&answer), ClientAction::Nothing);
        assert_eq!(client.snapshot(), START_FEN);
        assert_eq!(client.pending(), None);
    }
    assert_eq!(server.snapshot(), START_FEN);
}

#[test]
fn server_ignores_second_request_and_drops_garbage() {
    assert_eq!(server_inbound(&encode_c2s(&connect_request(1))), ServerAction::Ignore);
    assert_eq!(server_inbound(&[0x55]), ServerAction::Close);
}

#[test]
fn server_forwards_own_legal_move() {
    let mut b = SharedBoardState::new(start_fen());
    let out = server_local_move(&mut b, &mv(12, 28), &verdict(START_FEN, Some(AFTER_E4)));
    assert_eq!(out, Some(encode_s2c(&S2cMessage::Move(mv(12, 28)))));
    let none = server_local_move(&mut b, &mv(12, 28), &verdict(AFTER_E4, None));
    assert_eq!(none, None);
    assert_eq!(b.snapshot(), AFTER_E4);
}

#[test]
fn client_applies_forwarded_move_and_drops_garbage() {
    let mut c = ClientSession::new(start_fen());
    let fwd = encode_s2c(&S2cMessage::Move(mv(12, 28)));
    assert_eq!(c.on_bytes(&fwd), ClientAction::Apply(mv(12, 28)));
    c.adopt(AFTER_E4.to_string());
    assert_eq!(c.snapshot(), AFTER_E4);
    assert_eq!(c.on_bytes(&[]), ClientAction::Close);
    assert_eq!(c.snapshot(), AFTER_E4);
}

#[test]
fn acceptance_without_position_applies_pending() {
    let mut c = ClientSession::new(start_fen());
    c.submit(mv(12, 28));
    let ack = S2cMessage::MoveAck(MoveAck { legal: true, board_result: None });
    assert_eq!(c.on_message(&ack), ClientAction::Apply(mv(12, 28)));
    assert_eq!(c.pending(), None);
    assert_eq!(c.snapshot(), START_FEN);
}
