//! The connection handshake: the client asks to join a game, the server
//! accepts a player (who plays black, from the position it sends) and turns
//! away a spectator.
use crate::codec::{
    c2s_decoded, decode_c2s, decode_s2c, encode_s2c, s2c_bytes, s2c_decoded, BoardState,
    C2sMessage, ConnectAck, ConnectAckView, ConnectRequest, S2cMessage, S2cView,
};
use vstd::prelude::*;

verus! {

/// Where a connection stands.
#[derive(Clone, Copy, Debug, PartialEq, Eq, Structural)]
pub enum ConnectionState {
    Handshaking,
    Connected,
    Closed,
}

/// Why a client could not join.
#[derive(Clone, Copy, Debug, PartialEq, Eq, Structural)]
pub enum HandshakeError {
    /// The server's bytes are no message.
    Decode,
    /// The server turned the request down.
    Rejected,
    /// The server accepted without giving the colour or the position.
    Incomplete,
    /// Another message than the expected one came.
    Unexpected,
}

/// The standard starting position.
pub const START_FEN: &'static str = "rnbqkbnr/pppppppp/8/8/8/8/PPPPPPPP/RNBQKBNR w KQkq - 0 1";

/// The standard starting position, as a string of its own.
pub fn start_fen() -> (r: String)
    ensures
        r@ == START_FEN@,
{
    String::from_str(START_FEN)
}

/// The first message of a client: a request to play the game `game_id`.
pub fn connect_request(game_id: u64) -> (r: C2sMessage)
    ensures
        r == C2sMessage::ConnectRequest(ConnectRequest { game_id, spectate: false }),
{
    C2sMessage::ConnectRequest(ConnectRequest { game_id, spectate: false })
}

/// The acceptance of a player: the game echoed, the client plays black, from `start`.
pub open spec fn accept_ack(game_id: u64, start: Seq<char>) -> ConnectAckView {
    ConnectAckView {
        success: true,
        game_id: Some(game_id),
        client_is_white: Some(false),
        starting_position: Some(start),
    }
}

/// The refusal of a request.
pub open spec fn reject_ack(game_id: u64) -> ConnectAckView {
    ConnectAckView {
        success: false,
        game_id: Some(game_id),
        client_is_white: None,
        starting_position: None,
    }
}

/// What a server in handshake does with a client's first message: the state
/// it goes to and what it answers.
pub open spec fn answer_spec(msg: C2sMessage, start: Seq<char>) -> (ConnectionState, Option<S2cView>) {
    match msg {
        C2sMessage::ConnectRequest(req) => if req.spectate {
            (ConnectionState::Closed, Some(S2cView::ConnectAck(reject_ack(req.game_id))))
        } else {
            (
                ConnectionState::Connected,
                Some(S2cView::ConnectAck(accept_ack(req.game_id, start))),
            )
        },
        C2sMessage::Move(_) => (ConnectionState::Closed, None),
    }
}

pub open spec fn reply_view(r: Option<S2cMessage>) -> Option<S2cView> {
    match r {
        Some(m) => Some(m@),
        None => None,
    }
}

/// Answers a client's first message, the game starting at `start`.
pub fn answer_connect(msg: &C2sMessage, start: &String) -> (r: (ConnectionState, Option<S2cMessage>))
    ensures
        (r.0, reply_view(r.1)) == answer_spec(*msg, start@),
{
    match msg {
        C2sMessage::ConnectRequest(req) => if req.spectate {
            let ack = ConnectAck {
                success: false,
                game_id: Some(req.game_id),
                client_is_white: None,
                starting_position: None,
            };
            (ConnectionState::Closed, Some(S2cMessage::ConnectAck(ack)))
        } else {
            let ack = ConnectAck {
                success: true,
                game_id: Some(req.game_id),
                client_is_white: Some(false),
                starting_position: Some(BoardState { fen_string: start.clone() }),
            };
            (ConnectionState::Connected, Some(S2cMessage::ConnectAck(ack)))
        },
        C2sMessage::Move(_) => (ConnectionState::Closed, None),
    }
}

/// Bytes of an answer, if there is one.
pub open spec fn reply_bytes(r: Option<S2cView>) -> Option<Seq<u8>> {
    match r {
        Some(m) => Some(s2c_bytes(m)),
        None => None,
    }
}

/// The server's side of the handshake on the bytes of the first read: the
/// state it goes to and the bytes to send back. Bytes that are no client
/// message close the connection unanswered.
pub fn server_handshake(b: &[u8], start: &String) -> (r: (ConnectionState, Option<Vec<u8>>))
    ensures
        match c2s_decoded(b@) {
            None => r.0 == ConnectionState::Closed && r.1 is None,
            Some(msg) => r.0 == answer_spec(msg, start@).0 && match r.1 {
                Some(v) => reply_bytes(answer_spec(msg, start@).1) == Some(v@),
                None => answer_spec(msg, start@).1 is None,
            },
        },
{
    match decode_c2s(b) {
        Err(_) => (ConnectionState::Closed, None),
        Ok(msg) => {
            let (state, reply) = answer_connect(&msg, start);
            match reply {
                Some(m) => (state, Some(encode_s2c(&m))),
                None => (state, None),
            }
        },
    }
}

/// What a client makes of the server's answer: its colour and the starting
/// position, or why it cannot play.
pub open spec fn welcome_spec(msg: S2cView) -> Result<(bool, Seq<char>), HandshakeError> {
    match msg {
        S2cView::ConnectAck(a) => if !a.success {
            Err(HandshakeError::Rejected)
        } else {
            match (a.client_is_white, a.starting_position) {
                (Some(w), Some(p)) => Ok((w, p)),
                _ => Err(HandshakeError::Incomplete),
            }
        },
        _ => Err(HandshakeError::Unexpected),
    }
}

/// A client's place in the game once the handshake is done.
pub struct Welcome {
    pub is_white: bool,
    pub fen: String,
}

pub open spec fn welcome_view(r: Result<Welcome, HandshakeError>) -> Result<
    (bool, Seq<char>),
    HandshakeError,
> {
    match r {
        Ok(w) => Ok((w.is_white, w.fen@)),
        Err(e) => Err(e),
    }
}

/// Reads the server's answer to the connect request.
pub fn take_connect_ack(msg: &S2cMessage) -> (r: Result<Welcome, HandshakeError>)
    ensures
        welcome_view(r) == welcome_spec(msg@),
{
    match msg {
        S2cMessage::ConnectAck(a) => {
            if !a.success {
                return Err(HandshakeError::Rejected);
            }
            match (&a.client_is_white, &a.starting_position) {
                (Some(w), Some(p)) => Ok(Welcome { is_white: *w, fen: p.fen_string.clone() }),
                _ => Err(HandshakeError::Incomplete),
            }
        },
        _ => Err(HandshakeError::Unexpected),
    }
}

/// The client's side of the handshake on the bytes of the first read.
pub fn client_handshake(b: &[u8]) -> (r: Result<Welcome, HandshakeError>)
    ensures
        welcome_view(r) == match s2c_decoded(b@) {
            Some(msg) => welcome_spec(msg),
            None => Err(HandshakeError::Decode),
        },
{
    match decode_s2c(b) {
        Err(_) => Err(HandshakeError::Decode),
        Ok(msg) => take_connect_ack(&msg),
    }
}

} // verus!
