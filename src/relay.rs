//! What each side of a connected session does with what comes in and with
//! its player's moves. The server is authoritative: it judges the client's
//! moves and answers each with the position. The client submits its moves
//! and changes its board only as the server's answers say.
use crate::board::{apply_result, position_after, SharedBoardState, Verdict};
use crate::codec::{
    c2s_bytes, c2s_decoded, decode_c2s, decode_s2c, encode_c2s, encode_s2c, s2c_bytes,
    s2c_decoded, BoardState, C2sMessage, Move, MoveAck, MoveAckView, S2cMessage, S2cView,
};
use vstd::prelude::*;

verus! {

/// What a connected server does with the bytes of one read.
#[derive(Clone, Copy, Debug, PartialEq, Eq, Structural)]
pub enum ServerAction {
    /// The bytes are no message: the connection is dropped.
    Close,
    /// A message with nothing to do, such as a second connect request.
    Ignore,
    /// A move of the client, to be judged by the engine and answered.
    Judge(Move),
}

pub open spec fn server_action_spec(b: Seq<u8>) -> ServerAction {
    match c2s_decoded(b) {
        None => ServerAction::Close,
        Some(C2sMessage::ConnectRequest(_)) => ServerAction::Ignore,
        Some(C2sMessage::Move(m)) => ServerAction::Judge(m),
    }
}

/// Decides what a connected server does with the bytes of one read.
pub fn server_inbound(b: &[u8]) -> (r: ServerAction)
    ensures
        r == server_action_spec(b@),
{
    match decode_c2s(b) {
        Err(_) => ServerAction::Close,
        Ok(C2sMessage::ConnectRequest(_)) => ServerAction::Ignore,
        Ok(C2sMessage::Move(m)) => ServerAction::Judge(m),
    }
}

/// The answer to a client's move: whether it was taken, and the position.
pub open spec fn move_ack_spec(legal: bool, pos: Seq<char>) -> S2cView {
    S2cView::MoveAck(MoveAckView { legal, board_result: Some(pos) })
}

/// Applies a client's move that the engine judged, and gives the bytes of
/// the answer: whether it was taken, and the position after it either way.
pub fn answer_move(board: &mut SharedBoardState, m: &Move, verdict: &Verdict) -> (r: Vec<u8>)
    ensures
        final(board)@ == position_after(old(board)@, *m, verdict@),
        r@ == s2c_bytes(
            move_ack_spec(apply_result(old(board)@, *m, verdict@) is Ok, final(board)@),
        ),
{
    let res = board.apply_move(m, verdict);
    let ack = MoveAck {
        legal: res.is_ok(),
        board_result: Some(BoardState { fen_string: board.snapshot() }),
    };
    encode_s2c(&S2cMessage::MoveAck(ack))
}

/// A move of the server's own player: applied to the board where the engine
/// allows it, and then the bytes that forward it to the client.
pub fn server_local_move(board: &mut SharedBoardState, m: &Move, verdict: &Verdict) -> (r: Option<
    Vec<u8>,
>)
    ensures
        final(board)@ == position_after(old(board)@, *m, verdict@),
        match r {
            Some(v) => apply_result(old(board)@, *m, verdict@) is Ok && v@ == s2c_bytes(
                S2cView::Move(*m),
            ),
            None => apply_result(old(board)@, *m, verdict@) is Err,
        },
{
    match board.apply_move(m, verdict) {
        Ok(_) => Some(encode_s2c(&S2cMessage::Move(*m))),
        Err(_) => None,
    }
}

/// What a client has: the board, and the move it sent and has no answer for.
pub struct ClientView {
    pub fen: Seq<char>,
    pub pending: Option<Move>,
}

/// What a connected client does after a message of the server.
#[derive(Clone, Copy, Debug, PartialEq, Eq, Structural)]
pub enum ClientAction {
    Nothing,
    /// Play this move on the engine's board; where the message carried no
    /// position, adopt the engine's.
    Apply(Move),
    /// The bytes are no message: the connection is dropped.
    Close,
}

/// A client's board and pending move after a server message, and what it does.
/// An accepted move is played on the engine's board; where the answer carries
/// the position, the client's board takes it at once.
pub open spec fn client_step(c: ClientView, msg: S2cView) -> (ClientView, ClientAction) {
    match msg {
        S2cView::MoveAck(a) => if a.legal {
            (
                ClientView {
                    fen: match a.board_result {
                        Some(f) => f,
                        None => c.fen,
                    },
                    pending: None,
                },
                match c.pending {
                    Some(m) => ClientAction::Apply(m),
                    None => ClientAction::Nothing,
                },
            )
        } else {
            (ClientView { fen: c.fen, pending: None }, ClientAction::Nothing)
        },
        S2cView::Move(m) => (c, ClientAction::Apply(m)),
        S2cView::ConnectAck(_) => (c, ClientAction::Nothing),
    }
}

/// The client's end of a connected session.
pub struct ClientSession {
    board: SharedBoardState,
    pending: Option<Move>,
}

impl View for ClientSession {
    type V = ClientView;

    closed spec fn view(&self) -> ClientView {
        ClientView { fen: self.board@, pending: self.pending }
    }
}

impl ClientSession {
    /// A client that starts from the position the server gave.
    pub fn new(fen: String) -> (r: Self)
        ensures
            r@ == (ClientView { fen: fen@, pending: None }),
    {
        ClientSession { board: SharedBoardState::new(fen), pending: None }
    }

    /// The position now, as FEN.
    pub fn snapshot(&self) -> (r: String)
        ensures
            r@ == self@.fen,
    {
        self.board.snapshot()
    }

    /// The move that waits for the server's answer.
    pub fn pending(&self) -> (r: Option<Move>)
        ensures
            r == self@.pending,
    {
        self.pending
    }

    /// Submits a move of the local player: the bytes to send. The board stays
    /// as it is until the server answers.
    pub fn submit(&mut self, m: Move) -> (r: Vec<u8>)
        ensures
            final(self)@ == (ClientView { fen: old(self)@.fen, pending: Some(m) }),
            r@ == c2s_bytes(C2sMessage::Move(m)),
    {
        self.pending = Some(m);
        encode_c2s(&C2sMessage::Move(m))
    }

    /// Handles a message of the server.
    pub fn on_message(&mut self, msg: &S2cMessage) -> (r: ClientAction)
        ensures
            (final(self)@, r) == client_step(old(self)@, msg@),
    {
        match msg {
            S2cMessage::MoveAck(a) => {
                let m = self.pending;
                self.pending = None;
                if a.legal {
                    if let Some(p) = &a.board_result {
                        self.board.adopt(p.fen_string.clone());
                    }
                    match m {
                        Some(mv) => ClientAction::Apply(mv),
                        None => ClientAction::Nothing,
                    }
                } else {
                    ClientAction::Nothing
                }
            },
            S2cMessage::Move(m) => ClientAction::Apply(*m),
            S2cMessage::ConnectAck(_) => ClientAction::Nothing,
        }
    }

    /// Handles the bytes of one read; bytes that are no server message close
    /// the connection and change nothing.
    pub fn on_bytes(&mut self, b: &[u8]) -> (r: ClientAction)
        ensures
            match s2c_decoded(b@) {
                Some(msg) => (final(self)@, r) == client_step(old(self)@, msg),
                None => final(self)@ == old(self)@ && r == ClientAction::Close,
            },
    {
        match decode_s2c(b) {
            Err(_) => ClientAction::Close,
            Ok(msg) => self.on_message(&msg),
        }
    }

    /// Takes the position that the engine reached on an `Apply`.
    pub fn adopt(&mut self, fen: String)
        ensures
            final(self)@ == (ClientView { fen: fen@, pending: old(self)@.pending }),
    {
        self.board.adopt(fen);
    }
}

/// An accepting answer with a position, delivered again, changes nothing:
/// the client stays as the first delivery left it and plays no move, and a
/// client that already stands at that position keeps its board.
pub proof fn lemma_ack_idempotent(c: ClientView, f: Seq<char>)
    ensures
        ({
            let ack = S2cView::MoveAck(MoveAckView { legal: true, board_result: Some(f) });
            let once = client_step(c, ack).0;
            &&& client_step(once, ack).0 == once
            &&& client_step(once, ack).1 == ClientAction::Nothing
            &&& c.fen == f ==> once.fen == c.fen
        }),
{
}

} // verus!
