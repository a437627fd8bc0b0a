//! The protocol's messages and their encoding as protocol-buffer bodies.
//!
//! Field numbers: `Move` {from_square 1, to_square 2, promotion 3};
//! `BoardState` {fen_string 1}; `ConnectRequest` {game_id 1, spectate 2};
//! `ConnectAck` {success 1, game_id 2, client_is_white 3,
//! starting_position 4}; `MoveAck` {legal 1, board_result 2}; the client's
//! envelope {connect_request 1, move 2}; the server's envelope
//! {connect_ack 1, move 2, move_ack 3}. Plain scalars are left out when zero
//! or false, optional ones are written whenever present, and a message only
//! decodes from exactly the bytes that its encoding gives.
use crate::wire::{
    field_bytes, lemma_field_within, field_views, fields_bytes, fields_ok, fields_read, lemma_fields_round_trip, read_fields,
    write_fields, Field, FieldModel,
};
use vstd::prelude::*;
use vstd::utf8::{
    decode_utf8, encode_utf8, encode_utf8_decode_utf8, encode_utf8_valid_utf8, valid_utf8,
};

verus! {

/// Kind of piece that a pawn is promoted to.
#[derive(Clone, Copy, Debug, PartialEq, Eq, Structural)]
pub enum PieceType {
    Pawn,
    Knight,
    Bishop,
    Rook,
    Queen,
    King,
}

/// A move as carried on the wire: any two square numbers.
#[derive(Clone, Copy, Debug, PartialEq, Eq, Structural)]
pub struct Move {
    pub from_square: u32,
    pub to_square: u32,
    pub promotion: Option<PieceType>,
}

/// A position in Forsyth-Edwards notation.
#[derive(Clone, Debug, PartialEq, Eq)]
pub struct BoardState {
    pub fen_string: String,
}

#[derive(Clone, Copy, Debug, PartialEq, Eq, Structural)]
pub struct ConnectRequest {
    pub game_id: u64,
    pub spectate: bool,
}

#[derive(Clone, Debug, PartialEq, Eq)]
pub struct ConnectAck {
    pub success: bool,
    pub game_id: Option<u64>,
    pub client_is_white: Option<bool>,
    pub starting_position: Option<BoardState>,
}

#[derive(Clone, Debug, PartialEq, Eq)]
pub struct MoveAck {
    pub legal: bool,
    pub board_result: Option<BoardState>,
}

/// What a client sends.
#[derive(Clone, Copy, Debug, PartialEq, Eq, Structural)]
pub enum C2sMessage {
    ConnectRequest(ConnectRequest),
    Move(Move),
}

/// What a server sends.
#[derive(Clone, Debug, PartialEq, Eq)]
pub enum S2cMessage {
    ConnectAck(ConnectAck),
    Move(Move),
    MoveAck(MoveAck),
}

/// Bytes that are no message of the expected direction.
#[derive(Clone, Copy, Debug, PartialEq, Eq, Structural)]
pub struct DecodeError;

pub struct ConnectAckView {
    pub success: bool,
    pub game_id: Option<u64>,
    pub client_is_white: Option<bool>,
    pub starting_position: Option<Seq<char>>,
}

pub struct MoveAckView {
    pub legal: bool,
    pub board_result: Option<Seq<char>>,
}

pub enum S2cView {
    ConnectAck(ConnectAckView),
    Move(Move),
    MoveAck(MoveAckView),
}

pub open spec fn board_view(b: Option<BoardState>) -> Option<Seq<char>> {
    match b {
        Some(s) => Some(s.fen_string@),
        None => None,
    }
}

impl View for ConnectAck {
    type V = ConnectAckView;

    open spec fn view(&self) -> ConnectAckView {
        ConnectAckView {
            success: self.success,
            game_id: self.game_id,
            client_is_white: self.client_is_white,
            starting_position: board_view(self.starting_position),
        }
    }
}

impl View for MoveAck {
    type V = MoveAckView;

    open spec fn view(&self) -> MoveAckView {
        MoveAckView { legal: self.legal, board_result: board_view(self.board_result) }
    }
}

impl View for S2cMessage {
    type V = S2cView;

    open spec fn view(&self) -> S2cView {
        match self {
            S2cMessage::ConnectAck(a) => S2cView::ConnectAck(a@),
            S2cMessage::Move(m) => S2cView::Move(*m),
            S2cMessage::MoveAck(a) => S2cView::MoveAck(a@),
        }
    }
}

// ---------------------------------------------------------------------------
// Field layouts

pub open spec fn piece_code(p: PieceType) -> u64 {
    match p {
        PieceType::Pawn => 0,
        PieceType::Knight => 1,
        PieceType::Bishop => 2,
        PieceType::Rook => 3,
        PieceType::Queen => 4,
        PieceType::King => 5,
    }
}

pub open spec fn piece_of_code(c: u64) -> Option<PieceType> {
    if c == 0 {
        Some(PieceType::Pawn)
    } else if c == 1 {
        Some(PieceType::Knight)
    } else if c == 2 {
        Some(PieceType::Bishop)
    } else if c == 3 {
        Some(PieceType::Rook)
    } else if c == 4 {
        Some(PieceType::Queen)
    } else if c == 5 {
        Some(PieceType::King)
    } else {
        None
    }
}

/// A plain integer field: absent when zero.
pub open spec fn number_field(tag: u64, v: u64) -> Seq<FieldModel> {
    if v == 0 {
        Seq::empty()
    } else {
        seq![FieldModel::Varint(tag, v)]
    }
}

/// A plain flag: absent when false.
pub open spec fn flag_field(tag: u64, b: bool) -> Seq<FieldModel> {
    if b {
        seq![FieldModel::Varint(tag, 1)]
    } else {
        Seq::empty()
    }
}

pub open spec fn bool_code(b: bool) -> u64 {
    if b {
        1
    } else {
        0
    }
}

/// An optional integer field: present exactly when the value is.
pub open spec fn some_number_field(tag: u64, v: Option<u64>) -> Seq<FieldModel> {
    match v {
        Some(x) => seq![FieldModel::Varint(tag, x)],
        None => Seq::empty(),
    }
}

pub open spec fn some_flag_field(tag: u64, v: Option<bool>) -> Seq<FieldModel> {
    match v {
        Some(x) => seq![FieldModel::Varint(tag, bool_code(x))],
        None => Seq::empty(),
    }
}

pub open spec fn move_fields(m: Move) -> Seq<FieldModel> {
    number_field(1, m.from_square as u64) + number_field(2, m.to_square as u64) + match m.promotion {
        Some(p) => seq![FieldModel::Varint(3, piece_code(p))],
        None => Seq::empty(),
    }
}

/// Body bytes of a `BoardState` holding `fen`.
pub open spec fn board_bytes(fen: Seq<char>) -> Seq<u8> {
    fields_bytes(
        if fen.len() == 0 {
            Seq::empty()
        } else {
            seq![FieldModel::Bytes(1, encode_utf8(fen))]
        },
    )
}

pub open spec fn some_board_field(tag: u64, b: Option<Seq<char>>) -> Seq<FieldModel> {
    match b {
        Some(fen) => seq![FieldModel::Bytes(tag, board_bytes(fen))],
        None => Seq::empty(),
    }
}

pub open spec fn request_fields(r: ConnectRequest) -> Seq<FieldModel> {
    number_field(1, r.game_id) + flag_field(2, r.spectate)
}

pub open spec fn connect_ack_fields(a: ConnectAckView) -> Seq<FieldModel> {
    flag_field(1, a.success) + some_number_field(2, a.game_id) + some_flag_field(
        3,
        a.client_is_white,
    ) + some_board_field(4, a.starting_position)
}

pub open spec fn move_ack_fields(a: MoveAckView) -> Seq<FieldModel> {
    flag_field(1, a.legal) + some_board_field(2, a.board_result)
}

pub open spec fn c2s_fields(e: C2sMessage) -> Seq<FieldModel> {
    match e {
        C2sMessage::ConnectRequest(r) => seq![
            FieldModel::Bytes(1, fields_bytes(request_fields(r))),
        ],
        C2sMessage::Move(m) => seq![FieldModel::Bytes(2, fields_bytes(move_fields(m)))],
    }
}

pub open spec fn s2c_fields(e: S2cView) -> Seq<FieldModel> {
    match e {
        S2cView::ConnectAck(a) => seq![FieldModel::Bytes(1, fields_bytes(connect_ack_fields(a)))],
        S2cView::Move(m) => seq![FieldModel::Bytes(2, fields_bytes(move_fields(m)))],
        S2cView::MoveAck(a) => seq![FieldModel::Bytes(3, fields_bytes(move_ack_fields(a)))],
    }
}

/// The bytes of a client message.
pub open spec fn c2s_bytes(e: C2sMessage) -> Seq<u8> {
    fields_bytes(c2s_fields(e))
}

/// The bytes of a server message.
pub open spec fn s2c_bytes(e: S2cView) -> Seq<u8> {
    fields_bytes(s2c_fields(e))
}

// ---------------------------------------------------------------------------
// Reading fields back

/// The value of the field at `i`, where it is a varint field numbered `tag`.
pub open spec fn varint_at(fs: Seq<FieldModel>, i: int, tag: u64) -> Option<u64> {
    if 0 <= i < fs.len() {
        match fs[i] {
            FieldModel::Varint(t, v) => if t == tag {
                Some(v)
            } else {
                None
            },
            _ => None,
        }
    } else {
        None
    }
}

/// The bytes of the field at `i`, where it is a length-delimited field
/// numbered `tag`.
pub open spec fn bytes_at(fs: Seq<FieldModel>, i: int, tag: u64) -> Option<Seq<u8>> {
    if 0 <= i < fs.len() {
        match fs[i] {
            FieldModel::Bytes(t, d) => if t == tag {
                Some(d)
            } else {
                None
            },
            _ => None,
        }
    } else {
        None
    }
}

/// How many fields an optional field at `i` takes: 1 where it is there.
pub open spec fn step_varint(fs: Seq<FieldModel>, i: int, tag: u64) -> int {
    if varint_at(fs, i, tag) is Some {
        i + 1
    } else {
        i
    }
}

pub open spec fn step_bytes(fs: Seq<FieldModel>, i: int, tag: u64) -> int {
    if bytes_at(fs, i, tag) is Some {
        i + 1
    } else {
        i
    }
}

pub open spec fn or_zero(v: Option<u64>) -> u64 {
    match v {
        Some(x) => x,
        None => 0,
    }
}

pub open spec fn move_of_fields(fs: Seq<FieldModel>) -> Option<Move> {
    let from = or_zero(varint_at(fs, 0, 1));
    let i = step_varint(fs, 0, 1);
    let to = or_zero(varint_at(fs, i, 2));
    let j = step_varint(fs, i, 2);
    let k = step_varint(fs, j, 3);
    if k == fs.len() && from <= u32::MAX && to <= u32::MAX {
        match varint_at(fs, j, 3) {
            None => Some(Move { from_square: from as u32, to_square: to as u32, promotion: None }),
            Some(c) => match piece_of_code(c) {
                Some(p) => Some(
                    Move { from_square: from as u32, to_square: to as u32, promotion: Some(p) },
                ),
                None => None,
            },
        }
    } else {
        None
    }
}

pub open spec fn move_of_body(b: Seq<u8>) -> Option<Move> {
    match fields_read(b) {
        Some(fs) => move_of_fields(fs),
        None => None,
    }
}

pub open spec fn board_of_body(b: Seq<u8>) -> Option<Seq<char>> {
    match fields_read(b) {
        Some(fs) => if fs.len() == 0 {
            Some(Seq::empty())
        } else if fs.len() == 1 && bytes_at(fs, 0, 1) is Some && valid_utf8(
            bytes_at(fs, 0, 1)->0,
        ) {
            Some(decode_utf8(bytes_at(fs, 0, 1)->0))
        } else {
            None
        },
        None => None,
    }
}

pub open spec fn request_of_body(b: Seq<u8>) -> Option<ConnectRequest> {
    match fields_read(b) {
        Some(fs) => {
            let id = or_zero(varint_at(fs, 0, 1));
            let i = step_varint(fs, 0, 1);
            let sp = varint_at(fs, i, 2);
            if step_varint(fs, i, 2) == fs.len() {
                Some(ConnectRequest { game_id: id, spectate: sp is Some && sp->0 != 0 })
            } else {
                None
            }
        },
        None => None,
    }
}

/// A nested position at `i`, where there is one numbered `tag`: `None` where
/// there is none, `Some(None)` where it is there and cannot be read.
pub open spec fn board_at(fs: Seq<FieldModel>, i: int, tag: u64) -> Option<Option<Seq<char>>> {
    match bytes_at(fs, i, tag) {
        Some(d) => Some(board_of_body(d)),
        None => None,
    }
}

pub open spec fn flag_of(v: Option<u64>) -> Option<bool> {
    match v {
        Some(x) => Some(x != 0),
        None => None,
    }
}

pub open spec fn connect_ack_of_body(b: Seq<u8>) -> Option<ConnectAckView> {
    match fields_read(b) {
        Some(fs) => {
            let success = varint_at(fs, 0, 1);
            let i = step_varint(fs, 0, 1);
            let id = varint_at(fs, i, 2);
            let j = step_varint(fs, i, 2);
            let white = varint_at(fs, j, 3);
            let k = step_varint(fs, j, 3);
            let start = board_at(fs, k, 4);
            if step_bytes(fs, k, 4) == fs.len() && start != Some(None::<Seq<char>>) {
                Some(
                    ConnectAckView {
                        success: success is Some && success->0 != 0,
                        game_id: id,
                        client_is_white: flag_of(white),
                        starting_position: match start {
                            Some(p) => p,
                            None => None,
                        },
                    },
                )
            } else {
                None
            }
        },
        None => None,
    }
}

pub open spec fn move_ack_of_body(b: Seq<u8>) -> Option<MoveAckView> {
    match fields_read(b) {
        Some(fs) => {
            let legal = varint_at(fs, 0, 1);
            let i = step_varint(fs, 0, 1);
            let result = board_at(fs, i, 2);
            if step_bytes(fs, i, 2) == fs.len() && result != Some(None::<Seq<char>>) {
                Some(
                    MoveAckView {
                        legal: legal is Some && legal->0 != 0,
                        board_result: match result {
                            Some(p) => p,
                            None => None,
                        },
                    },
                )
            } else {
                None
            }
        },
        None => None,
    }
}

/// The client message that `b` reads as, before the check that it is written
/// exactly so.
pub open spec fn c2s_read(b: Seq<u8>) -> Option<C2sMessage> {
    match fields_read(b) {
        Some(fs) => if fs.len() != 1 {
            None
        } else if bytes_at(fs, 0, 1) is Some {
            match request_of_body(bytes_at(fs, 0, 1)->0) {
                Some(r) => Some(C2sMessage::ConnectRequest(r)),
                None => None,
            }
        } else if bytes_at(fs, 0, 2) is Some {
            match move_of_body(bytes_at(fs, 0, 2)->0) {
                Some(m) => Some(C2sMessage::Move(m)),
                None => None,
            }
        } else {
            None
        },
        None => None,
    }
}

pub open spec fn s2c_read(b: Seq<u8>) -> Option<S2cView> {
    match fields_read(b) {
        Some(fs) => if fs.len() != 1 {
            None
        } else if bytes_at(fs, 0, 1) is Some {
            match connect_ack_of_body(bytes_at(fs, 0, 1)->0) {
                Some(a) => Some(S2cView::ConnectAck(a)),
                None => None,
            }
        } else if bytes_at(fs, 0, 2) is Some {
            match move_of_body(bytes_at(fs, 0, 2)->0) {
                Some(m) => Some(S2cView::Move(m)),
                None => None,
            }
        } else if bytes_at(fs, 0, 3) is Some {
            match move_ack_of_body(bytes_at(fs, 0, 3)->0) {
                Some(a) => Some(S2cView::MoveAck(a)),
                None => None,
            }
        } else {
            None
        },
        None => None,
    }
}

/// The client message that `b` is the encoding of, if any.
pub open spec fn c2s_decoded(b: Seq<u8>) -> Option<C2sMessage> {
    match c2s_read(b) {
        Some(e) => if c2s_bytes(e) == b {
            Some(e)
        } else {
            None
        },
        None => None,
    }
}

/// The server message that `b` is the encoding of, if any.
pub open spec fn s2c_decoded(b: Seq<u8>) -> Option<S2cView> {
    match s2c_read(b) {
        Some(e) => if s2c_bytes(e) == b {
            Some(e)
        } else {
            None
        },
        None => None,
    }
}


// ---------------------------------------------------------------------------
// Round trips

proof fn lemma_one_field_ok(f: FieldModel)
    requires
        crate::wire::field_ok(f),
    ensures
        fields_ok(seq![f]),
{
    assert(seq![f][0] == f);
}

proof fn lemma_board_round_trip(fen: Seq<char>)
    requires
        board_bytes(fen).len() <= u64::MAX,
    ensures
        board_of_body(board_bytes(fen)) == Some(fen),
{
    if fen.len() == 0 {
        let fs = Seq::<FieldModel>::empty();
        lemma_fields_round_trip(fs);
    } else {
        let d = encode_utf8(fen);
        let fs = seq![FieldModel::Bytes(1, d)];
        lemma_field_within(fs, 0);
        assert(field_bytes(fs[0]).len() >= d.len());
        lemma_one_field_ok(fs[0]);
        lemma_fields_round_trip(fs);
        encode_utf8_valid_utf8(fen);
        encode_utf8_decode_utf8(fen);
    }
}

proof fn lemma_move_round_trip(m: Move)
    ensures
        move_of_body(fields_bytes(move_fields(m))) == Some(m),
{
    let fs = move_fields(m);
    assert(fields_ok(fs));
    lemma_fields_round_trip(fs);
    match m.promotion {
        Some(p) => assert(piece_of_code(piece_code(p)) == Some(p)),
        None => {},
    }
}

proof fn lemma_request_round_trip(r: ConnectRequest)
    ensures
        request_of_body(fields_bytes(request_fields(r))) == Some(r),
{
    let fs = request_fields(r);
    assert(fields_ok(fs));
    lemma_fields_round_trip(fs);
}

proof fn lemma_board_field(fs: Seq<FieldModel>, i: int, tag: u64, fen: Seq<char>)
    requires
        0 <= i < fs.len(),
        fs[i] == FieldModel::Bytes(tag, board_bytes(fen)),
        fields_bytes(fs).len() <= u64::MAX,
    ensures
        board_at(fs, i, tag) == Some(Some(fen)),
{
    lemma_field_within(fs, i);
    lemma_board_round_trip(fen);
}

proof fn lemma_bound_fields_ok(fs: Seq<FieldModel>)
    requires
        fields_bytes(fs).len() <= u64::MAX,
        forall|i: int| 0 <= i < fs.len() ==> #[trigger] crate::wire::field_tag(fs[i]) < 8,
    ensures
        fields_ok(fs),
{
    assert forall|i: int| 0 <= i < fs.len() implies #[trigger] crate::wire::field_ok(fs[i]) by {
        lemma_field_within(fs, i);
        assert(crate::wire::field_tag(fs[i]) < 8);
    }
}

proof fn lemma_connect_ack_round_trip(a: ConnectAckView)
    requires
        fields_bytes(connect_ack_fields(a)).len() <= u64::MAX,
    ensures
        connect_ack_of_body(fields_bytes(connect_ack_fields(a))) == Some(a),
{
    let fs = connect_ack_fields(a);
    lemma_bound_fields_ok(fs);
    lemma_fields_round_trip(fs);
    let k = fs.len() - some_board_field(4, a.starting_position).len();
    if let Some(fen) = a.starting_position {
        lemma_board_field(fs, k, 4, fen);
    }
}

proof fn lemma_move_ack_round_trip(a: MoveAckView)
    requires
        fields_bytes(move_ack_fields(a)).len() <= u64::MAX,
    ensures
        move_ack_of_body(fields_bytes(move_ack_fields(a))) == Some(a),
{
    let fs = move_ack_fields(a);
    lemma_bound_fields_ok(fs);
    lemma_fields_round_trip(fs);
    let k = fs.len() - some_board_field(2, a.board_result).len();
    if let Some(fen) = a.board_result {
        lemma_board_field(fs, k, 2, fen);
    }
}

/// Decoding a client message's encoding gives that message back.
pub proof fn lemma_c2s_round_trip(e: C2sMessage)
    requires
        c2s_bytes(e).len() <= u64::MAX,
    ensures
        c2s_decoded(c2s_bytes(e)) == Some(e),
{
    let fs = c2s_fields(e);
    lemma_bound_fields_ok(fs);
    lemma_fields_round_trip(fs);
    match e {
        C2sMessage::ConnectRequest(r) => lemma_request_round_trip(r),
        C2sMessage::Move(m) => lemma_move_round_trip(m),
    }
}

/// Decoding a server message's encoding gives that message back.
pub proof fn lemma_s2c_round_trip(e: S2cView)
    requires
        s2c_bytes(e).len() <= u64::MAX,
    ensures
        s2c_decoded(s2c_bytes(e)) == Some(e),
{
    let fs = s2c_fields(e);
    lemma_bound_fields_ok(fs);
    lemma_fields_round_trip(fs);
    lemma_field_within(fs, 0);
    match e {
        S2cView::ConnectAck(a) => lemma_connect_ack_round_trip(a),
        S2cView::Move(m) => lemma_move_round_trip(m),
        S2cView::MoveAck(a) => lemma_move_ack_round_trip(a),
    }
}


// ---------------------------------------------------------------------------
// Writing

fn push_number(fs: &mut Vec<Field>, tag: u64, v: u64)
    requires
        tags_small(field_views(old(fs)@)),
        tag < 8,
    ensures
        tags_small(field_views(final(fs)@)),
        field_views(final(fs)@) == field_views(old(fs)@) + number_field(tag, v),
{
    let ghost start = field_views(fs@);
    if v != 0 {
        push_field(fs, Field::Varint { tag, value: v });
    }
    assert(field_views(fs@) =~= start + number_field(tag, v));
}

fn push_flag(fs: &mut Vec<Field>, tag: u64, b: bool)
    requires
        tags_small(field_views(old(fs)@)),
        tag < 8,
    ensures
        tags_small(field_views(final(fs)@)),
        field_views(final(fs)@) == field_views(old(fs)@) + flag_field(tag, b),
{
    let ghost start = field_views(fs@);
    if b {
        push_field(fs, Field::Varint { tag, value: 1 });
    }
    assert(field_views(fs@) =~= start + flag_field(tag, b));
}

fn push_some_number(fs: &mut Vec<Field>, tag: u64, v: Option<u64>)
    requires
        tags_small(field_views(old(fs)@)),
        tag < 8,
    ensures
        tags_small(field_views(final(fs)@)),
        field_views(final(fs)@) == field_views(old(fs)@) + some_number_field(tag, v),
{
    let ghost start = field_views(fs@);
    if let Some(x) = v {
        push_field(fs, Field::Varint { tag, value: x });
    }
    assert(field_views(fs@) =~= start + some_number_field(tag, v));
}

fn push_some_flag(fs: &mut Vec<Field>, tag: u64, v: Option<bool>)
    requires
        tags_small(field_views(old(fs)@)),
        tag < 8,
    ensures
        tags_small(field_views(final(fs)@)),
        field_views(final(fs)@) == field_views(old(fs)@) + some_flag_field(tag, v),
{
    let ghost start = field_views(fs@);
    if let Some(x) = v {
        push_field(fs, Field::Varint { tag, value: if x { 1 } else { 0 } });
    }
    assert(field_views(fs@) =~= start + some_flag_field(tag, v));
}

fn piece_to_code(p: PieceType) -> (r: u64)
    ensures
        r == piece_code(p),
{
    match p {
        PieceType::Pawn => 0,
        PieceType::Knight => 1,
        PieceType::Bishop => 2,
        PieceType::Rook => 3,
        PieceType::Queen => 4,
        PieceType::King => 5,
    }
}

fn code_to_piece(c: u64) -> (r: Option<PieceType>)
    ensures
        r == piece_of_code(c),
{
    if c == 0 {
        Some(PieceType::Pawn)
    } else if c == 1 {
        Some(PieceType::Knight)
    } else if c == 2 {
        Some(PieceType::Bishop)
    } else if c == 3 {
        Some(PieceType::Rook)
    } else if c == 4 {
        Some(PieceType::Queen)
    } else if c == 5 {
        Some(PieceType::King)
    } else {
        None
    }
}

/// Every field of `fs` has a number below 8.
pub open spec fn tags_small(fs: Seq<FieldModel>) -> bool {
    forall|i: int| 0 <= i < fs.len() ==> #[trigger] crate::wire::field_tag(fs[i]) < 8
}

fn push_field(fs: &mut Vec<Field>, f: Field)
    requires
        tags_small(field_views(old(fs)@)),
        crate::wire::field_tag(f@) < 8,
    ensures
        field_views(final(fs)@) == field_views(old(fs)@).push(f@),
        tags_small(field_views(final(fs)@)),
{
    let ghost start = field_views(fs@);
    fs.push(f);
    assert(field_views(fs@) =~= start.push(f@));
}

fn write_small(fs: &Vec<Field>) -> (r: Vec<u8>)
    requires
        tags_small(field_views(fs@)),
    ensures
        r@ == fields_bytes(field_views(fs@)),
{
    assert(crate::wire::tags_ok(field_views(fs@))) by {
        assert forall|i: int| 0 <= i < field_views(fs@).len() implies #[trigger] crate::wire::field_tag(
            field_views(fs@)[i],
        ) < crate::wire::TAG_LIMIT by {
            assert(crate::wire::field_tag(field_views(fs@)[i]) < 8);
        }
    }
    write_fields(fs)
}

fn move_body(m: &Move) -> (r: Vec<u8>)
    ensures
        r@ == fields_bytes(move_fields(*m)),
{
    let mut fs: Vec<Field> = Vec::new();
    push_number(&mut fs, 1, m.from_square as u64);
    push_number(&mut fs, 2, m.to_square as u64);
    if let Some(p) = m.promotion {
        push_field(&mut fs, Field::Varint { tag: 3, value: piece_to_code(p) });
    }
    assert(field_views(fs@) =~= move_fields(*m));
    write_small(&fs)
}

fn board_body(fen: &String) -> (r: Vec<u8>)
    ensures
        r@ == board_bytes(fen@),
{
    let mut fs: Vec<Field> = Vec::new();
    if !fen.as_str().is_empty() {
        let data = vstd::slice::slice_to_vec(fen.as_str().as_bytes());
        push_field(&mut fs, Field::Bytes { tag: 1, data });
    }
    assert(field_views(fs@) =~= if fen@.len() == 0 {
        Seq::empty()
    } else {
        seq![FieldModel::Bytes(1, encode_utf8(fen@))]
    });
    write_small(&fs)
}

fn push_some_board(fs: &mut Vec<Field>, tag: u64, b: &Option<BoardState>)
    requires
        tags_small(field_views(old(fs)@)),
        tag < 8,
    ensures
        field_views(final(fs)@) == field_views(old(fs)@) + some_board_field(tag, board_view(*b)),
        tags_small(field_views(final(fs)@)),
{
    let ghost start = field_views(fs@);
    if let Some(s) = b {
        let data = board_body(&s.fen_string);
        push_field(fs, Field::Bytes { tag, data });
    }
    assert(field_views(fs@) =~= start + some_board_field(tag, board_view(*b)));
}

fn wrap(tag: u64, body: Vec<u8>) -> (r: Vec<u8>)
    requires
        tag < 8,
    ensures
        r@ == fields_bytes(seq![FieldModel::Bytes(tag, body@)]),
{
    let mut fs: Vec<Field> = Vec::new();
    push_field(&mut fs, Field::Bytes { tag, data: body });
    assert(field_views(fs@) =~= seq![FieldModel::Bytes(tag, body@)]);
    write_small(&fs)
}

/// The bytes of a client message.
pub fn encode_c2s(e: &C2sMessage) -> (r: Vec<u8>)
    ensures
        r@ == c2s_bytes(*e),
{
    match e {
        C2sMessage::ConnectRequest(req) => {
            let mut fs: Vec<Field> = Vec::new();
            push_number(&mut fs, 1, req.game_id);
            push_flag(&mut fs, 2, req.spectate);
            assert(field_views(fs@) =~= request_fields(*req));
            let body = write_small(&fs);
            wrap(1, body)
        },
        C2sMessage::Move(m) => wrap(2, move_body(m)),
    }
}

/// The bytes of a server message.
pub fn encode_s2c(e: &S2cMessage) -> (r: Vec<u8>)
    ensures
        r@ == s2c_bytes(e@),
{
    match e {
        S2cMessage::ConnectAck(a) => {
            let mut fs: Vec<Field> = Vec::new();
            push_flag(&mut fs, 1, a.success);
            push_some_number(&mut fs, 2, a.game_id);
            push_some_flag(&mut fs, 3, a.client_is_white);
            push_some_board(&mut fs, 4, &a.starting_position);
            assert(field_views(fs@) =~= connect_ack_fields(a@));
            let body = write_small(&fs);
            wrap(1, body)
        },
        S2cMessage::Move(m) => wrap(2, move_body(m)),
        S2cMessage::MoveAck(a) => {
            let mut fs: Vec<Field> = Vec::new();
            push_flag(&mut fs, 1, a.legal);
            push_some_board(&mut fs, 2, &a.board_result);
            assert(field_views(fs@) =~= move_ack_fields(a@));
            let body = write_small(&fs);
            wrap(3, body)
        },
    }
}


// ---------------------------------------------------------------------------
// Reading

/// Relies on String::from_utf8: it accepts exactly the valid UTF-8 byte
/// sequences, and keeps the characters they encode.
#[verifier::external_body]
fn string_from_utf8(b: Vec<u8>) -> (r: Option<String>)
    ensures
        match r {
            Some(s) => valid_utf8(b@) && s@ == decode_utf8(b@),
            None => !valid_utf8(b@),
        },
{
    String::from_utf8(b).ok()
}

fn varint_field_at(fs: &Vec<Field>, i: usize, tag: u64) -> (r: Option<u64>)
    ensures
        r == varint_at(field_views(fs@), i as int, tag),
{
    if i < fs.len() {
        match &fs[i] {
            Field::Varint { tag: t, value } => if *t == tag {
                Some(*value)
            } else {
                None
            },
            _ => None,
        }
    } else {
        None
    }
}

fn bytes_field_at(fs: &Vec<Field>, i: usize, tag: u64) -> (r: Option<&Vec<u8>>)
    ensures
        match r {
            Some(d) => bytes_at(field_views(fs@), i as int, tag) == Some(d@),
            None => bytes_at(field_views(fs@), i as int, tag) is None,
        },
{
    if i < fs.len() {
        match &fs[i] {
            Field::Bytes { tag: t, data } => if *t == tag {
                Some(data)
            } else {
                None
            },
            _ => None,
        }
    } else {
        None
    }
}

fn zero_if_absent(v: Option<u64>) -> (r: u64)
    ensures
        r == or_zero(v),
{
    match v {
        Some(x) => x,
        None => 0,
    }
}

fn move_from_body(b: &[u8]) -> (r: Option<Move>)
    ensures
        r == move_of_body(b@),
{
    let fs = match read_fields(b) {
        Some(fs) => fs,
        None => return None,
    };
    let from = varint_field_at(&fs, 0, 1);
    let i: usize = if from.is_some() { 1 } else { 0 };
    let to = varint_field_at(&fs, i, 2);
    let j: usize = if to.is_some() { i + 1 } else { i };
    let promo = varint_field_at(&fs, j, 3);
    let k: usize = if promo.is_some() { j + 1 } else { j };
    let from = zero_if_absent(from);
    let to = zero_if_absent(to);
    if k == fs.len() && from <= u32::MAX as u64 && to <= u32::MAX as u64 {
        match promo {
            None => Some(Move { from_square: from as u32, to_square: to as u32, promotion: None }),
            Some(c) => match code_to_piece(c) {
                Some(p) => Some(
                    Move { from_square: from as u32, to_square: to as u32, promotion: Some(p) },
                ),
                None => None,
            },
        }
    } else {
        None
    }
}

fn board_from_body(b: &[u8]) -> (r: Option<String>)
    ensures
        match r {
            Some(s) => board_of_body(b@) == Some(s@),
            None => board_of_body(b@) is None,
        },
{
    let fs = match read_fields(b) {
        Some(fs) => fs,
        None => return None,
    };
    if fs.len() == 0 {
        let s = String::new();
        assert(s@ =~= Seq::<char>::empty());
        return Some(s);
    }
    if fs.len() != 1 {
        return None;
    }
    match bytes_field_at(&fs, 0, 1) {
        Some(d) => string_from_utf8(vstd::slice::slice_to_vec(d.as_slice())),
        None => None,
    }
}

/// A nested position at `i`: `None` where there is no field `tag` there,
/// `Some(None)` where its bytes are no position.
fn board_field_at(fs: &Vec<Field>, i: usize, tag: u64) -> (r: Option<Option<BoardState>>)
    ensures
        match r {
            None => board_at(field_views(fs@), i as int, tag) is None,
            Some(None) => board_at(field_views(fs@), i as int, tag) == Some(None::<Seq<char>>),
            Some(Some(p)) => board_at(field_views(fs@), i as int, tag) == Some(
                Some(p.fen_string@),
            ),
        },
{
    match bytes_field_at(fs, i, tag) {
        None => None,
        Some(d) => match board_from_body(d.as_slice()) {
            Some(s) => Some(Some(BoardState { fen_string: s })),
            None => Some(None),
        },
    }
}

fn request_from_body(b: &[u8]) -> (r: Option<ConnectRequest>)
    ensures
        r == request_of_body(b@),
{
    let fs = match read_fields(b) {
        Some(fs) => fs,
        None => return None,
    };
    let id = varint_field_at(&fs, 0, 1);
    let i: usize = if id.is_some() { 1 } else { 0 };
    let sp = varint_field_at(&fs, i, 2);
    let k: usize = if sp.is_some() { i + 1 } else { i };
    if k == fs.len() {
        let spectate = match sp {
            Some(x) => x != 0,
            None => false,
        };
        Some(ConnectRequest { game_id: zero_if_absent(id), spectate })
    } else {
        None
    }
}

fn flag_from(v: Option<u64>) -> (r: Option<bool>)
    ensures
        r == flag_of(v),
{
    match v {
        Some(x) => Some(x != 0),
        None => None,
    }
}

fn connect_ack_from_body(b: &[u8]) -> (r: Option<ConnectAck>)
    ensures
        match r {
            Some(a) => connect_ack_of_body(b@) == Some(a@),
            None => connect_ack_of_body(b@) is None,
        },
{
    let fs = match read_fields(b) {
        Some(fs) => fs,
        None => return None,
    };
    let success = varint_field_at(&fs, 0, 1);
    let i: usize = if success.is_some() { 1 } else { 0 };
    let id = varint_field_at(&fs, i, 2);
    let j: usize = if id.is_some() { i + 1 } else { i };
    let white = varint_field_at(&fs, j, 3);
    let k: usize = if white.is_some() { j + 1 } else { j };
    let start = board_field_at(&fs, k, 4);
    let end: usize = if start.is_some() { k + 1 } else { k };
    if end != fs.len() {
        return None;
    }
    let starting_position = match start {
        Some(None) => return None,
        Some(Some(p)) => Some(p),
        None => None,
    };
    let success = match success {
        Some(x) => x != 0,
        None => false,
    };
    Some(
        ConnectAck { success, game_id: id, client_is_white: flag_from(white), starting_position },
    )
}

fn move_ack_from_body(b: &[u8]) -> (r: Option<MoveAck>)
    ensures
        match r {
            Some(a) => move_ack_of_body(b@) == Some(a@),
            None => move_ack_of_body(b@) is None,
        },
{
    let fs = match read_fields(b) {
        Some(fs) => fs,
        None => return None,
    };
    let legal = varint_field_at(&fs, 0, 1);
    let i: usize = if legal.is_some() { 1 } else { 0 };
    let result = board_field_at(&fs, i, 2);
    let end: usize = if result.is_some() { i + 1 } else { i };
    if end != fs.len() {
        return None;
    }
    let board_result = match result {
        Some(None) => return None,
        Some(Some(p)) => Some(p),
        None => None,
    };
    let legal = match legal {
        Some(x) => x != 0,
        None => false,
    };
    Some(MoveAck { legal, board_result })
}

fn c2s_from_bytes(b: &[u8]) -> (r: Option<C2sMessage>)
    ensures
        r == c2s_read(b@),
{
    let fs = match read_fields(b) {
        Some(fs) => fs,
        None => return None,
    };
    if fs.len() != 1 {
        return None;
    }
    if let Some(d) = bytes_field_at(&fs, 0, 1) {
        match request_from_body(d.as_slice()) {
            Some(r) => Some(C2sMessage::ConnectRequest(r)),
            None => None,
        }
    } else if let Some(d) = bytes_field_at(&fs, 0, 2) {
        match move_from_body(d.as_slice()) {
            Some(m) => Some(C2sMessage::Move(m)),
            None => None,
        }
    } else {
        None
    }
}

fn s2c_from_bytes(b: &[u8]) -> (r: Option<S2cMessage>)
    ensures
        match r {
            Some(e) => s2c_read(b@) == Some(e@),
            None => s2c_read(b@) is None,
        },
{
    let fs = match read_fields(b) {
        Some(fs) => fs,
        None => return None,
    };
    if fs.len() != 1 {
        return None;
    }
    if let Some(d) = bytes_field_at(&fs, 0, 1) {
        match connect_ack_from_body(d.as_slice()) {
            Some(a) => Some(S2cMessage::ConnectAck(a)),
            None => None,
        }
    } else if let Some(d) = bytes_field_at(&fs, 0, 2) {
        match move_from_body(d.as_slice()) {
            Some(m) => Some(S2cMessage::Move(m)),
            None => None,
        }
    } else if let Some(d) = bytes_field_at(&fs, 0, 3) {
        match move_ack_from_body(d.as_slice()) {
            Some(a) => Some(S2cMessage::MoveAck(a)),
            None => None,
        }
    } else {
        None
    }
}

fn same_bytes(a: &Vec<u8>, b: &[u8]) -> (r: bool)
    ensures
        r == (a@ == b@),
{
    if a.len() != b.len() {
        return false;
    }
    let mut i: usize = 0;
    while i < a.len()
        invariant
            a@.len() == b@.len(),
            i <= a@.len(),
            a@.subrange(0, i as int) == b@.subrange(0, i as int),
        decreases a@.len() - i,
    {
        if a[i] != b[i] {
            assert(a@[i as int] != b@[i as int]);
            return false;
        }
        assert(a@.subrange(0, i + 1) =~= a@.subrange(0, i as int).push(a@[i as int]));
        assert(b@.subrange(0, i + 1) =~= b@.subrange(0, i as int).push(b@[i as int]));
        i = i + 1;
    }
    assert(a@ =~= a@.subrange(0, i as int));
    assert(b@ =~= b@.subrange(0, i as int));
    true
}

/// Decodes the bytes of one read as a client message: `Ok` exactly when they
/// are the encoding of a message.
pub fn decode_c2s(b: &[u8]) -> (r: Result<C2sMessage, DecodeError>)
    ensures
        match r {
            Ok(e) => c2s_decoded(b@) == Some(e),
            Err(_) => c2s_decoded(b@) is None,
        },
{
    match c2s_from_bytes(b) {
        None => Err(DecodeError),
        Some(e) => {
            let enc = encode_c2s(&e);
            if same_bytes(&enc, b) {
                Ok(e)
            } else {
                Err(DecodeError)
            }
        },
    }
}

/// Decodes the bytes of one read as a server message: `Ok` exactly when they
/// are the encoding of a message.
pub fn decode_s2c(b: &[u8]) -> (r: Result<S2cMessage, DecodeError>)
    ensures
        match r {
            Ok(e) => s2c_decoded(b@) == Some(e@),
            Err(_) => s2c_decoded(b@) is None,
        },
{
    match s2c_from_bytes(b) {
        None => Err(DecodeError),
        Some(e) => {
            let enc = encode_s2c(&e);
            if same_bytes(&enc, b) {
                Ok(e)
            } else {
                Err(DecodeError)
            }
        },
    }
}

} // verus!
