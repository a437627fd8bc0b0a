//! The session's board, held as the position's FEN text. The rules engine
//! runs outside the library: it judges a move against a position and hands
//! its verdict here, where the board takes it only if it was made against
//! the position that the board holds now.
use crate::codec::Move;
use vstd::prelude::*;

verus! {

/// A square number names one of the 64 squares.
pub open spec fn square_ok(sq: u32) -> bool {
    sq < 64
}

/// A move of the data model: two distinct squares of the board.
pub open spec fn move_ok(m: Move) -> bool {
    square_ok(m.from_square) && square_ok(m.to_square) && m.from_square != m.to_square
}

/// The file (column) of a square.
pub fn square_file(sq: u32) -> (r: u32)
    requires
        square_ok(sq),
    ensures
        r == sq % 8,
{
    sq % 8
}

/// The rank (row) of a square.
pub fn square_rank(sq: u32) -> (r: u32)
    requires
        square_ok(sq),
    ensures
        r == sq / 8,
{
    sq / 8
}

/// The square at a file and a rank.
pub fn square_at(file: u32, rank: u32) -> (r: u32)
    requires
        file < 8,
        rank < 8,
    ensures
        r == rank * 8 + file,
        square_ok(r),
        r % 8 == file,
        r / 8 == rank,
{
    rank * 8 + file
}

/// Whether a move names two distinct squares of the board.
pub fn is_move_ok(m: &Move) -> (r: bool)
    ensures
        r == move_ok(*m),
{
    m.from_square < 64 && m.to_square < 64 && m.from_square != m.to_square
}

/// What the engine said of a move: the position it judged it against, and
/// the position after it, or `None` where the move is illegal there.
pub struct Verdict {
    pub before: String,
    pub after: Option<String>,
}

pub struct VerdictView {
    pub before: Seq<char>,
    pub after: Option<Seq<char>>,
}

impl View for Verdict {
    type V = VerdictView;

    open spec fn view(&self) -> VerdictView {
        VerdictView {
            before: self.before@,
            after: match self.after {
                Some(s) => Some(s@),
                None => None,
            },
        }
    }
}

#[derive(Clone, Copy, Debug, PartialEq, Eq, Structural)]
pub enum ApplyError {
    /// The move is not legal in the board's position.
    IllegalMove,
    /// The verdict was made against another position than the board's.
    Stale,
}

/// Outcome of applying a move with a verdict to the position `pos`.
pub open spec fn apply_result(pos: Seq<char>, m: Move, v: VerdictView) -> Result<
    Seq<char>,
    ApplyError,
> {
    if !move_ok(m) {
        Err(ApplyError::IllegalMove)
    } else if v.before != pos {
        Err(ApplyError::Stale)
    } else {
        match v.after {
            Some(f) => Ok(f),
            None => Err(ApplyError::IllegalMove),
        }
    }
}

/// The position after applying: the new one on success, else unchanged.
pub open spec fn position_after(pos: Seq<char>, m: Move, v: VerdictView) -> Seq<char> {
    match apply_result(pos, m, v) {
        Ok(f) => f,
        Err(_) => pos,
    }
}

/// The one board of a session.
pub struct SharedBoardState {
    fen: String,
}

impl View for SharedBoardState {
    type V = Seq<char>;

    closed spec fn view(&self) -> Seq<char> {
        self.fen@
    }
}

impl SharedBoardState {
    /// A board standing at the position `fen`.
    pub fn new(fen: String) -> (r: Self)
        ensures
            r@ == fen@,
    {
        SharedBoardState { fen }
    }

    /// The position now, as FEN.
    pub fn snapshot(&self) -> (r: String)
        ensures
            r@ == self@,
    {
        self.fen.clone()
    }

    /// Applies a move that the engine judged: on success the board takes the
    /// engine's position and returns it; on failure it is left as it was.
    pub fn apply_move(&mut self, m: &Move, verdict: &Verdict) -> (r: Result<String, ApplyError>)
        ensures
            match r {
                Ok(f) => apply_result(old(self)@, *m, verdict@) == Ok::<Seq<char>, ApplyError>(
                    f@,
                ),
                Err(e) => apply_result(old(self)@, *m, verdict@) == Err::<Seq<char>, ApplyError>(
                    e,
                ),
            },
            final(self)@ == position_after(old(self)@, *m, verdict@),
    {
        if !is_move_ok(m) {
            return Err(ApplyError::IllegalMove);
        }
        if verdict.before != self.fen {
            return Err(ApplyError::Stale);
        }
        match &verdict.after {
            Some(f) => {
                self.fen = f.clone();
                Ok(f.clone())
            },
            None => Err(ApplyError::IllegalMove),
        }
    }

    /// Takes a position that the authoritative side sent.
    pub fn adopt(&mut self, fen: String)
        ensures
            final(self)@ == fen@,
    {
        self.fen = fen;
    }
}

/// A move only takes effect against the position that its verdict was made
/// for: once one of two moves judged against the same position has changed
/// the board, the other is refused as stale and changes nothing.
pub proof fn lemma_no_lost_update(
    pos: Seq<char>,
    m1: Move,
    v1: VerdictView,
    m2: Move,
    v2: VerdictView,
)
    requires
        v1.before == pos,
        v2.before == pos,
        position_after(pos, m1, v1) != pos,
    ensures
        apply_result(position_after(pos, m1, v1), m2, v2) is Err,
        position_after(position_after(pos, m1, v1), m2, v2) == position_after(pos, m1, v1),
{
}

/// A move that succeeds was judged against the very position it changes.
pub proof fn lemma_applied_against_current(pos: Seq<char>, m: Move, v: VerdictView)
    requires
        apply_result(pos, m, v) is Ok,
    ensures
        v.before == pos,
        move_ok(m),
        position_after(pos, m, v) == v.after->0,
{
}

} // verus!
