//! The rules of the game, as mathematics: which moves a piece can make,
//! when a side is in check, what a move does to a position, and which moves
//! are legal.

use vstd::prelude::*;
use crate::board::BoardView;
use crate::castling::CastlingAvailability;
use crate::moves::Move;
use crate::pieces::{Piece, PieceType, Side};
use crate::squares::on_board;

verus! {

/// The eight leaps of a knight.
pub open spec fn knight_leaps() -> Seq<(i8, i8)> {
    seq![
        (2i8, 1i8),
        (2i8, -1i8),
        (1i8, 2i8),
        (1i8, -2i8),
        (-1i8, 2i8),
        (-1i8, -2i8),
        (-2i8, 1i8),
        (-2i8, -1i8),
    ]
}

/// The four diagonal directions.
pub open spec fn diagonals() -> Seq<(i8, i8)> {
    seq![(1i8, 1i8), (1i8, -1i8), (-1i8, 1i8), (-1i8, -1i8)]
}

/// The four directions along a rank or a file.
pub open spec fn straights() -> Seq<(i8, i8)> {
    seq![(1i8, 0i8), (-1i8, 0i8), (0i8, 1i8), (0i8, -1i8)]
}

/// The eight directions to the neighbours of a square.
pub open spec fn all_directions() -> Seq<(i8, i8)> {
    seq![
        (1i8, 1i8),
        (1i8, -1i8),
        (-1i8, 1i8),
        (-1i8, -1i8),
        (1i8, 0i8),
        (-1i8, 0i8),
        (0i8, 1i8),
        (0i8, -1i8),
    ]
}

/// The directions in which a kind of piece travels. A pawn has none: its
/// moves are described apart.
pub open spec fn directions(kind: PieceType) -> Seq<(i8, i8)> {
    match kind {
        PieceType::Pawn => Seq::<(i8, i8)>::empty(),
        PieceType::Knight => knight_leaps(),
        PieceType::Bishop => diagonals(),
        PieceType::Rook => straights(),
        PieceType::Queen => all_directions(),
        PieceType::King => all_directions(),
    }
}

/// How many steps a kind of piece may take in one of its directions.
pub open spec fn reach(kind: PieceType) -> int {
    match kind {
        PieceType::Pawn => 0,
        PieceType::Knight => 1,
        PieceType::King => 1,
        PieceType::Bishop => 7,
        PieceType::Rook => 7,
        PieceType::Queen => 7,
    }
}

/// How far `k` steps in the direction `d` lead, in ranks and files.
pub open spec fn offset(d: (i8, i8), k: int) -> (int, int) {
    (k * d.0, k * d.1)
}

/// The square `k` steps from `origin` in the direction `d`.
pub open spec fn step(origin: (i8, i8), d: (i8, i8), k: int) -> (i8, i8) {
    ((origin.0 + offset(d, k).0) as i8, (origin.1 + offset(d, k).1) as i8)
}

/// A component of a direction is one of -2..=2, and a direction leads
/// somewhere.
pub open spec fn is_direction(d: (i8, i8)) -> bool {
    -2 <= d.0 <= 2 && -2 <= d.1 <= 2 && d != (0i8, 0i8)
}

/// No two different directions of `dirs` lead to the same place within
/// `max` steps.
pub open spec fn rays_apart(dirs: Seq<(i8, i8)>, max: int) -> bool {
    forall|i1: int, i2: int, k1: int, k2: int|
        0 <= i1 < i2 < dirs.len() && 1 <= k1 <= max && 1 <= k2 <= max ==> #[trigger] offset(
            dirs[i1],
            k1,
        ) != #[trigger] offset(dirs[i2], k2)
}

/// The direction in which the pawns of `side` advance.
pub open spec fn forward(side: Side) -> int {
    match side {
        Side::White => 1,
        Side::Black => -1,
    }
}

/// The rank on which the pawns of `side` start.
pub open spec fn pawn_start_rank(side: Side) -> int {
    match side {
        Side::White => 1,
        Side::Black => 6,
    }
}

/// The rank on which the pawns of `side` promote.
pub open spec fn farthest_rank(side: Side) -> int {
    match side {
        Side::White => 7,
        Side::Black => 0,
    }
}

/// The rank on which the king and the rooks of `side` start.
pub open spec fn home_rank(side: Side) -> i8 {
    match side {
        Side::White => 0i8,
        Side::Black => 7i8,
    }
}

/// The kinds that a pawn may be promoted to.
pub open spec fn promotion_kinds() -> Seq<PieceType> {
    seq![PieceType::Knight, PieceType::Bishop, PieceType::Rook, PieceType::Queen]
}

/// The four promoting moves from `from` to `to`.
pub open spec fn promotions(from: (i8, i8), to: (i8, i8)) -> Seq<Move> {
    Seq::new(4, |i: int| Move { from, to, promo: Some(promotion_kinds()[i]) })
}

/// A pawn move of `side` carries a promotion exactly when it lands on the
/// farthest rank, and then to a knight, bishop, rook or queen.
pub open spec fn promotes_properly(side: Side, m: Move) -> bool {
    if m.to.0 == farthest_rank(side) {
        m.promo matches Some(kind) && (kind == PieceType::Knight || kind == PieceType::Bishop
            || kind == PieceType::Rook || kind == PieceType::Queen)
    } else {
        m.promo is None
    }
}

/// The move of the king of `side` from its starting square to `file` on
/// the home rank.
pub open spec fn king_to_file(side: Side, file: i8) -> Move {
    Move { from: (home_rank(side), 4i8), to: (home_rank(side), file), promo: None }
}

impl BoardView {
    /// A piece of `side` can come to rest on `c`: the square is on the board
    /// and holds no piece of the same side.
    pub open spec fn can_land(self, side: Side, c: (i8, i8)) -> bool {
        on_board(c) && !self.occupied_by(side, c)
    }

    /// The squares strictly between `origin` and the `k`-th step in the
    /// direction `d` are on the board and empty.
    pub open spec fn path_free(self, origin: (i8, i8), d: (i8, i8), k: int) -> bool {
        forall|j: int|
            1 <= j < k ==> on_board(#[trigger] step(origin, d, j)) && self.piece_at(
                step(origin, d, j),
            ) is None
    }

    /// A piece of `side` on `origin` can travel `k` steps in the direction
    /// `d`: nothing stands in between, and it can land on the last square.
    pub open spec fn slide(self, side: Side, origin: (i8, i8), d: (i8, i8), k: int) -> bool {
        k >= 1 && self.path_free(origin, d, k) && self.can_land(side, step(origin, d, k))
    }

    /// `m` leads a piece of `side` along one of the first `upto` directions
    /// of `dirs`, at most `max` steps far.
    pub open spec fn on_rays(
        self,
        side: Side,
        dirs: Seq<(i8, i8)>,
        upto: int,
        max: int,
        m: Move,
    ) -> bool {
        &&& m.promo is None
        &&& exists|i: int, k: int|
            0 <= i < upto && 1 <= k <= max && #[trigger] self.slide(side, m.from, dirs[i], k)
                && m.to == step(m.from, dirs[i], k)
    }

    /// `m` is a move that `piece`, which is no pawn, can make from `m.from`
    /// by the way its kind travels: along one of its directions, no farther
    /// than it reaches, over empty squares, onto a square that is empty or
    /// holds a piece of the other side.
    pub open spec fn piece_move(self, piece: Piece, m: Move) -> bool {
        self.on_rays(
            piece.side,
            directions(piece.piece_type),
            directions(piece.piece_type).len() as int,
            reach(piece.piece_type),
            m,
        )
    }
}

/// A position, as mathematics: the board, the side to move, the castling
/// rights and the square that a pawn may be taken on in passing.
pub struct Position {
    pub board: BoardView,
    pub side_to_move: Side,
    pub castling: CastlingAvailability,
    pub en_passant: Option<(i8, i8)>,
}

impl Position {
    /// The occupied squares and the en-passant square lie on the board.
    pub open spec fn wf(self) -> bool {
        &&& self.board.wf()
        &&& self.en_passant matches Some(c) ==> on_board(c)
    }

    /// `m` advances a pawn of `side`: one square onto an empty square, or
    /// two squares from its starting rank over an empty square onto an empty
    /// square.
    pub open spec fn pawn_advance(self, side: Side, m: Move) -> bool {
        &&& m.to.1 == m.from.1
        &&& self.board.piece_at(m.to) is None
        &&& {
            ||| m.to.0 == m.from.0 + forward(side) && promotes_properly(side, m)
            ||| {
                &&& m.from.0 == pawn_start_rank(side)
                &&& m.to.0 == m.from.0 + 2 * forward(side)
                &&& self.board.piece_at(((m.from.0 + forward(side)) as i8, m.from.1)) is None
                &&& m.promo is None
            }
        }
    }

    /// `m` takes with a pawn of `side`: one square diagonally forward, onto
    /// a piece of the other side, or onto the empty en-passant square.
    pub open spec fn pawn_capture(self, side: Side, m: Move) -> bool {
        &&& m.to.0 == m.from.0 + forward(side)
        &&& (m.to.1 == m.from.1 - 1 || m.to.1 == m.from.1 + 1)
        &&& {
            ||| self.board.occupied_by(side.opponent(), m.to) && promotes_properly(side, m)
            ||| self.board.piece_at(m.to) is None && self.en_passant == Some(m.to) && m.promo
                is None
        }
    }

    /// `m` is a move that a pawn of `side` on `m.from` can make.
    pub open spec fn pawn_move(self, side: Side, m: Move) -> bool {
        self.pawn_advance(side, m) || self.pawn_capture(side, m)
    }

    /// `m` obeys the way the piece on `m.from` moves and what stands on the
    /// board. Whether it leaves the mover's king in check is not asked.
    pub open spec fn pseudo_legal(self, m: Move) -> bool {
        &&& on_board(m.from)
        &&& on_board(m.to)
        &&& match self.board.piece_at(m.from) {
            None => false,
            Some(piece) => if piece.piece_type == PieceType::Pawn {
                self.pawn_move(piece.side, m)
            } else {
                self.board.piece_move(piece, m)
            },
        }
    }

    /// `m` is a pseudo-legal move of the opponent of `side` that lands on
    /// the cached location of the king of `side`.
    pub open spec fn threatens(self, m: Move, side: Side) -> bool {
        &&& self.pseudo_legal(m)
        &&& self.board.occupied_by(side.opponent(), m.from)
        &&& m.to == self.board.king_location(side)
    }

    /// Some pseudo-legal move of the opponent lands on the king of `side`.
    pub open spec fn in_check(self, side: Side) -> bool {
        exists|m: Move| #[trigger] self.threatens(m, side)
    }

    /// `m` moves a pawn onto the en-passant square.
    pub open spec fn takes_in_passing(self, m: Move) -> bool {
        &&& self.board.piece_at(m.from) matches Some(piece)
        &&& piece.piece_type == PieceType::Pawn
        &&& self.en_passant == Some(m.to)
    }

    /// `m` moves a king by `files` files.
    pub open spec fn moves_king_by(self, m: Move, files: int) -> bool {
        &&& self.board.piece_at(m.from) matches Some(piece)
        &&& piece.piece_type == PieceType::King
        &&& m.to.1 - m.from.1 == files
    }

    /// `m` can be applied: both squares are on the board, a piece stands on
    /// the origin, a pawn that moves onto the en-passant square comes from
    /// another file (the pawn it takes stands beside it), and a king that
    /// moves two files finds a piece in the corner to bring over.
    pub open spec fn applicable(self, m: Move) -> bool {
        &&& on_board(m.from)
        &&& on_board(m.to)
        &&& self.board.piece_at(m.from) is Some
        &&& self.takes_in_passing(m) ==> m.to.1 != m.from.1
        &&& self.moves_king_by(m, 2) ==> self.board.piece_at((m.from.0, 7i8)) is Some
        &&& self.moves_king_by(m, -2) ==> self.board.piece_at((m.from.0, 0i8)) is Some
    }

    /// The board after the pawn that `m` takes in passing, if any, has been
    /// removed: it stood on the mover's rank and the destination's file.
    pub open spec fn board_after_passing(self, m: Move) -> BoardView {
        if self.takes_in_passing(m) {
            self.board.remove((m.from.0, m.to.1))
        } else {
            self.board
        }
    }

    /// The en-passant square after `m`: the square that a pawn skipped when
    /// it advanced two ranks, and none after any other move.
    pub open spec fn en_passant_after(self, m: Move) -> Option<(i8, i8)> {
        if self.board.piece_at(m.from) matches Some(piece) && piece.piece_type
            == PieceType::Pawn {
            if m.from.0 - m.to.0 == -2 {
                Some(((m.from.0 + 1) as i8, m.from.1))
            } else if m.from.0 - m.to.0 == 2 {
                Some(((m.from.0 - 1) as i8, m.from.1))
            } else {
                None
            }
        } else {
            None
        }
    }

    /// The board after the rook has been brought over, where `m` moves a
    /// king by two files: from the h-file to the f-file on the king's side,
    /// from the a-file to the d-file on the queen's side.
    pub open spec fn board_after_rook(self, m: Move) -> BoardView {
        let board = self.board_after_passing(m);
        if self.moves_king_by(m, 2) {
            board.move_piece(Move { from: (m.from.0, 7i8), to: (m.from.0, 5i8), promo: None })
        } else if self.moves_king_by(m, -2) {
            board.move_piece(Move { from: (m.from.0, 0i8), to: (m.from.0, 3i8), promo: None })
        } else {
            board
        }
    }

    /// The position after `m` has been made.
    pub open spec fn after_move(self, m: Move) -> Position {
        Position {
            board: self.board_after_rook(m).move_piece(m),
            side_to_move: self.side_to_move.opponent(),
            castling: self.castling.after_leaving(m.from),
            en_passant: self.en_passant_after(m),
        }
    }

    /// After `m`, the side of the piece that made it is in check.
    pub open spec fn leaves_mover_in_check(self, m: Move) -> bool {
        self.after_move(m).in_check(self.board.pieces[m.from].side)
    }

    /// The side to move may castle on the king's side: it holds the right,
    /// its king stands on its starting square and is not in check, the two
    /// squares that the king crosses are empty, a piece stands in the corner,
    /// and the king would be in check on neither of the two squares.
    ///
    /// Which piece stands in the corner is not asked. A right is lost when
    /// a piece leaves the corner, not when the rook is taken there: the
    /// piece that took it is then the piece that the king castles with.
    pub open spec fn can_castle_kingside(self) -> bool {
        let side = self.side_to_move;
        let rank = home_rank(side);
        &&& self.castling.kingside(side)
        &&& self.board.piece_at((rank, 4i8)) == Some(
            Piece { side, piece_type: PieceType::King },
        )
        &&& !self.in_check(side)
        &&& self.board.piece_at((rank, 5i8)) is None
        &&& self.board.piece_at((rank, 6i8)) is None
        &&& self.board.piece_at((rank, 7i8)) is Some
        &&& !self.leaves_mover_in_check(king_to_file(side, 5))
        &&& !self.leaves_mover_in_check(king_to_file(side, 6))
    }

    /// The side to move may castle on the queen's side: it holds the right,
    /// its king stands on its starting square and is not in check, the three
    /// squares between king and corner are empty, a piece stands in the
    /// corner, and the king would be in check on neither of the two squares
    /// that it crosses. As on the king's side, which piece stands in the
    /// corner is not asked.
    pub open spec fn can_castle_queenside(self) -> bool {
        let side = self.side_to_move;
        let rank = home_rank(side);
        &&& self.castling.queenside(side)
        &&& self.board.piece_at((rank, 4i8)) == Some(
            Piece { side, piece_type: PieceType::King },
        )
        &&& !self.in_check(side)
        &&& self.board.piece_at((rank, 3i8)) is None
        &&& self.board.piece_at((rank, 2i8)) is None
        &&& self.board.piece_at((rank, 1i8)) is None
        &&& self.board.piece_at((rank, 0i8)) is Some
        &&& !self.leaves_mover_in_check(king_to_file(side, 3))
        &&& !self.leaves_mover_in_check(king_to_file(side, 2))
    }

    /// `m` castles, and the side to move may do so.
    pub open spec fn castling_move(self, m: Move) -> bool {
        ||| m == king_to_file(self.side_to_move, 6) && self.can_castle_kingside()
        ||| m == king_to_file(self.side_to_move, 2) && self.can_castle_queenside()
    }

    /// `m` is a pseudo-legal move of the side to move.
    pub open spec fn possible(self, m: Move) -> bool {
        self.pseudo_legal(m) && self.board.occupied_by(self.side_to_move, m.from)
    }

    /// `m` is legal: a pseudo-legal move of the side to move that can be
    /// applied and does not leave the mover in check, or castling.
    pub open spec fn legal(self, m: Move) -> bool {
        ||| self.possible(m) && self.applicable(m) && !self.leaves_mover_in_check(m)
        ||| self.castling_move(m)
    }

    /// It is the turn of `side`, which is in check and has no legal move.
    pub open spec fn checkmate(self, side: Side) -> bool {
        &&& self.side_to_move == side
        &&& self.in_check(side)
        &&& forall|m: Move| !self.legal(m)
    }

    /// The side to move is not in check and has no legal move.
    pub open spec fn stalemate(self) -> bool {
        &&& !self.in_check(self.side_to_move)
        &&& forall|m: Move| !self.legal(m)
    }

    /// The position after the moves of `moves` have been made in turn.
    pub open spec fn after_moves(self, moves: Seq<Move>) -> Position
        decreases moves.len(),
    {
        if moves.len() == 0 {
            self
        } else {
            self.after_moves(moves.drop_last()).after_move(moves.last())
        }
    }
}

/// The product of `k` and a component of a direction, without
/// multiplication.
proof fn lemma_scale(x: int, k: int)
    requires
        -2 <= x <= 2,
    ensures
        k * x == (if x == 0 {
            0
        } else if x == 1 {
            k
        } else if x == -1 {
            -k
        } else if x == 2 {
            k + k
        } else {
            -k - k
        }),
{
    if x == 0 {
        assert(k * x == 0) by (nonlinear_arith)
            requires
                x == 0,
        ;
    } else if x == 1 {
        assert(k * x == k) by (nonlinear_arith)
            requires
                x == 1,
        ;
    } else if x == -1 {
        assert(k * x == -k) by (nonlinear_arith)
            requires
                x == -1,
        ;
    } else if x == 2 {
        assert(k * x == k + k) by (nonlinear_arith)
            requires
                x == 2,
        ;
    } else {
        assert(k * x == -k - k) by (nonlinear_arith)
            requires
                x == -2,
        ;
    }
}

/// Where a direction leads in `k` steps, without multiplication.
pub proof fn lemma_offset(d: (i8, i8), k: int)
    requires
        is_direction(d),
    ensures
        offset(d, k).0 == (if d.0 == 0 {
            0
        } else if d.0 == 1 {
            k
        } else if d.0 == -1 {
            -k
        } else if d.0 == 2 {
            k + k
        } else {
            -k - k
        }),
        offset(d, k).1 == (if d.1 == 0 {
            0
        } else if d.1 == 1 {
            k
        } else if d.1 == -1 {
            -k
        } else if d.1 == 2 {
            k + k
        } else {
            -k - k
        }),
{
    lemma_scale(d.0 as int, k);
    lemma_scale(d.1 as int, k);
}

/// Different numbers of steps in one direction lead to different squares.
pub proof fn lemma_steps_differ(origin: (i8, i8), d: (i8, i8), k1: int, k2: int)
    requires
        on_board(origin),
        is_direction(d),
        0 <= k1 <= 7,
        0 <= k2 <= 7,
        k1 != k2,
    ensures
        step(origin, d, k1) != step(origin, d, k2),
{
    lemma_offset(d, k1);
    lemma_offset(d, k2);
}

/// The directions of each kind are directions, and no two of them lead to
/// the same square within the reach of the kind.
pub proof fn lemma_directions_apart(kind: PieceType)
    ensures
        forall|i: int| 0 <= i < directions(kind).len() ==> is_direction(#[trigger] directions(kind)[i]),
        rays_apart(directions(kind), reach(kind)),
{
    let dirs = directions(kind);
    let max = reach(kind);
    assert forall|i1: int, i2: int, k1: int, k2: int|
        0 <= i1 < i2 < dirs.len() && 1 <= k1 <= max && 1 <= k2 <= max implies #[trigger] offset(
        dirs[i1],
        k1,
    ) != #[trigger] offset(dirs[i2], k2) by {
        lemma_offset(dirs[i1], k1);
        lemma_offset(dirs[i2], k2);
    }
}

/// Every legal move leaves the side that made it out of check.
pub proof fn lemma_legal_move_leaves_mover_safe(p: Position, m: Move)
    requires
        p.legal(m),
    ensures
        p.applicable(m),
        p.board.occupied_by(p.side_to_move, m.from),
        !p.after_move(m).in_check(p.side_to_move),
{
}

/// A move never gives a castling right back.
pub proof fn lemma_move_keeps_rights_lost(p: Position, m: Move)
    ensures
        p.after_move(m).castling.within(p.castling),
{
}

/// Over any sequence of moves, castling rights are only ever lost: a right
/// that is held at the end was held at the start.
pub proof fn lemma_castling_rights_never_return(p: Position, moves: Seq<Move>)
    ensures
        p.after_moves(moves).castling.within(p.castling),
    decreases moves.len(),
{
    if moves.len() > 0 {
        lemma_castling_rights_never_return(p, moves.drop_last());
        lemma_move_keeps_rights_lost(p.after_moves(moves.drop_last()), moves.last());
    }
}

/// A move that can be applied to a well-formed position gives a
/// well-formed position, in which the other side is to move.
pub proof fn lemma_move_keeps_position_wf(p: Position, m: Move)
    requires
        p.wf(),
        p.applicable(m),
    ensures
        p.after_move(m).wf(),
        p.after_move(m).side_to_move == p.side_to_move.opponent(),
{
}

} // verus!
