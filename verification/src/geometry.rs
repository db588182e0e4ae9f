//! The moves of the pieces as lines on the board: what the direction tables
//! of the rules amount to.

use vstd::prelude::*;
use crate::board::BoardView;
use crate::moves::Move;
use crate::pieces::{Piece, PieceType};
use crate::rules::{directions, is_direction, lemma_offset, reach, step};
use crate::squares::on_board;

verus! {

/// The sign of a number: -1, 0 or 1.
pub open spec fn sign(x: int) -> int {
    if x < 0 {
        -1
    } else if x > 0 {
        1
    } else {
        0
    }
}

/// The absolute value of a number.
pub open spec fn magnitude(x: int) -> int {
    if x < 0 {
        -x
    } else {
        x
    }
}

/// The number of king's steps between two squares.
pub open spec fn distance(from: (i8, i8), to: (i8, i8)) -> int {
    let ranks = magnitude(to.0 - from.0);
    let files = magnitude(to.1 - from.1);
    if ranks >= files {
        ranks
    } else {
        files
    }
}

/// The direction from one square towards another.
pub open spec fn heading(from: (i8, i8), to: (i8, i8)) -> (i8, i8) {
    (sign(to.0 - from.0) as i8, sign(to.1 - from.1) as i8)
}

/// The two squares lie on one rank or one file, and differ.
pub open spec fn on_a_straight(from: (i8, i8), to: (i8, i8)) -> bool {
    from != to && (from.0 == to.0 || from.1 == to.1)
}

/// The two squares lie on one diagonal, and differ.
pub open spec fn on_a_diagonal(from: (i8, i8), to: (i8, i8)) -> bool {
    from != to && magnitude(to.0 - from.0) == magnitude(to.1 - from.1)
}

/// The two squares are a knight's leap apart: one step along a rank or
/// file and two along the other.
pub open spec fn a_leap_apart(from: (i8, i8), to: (i8, i8)) -> bool {
    let ranks = magnitude(to.0 - from.0);
    let files = magnitude(to.1 - from.1);
    (ranks == 1 && files == 2) || (ranks == 2 && files == 1)
}

/// A piece of `kind` travels from `from` towards `to`: a knight by a leap,
/// a king to a neighbouring square, a rook along a rank or file, a bishop
/// along a diagonal, a queen along either. A pawn is not described here.
pub open spec fn travels(kind: PieceType, from: (i8, i8), to: (i8, i8)) -> bool {
    match kind {
        PieceType::Pawn => false,
        PieceType::Knight => a_leap_apart(from, to),
        PieceType::King => from != to && distance(from, to) == 1,
        PieceType::Rook => on_a_straight(from, to),
        PieceType::Bishop => on_a_diagonal(from, to),
        PieceType::Queen => on_a_straight(from, to) || on_a_diagonal(from, to),
    }
}

impl BoardView {
    /// The squares strictly between two squares of one line are empty.
    pub open spec fn clear_between(self, from: (i8, i8), to: (i8, i8)) -> bool {
        forall|j: int|
            0 < j < distance(from, to) ==> self.piece_at(
                #[trigger] step(from, heading(from, to), j),
            ) is None
    }
}

/// The place of a direction in the table of a kind that travels in it.
proof fn lemma_find_direction(kind: PieceType, from: (i8, i8), to: (i8, i8)) -> (i: int)
    requires
        on_board(from),
        on_board(to),
        travels(kind, from, to),
    ensures
        0 <= i < directions(kind).len(),
        is_direction(directions(kind)[i]),
        kind == PieceType::Knight ==> directions(kind)[i] == ((to.0 - from.0) as i8, (to.1
            - from.1) as i8),
        kind != PieceType::Knight ==> directions(kind)[i] == heading(from, to),
{
    let d = if kind == PieceType::Knight {
        ((to.0 - from.0) as i8, (to.1 - from.1) as i8)
    } else {
        heading(from, to)
    };
    match kind {
        PieceType::Pawn => 0,
        PieceType::Knight => {
            if d == (2i8, 1i8) {
                0
            } else if d == (2i8, -1i8) {
                1
            } else if d == (1i8, 2i8) {
                2
            } else if d == (1i8, -2i8) {
                3
            } else if d == (-1i8, 2i8) {
                4
            } else if d == (-1i8, -2i8) {
                5
            } else if d == (-2i8, 1i8) {
                6
            } else {
                7
            }
        },
        PieceType::Bishop => {
            if d == (1i8, 1i8) {
                0
            } else if d == (1i8, -1i8) {
                1
            } else if d == (-1i8, 1i8) {
                2
            } else {
                3
            }
        },
        PieceType::Rook => {
            if d == (1i8, 0i8) {
                0
            } else if d == (-1i8, 0i8) {
                1
            } else if d == (0i8, 1i8) {
                2
            } else {
                3
            }
        },
        _ => {
            if d == (1i8, 1i8) {
                0
            } else if d == (1i8, -1i8) {
                1
            } else if d == (-1i8, 1i8) {
                2
            } else if d == (-1i8, -1i8) {
                3
            } else if d == (1i8, 0i8) {
                4
            } else if d == (-1i8, 0i8) {
                5
            } else if d == (0i8, 1i8) {
                6
            } else {
                7
            }
        },
    }
}

/// A number of steps in a direction of a kind leads along a line that the
/// kind travels; but for a knight, the direction is the heading of the
/// line and the number of steps is its length.
proof fn lemma_ray_is_a_line(kind: PieceType, from: (i8, i8), i: int, k: int)
    requires
        on_board(from),
        0 <= i < directions(kind).len(),
        1 <= k <= reach(kind),
        on_board(step(from, directions(kind)[i], k)),
    ensures
        travels(kind, from, step(from, directions(kind)[i], k)),
        kind != PieceType::Knight ==> heading(from, step(from, directions(kind)[i], k))
            == directions(kind)[i] && distance(from, step(from, directions(kind)[i], k)) == k,
{
    let d = directions(kind)[i];
    assert(is_direction(d));
    lemma_offset(d, k);
}

/// A move of a piece that is no pawn is pseudo-legal exactly when it does
/// not promote, leads along a line that the kind travels to a square of
/// the board that holds no piece of the same side, and, for a rook, bishop
/// or queen, crosses only empty squares.
pub proof fn lemma_piece_moves_are_lines(board: BoardView, piece: Piece, m: Move)
    requires
        on_board(m.from),
        piece.piece_type != PieceType::Pawn,
    ensures
        board.piece_move(piece, m) <==> {
            &&& m.promo is None
            &&& travels(piece.piece_type, m.from, m.to)
            &&& board.can_land(piece.side, m.to)
            &&& piece.piece_type != PieceType::Knight ==> board.clear_between(m.from, m.to)
        },
{
    let kind = piece.piece_type;
    let dirs = directions(kind);
    let max = reach(kind);
    let from = m.from;
    let to = m.to;
    if board.piece_move(piece, m) {
        let (i, k) = choose|i: int, k: int|
            0 <= i < dirs.len() && 1 <= k <= max && #[trigger] board.slide(
                piece.side,
                from,
                dirs[i],
                k,
            ) && to == step(from, dirs[i], k);
        lemma_ray_is_a_line(kind, from, i, k);
    }
    if m.promo is None && travels(kind, from, to) && board.can_land(piece.side, to) && (kind
        != PieceType::Knight ==> board.clear_between(from, to)) {
        let i = lemma_find_direction(kind, from, to);
        let d = dirs[i];
        let k = if kind == PieceType::Knight {
            1
        } else {
            distance(from, to)
        };
        lemma_offset(d, k);
        assert(to == step(from, d, k));
        assert forall|j: int| 1 <= j < k implies on_board(#[trigger] step(from, d, j))
            && board.piece_at(step(from, d, j)) is None by {
            lemma_offset(d, j);
        }
        assert(board.slide(piece.side, from, dirs[i], k));
    }
}

} // verus!
