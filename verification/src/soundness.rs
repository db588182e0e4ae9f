//! What holds of every position that legal play reaches: each king stands
//! where its location is cached, the en-passant square is the one that a
//! pawn has just skipped, and the side that has just moved is not in check.

use vstd::prelude::*;
use crate::board::BoardView;
use crate::castling::CastlingAvailability;
use crate::moves::Move;
use crate::pieces::{Piece, PieceType, Side};
use crate::rules::{all_directions, directions, forward, home_rank, king_to_file,
    lemma_directions_apart, lemma_offset, pawn_start_rank, step, Position};
use crate::squares::on_board;

verus! {

impl BoardView {
    /// A king of `side` stands on `c`.
    pub open spec fn has_king(self, side: Side, c: (i8, i8)) -> bool {
        self.piece_at(c) == Some(Piece { side, piece_type: PieceType::King })
    }

    /// Each side has one king, and it stands on the cached location of
    /// that side.
    pub open spec fn kings_in_place(self) -> bool {
        forall|side: Side, c: (i8, i8)|
            #[trigger] self.has_king(side, c) <==> c == self.king_location(side)
    }
}

impl Position {
    /// The en-passant square, if any, is the square that a pawn of the side
    /// that has just moved skipped on its first move: it is empty, so is the
    /// pawn's starting square behind it, and the pawn stands before it.
    pub open spec fn en_passant_in_window(self) -> bool {
        self.en_passant matches Some(c) ==> {
            let mover = self.side_to_move.opponent();
            &&& on_board(c)
            &&& c.0 == pawn_start_rank(mover) + forward(mover)
            &&& self.board.piece_at(c) is None
            &&& self.board.piece_at(((c.0 - forward(mover)) as i8, c.1)) is None
            &&& self.board.piece_at(((c.0 + forward(mover)) as i8, c.1)) == Some(
                Piece { side: mover, piece_type: PieceType::Pawn },
            )
        }
    }

    /// Where `side` holds a castling right, its king stands on its
    /// starting square and a piece stands in the corner of that right.
    pub open spec fn rights_in_place(self, side: Side) -> bool {
        let rank = home_rank(side);
        &&& self.castling.kingside(side) ==> self.board.has_king(side, (rank, 4i8))
            && self.board.piece_at((rank, 7i8)) is Some
        &&& self.castling.queenside(side) ==> self.board.has_king(side, (rank, 4i8))
            && self.board.piece_at((rank, 0i8)) is Some
    }

    /// The position is one that legal play can have reached: it is well
    /// formed, the kings stand where their locations are cached, the
    /// en-passant square is in its window, each castling right that is
    /// held has its king and its corner in place, and the side that has
    /// just moved is not in check.
    pub open spec fn sound(self) -> bool {
        &&& self.wf()
        &&& self.board.kings_in_place()
        &&& self.en_passant_in_window()
        &&& self.rights_in_place(Side::White)
        &&& self.rights_in_place(Side::Black)
        &&& !self.in_check(self.side_to_move.opponent())
    }

    /// The position at the start of a game.
    pub open spec fn start() -> Position {
        Position {
            board: BoardView::standard(),
            side_to_move: Side::White,
            castling: CastlingAvailability {
                white_can_castle_kingside: true,
                white_can_castle_queenside: true,
                black_can_castle_kingside: true,
                black_can_castle_queenside: true,
            },
            en_passant: None,
        }
    }

    /// Each move of `moves` is legal in the position that the moves before
    /// it lead to.
    pub open spec fn legal_line(self, moves: Seq<Move>) -> bool
        decreases moves.len(),
    {
        moves.len() > 0 ==> self.legal_line(moves.drop_last()) && self.after_moves(
            moves.drop_last(),
        ).legal(moves.last())
    }
}

/// A pseudo-legal move of a king leads to a neighbouring square.
pub proof fn lemma_king_moves_one_step(p: Position, m: Move)
    requires
        p.pseudo_legal(m),
        p.board.piece_at(m.from) matches Some(piece) && piece.piece_type == PieceType::King,
    ensures
        -1 <= m.to.0 - m.from.0 <= 1,
        -1 <= m.to.1 - m.from.1 <= 1,
{
    let piece = p.board.piece_at(m.from)->0;
    let dirs = directions(piece.piece_type);
    let (i, k) = choose|i: int, k: int|
        0 <= i < dirs.len() && 1 <= k <= 1 && #[trigger] p.board.slide(
            piece.side,
            m.from,
            dirs[i],
            k,
        ) && m.to == step(m.from, dirs[i], k);
    assert(k == 1);
    assert(-1 <= dirs[i].0 <= 1 && -1 <= dirs[i].1 <= 1);
}

/// A king threatens the squares beside it on its rank: where a king stands
/// next to the cached location of the other side's king, that side is in
/// check.
pub proof fn lemma_king_beside_gives_check(p: Position, side: Side, c: (i8, i8))
    requires
        on_board(c),
        p.board.has_king(side.opponent(), c),
        on_board(p.board.king_location(side)),
        p.board.king_location(side) == (c.0, (c.1 + 1) as i8) || p.board.king_location(side) == (
            c.0,
            (c.1 - 1) as i8,
        ),
        !p.board.occupied_by(side.opponent(), p.board.king_location(side)),
    ensures
        p.in_check(side),
{
    let target = p.board.king_location(side);
    let m = Move { from: c, to: target, promo: None };
    let piece = Piece { side: side.opponent(), piece_type: PieceType::King };
    let dirs = all_directions();
    let i: int = if target.1 == c.1 + 1 {
        6
    } else {
        7
    };
    lemma_offset(dirs[i], 1);
    assert(step(c, dirs[i], 1) == target);
    assert(directions(piece.piece_type) == dirs);
    assert(dirs.len() == 8);
    assert(p.board.slide(piece.side, m.from, dirs[i], 1));
    assert(p.board.on_rays(piece.side, dirs, 8, 1, m));
    assert(p.board.piece_move(piece, m));
    assert(p.threatens(m, side));
}

/// In a sound position every pseudo-legal move of the side to move can be
/// applied, and a pawn that moves onto the en-passant square takes the pawn
/// that has just passed it.
pub proof fn lemma_possible_moves_are_applicable(p: Position, m: Move)
    requires
        p.wf(),
        p.en_passant_in_window(),
        p.possible(m),
    ensures
        p.applicable(m),
        p.takes_in_passing(m) ==> m.to.1 != m.from.1 && p.board.piece_at((m.from.0, m.to.1))
            == Some(Piece { side: p.side_to_move.opponent(), piece_type: PieceType::Pawn }),
{
    let piece = p.board.piece_at(m.from)->0;
    if piece.piece_type == PieceType::King {
        lemma_king_moves_one_step(p, m);
    }
}

/// In a sound position the legal moves are the pseudo-legal moves of the
/// side to move that do not leave it in check, and its castling moves: that
/// a move can be applied need not be asked.
pub proof fn lemma_legal_moves_of_sound_position(p: Position, m: Move)
    requires
        p.sound(),
    ensures
        p.legal(m) <==> (p.possible(m) && !p.leaves_mover_in_check(m)) || p.castling_move(m),
{
    if p.possible(m) {
        lemma_possible_moves_are_applicable(p, m);
    }
}

/// In a sound position the side to move may castle on a side of the board
/// exactly when it holds the right, is not in check, finds the squares
/// between king and corner empty, and would be in check neither on the
/// square that the king crosses nor on the square where it lands: king and
/// corner are in place wherever the right is held.
pub proof fn lemma_castling_in_sound_position(p: Position)
    requires
        p.sound(),
    ensures
        p.can_castle_kingside() <==> {
            &&& p.castling.kingside(p.side_to_move)
            &&& !p.in_check(p.side_to_move)
            &&& p.board.piece_at((home_rank(p.side_to_move), 5i8)) is None
            &&& p.board.piece_at((home_rank(p.side_to_move), 6i8)) is None
            &&& !p.leaves_mover_in_check(king_to_file(p.side_to_move, 5))
            &&& !p.leaves_mover_in_check(king_to_file(p.side_to_move, 6))
        },
        p.can_castle_queenside() <==> {
            &&& p.castling.queenside(p.side_to_move)
            &&& !p.in_check(p.side_to_move)
            &&& p.board.piece_at((home_rank(p.side_to_move), 3i8)) is None
            &&& p.board.piece_at((home_rank(p.side_to_move), 2i8)) is None
            &&& p.board.piece_at((home_rank(p.side_to_move), 1i8)) is None
            &&& !p.leaves_mover_in_check(king_to_file(p.side_to_move, 3))
            &&& !p.leaves_mover_in_check(king_to_file(p.side_to_move, 2))
        },
{
    assert(p.rights_in_place(p.side_to_move));
}

/// Only a pawn that lands on its farthest rank promotes: where the
/// en-passant square is in its window, a pseudo-legal move carries a
/// promotion exactly when it is such a move.
pub proof fn lemma_promotion_only_on_farthest_rank(p: Position, m: Move)
    requires
        p.pseudo_legal(m),
        p.en_passant_in_window(),
    ensures
        m.promo is Some <==> (p.board.piece_at(m.from) matches Some(piece) && piece.piece_type
            == PieceType::Pawn && m.to.0 == crate::rules::farthest_rank(piece.side)),
{
}

/// The position at the start of a game is sound.
pub proof fn lemma_start_is_sound()
    ensures
        Position::start().sound(),
{
    let p = Position::start();
    assert forall|m: Move| !#[trigger] p.threatens(m, Side::Black) by {
        if p.threatens(m, Side::Black) {
            let piece = p.board.piece_at(m.from)->0;
            assert(m.from.0 <= 1 && m.to == (7i8, 4i8));
            if piece.piece_type != PieceType::Pawn {
                let dirs = directions(piece.piece_type);
                let (i, k) = choose|i: int, k: int|
                    0 <= i < dirs.len() && 1 <= k <= 7 && #[trigger] p.board.slide(
                        piece.side,
                        m.from,
                        dirs[i],
                        k,
                    ) && m.to == step(m.from, dirs[i], k);
                lemma_directions_apart(piece.piece_type);
                lemma_offset(dirs[i], k);
                lemma_offset(dirs[i], 1);
                if k > 1 {
                    let first = step(m.from, dirs[i], 1);
                    assert(on_board(first) && p.board.piece_at(first) is None);
                }
            }
        }
    }
}

/// A legal move leads from a sound position to a sound position.
pub proof fn lemma_legal_move_keeps_position_sound(p: Position, m: Move)
    requires
        p.sound(),
        p.legal(m),
    ensures
        p.after_move(m).sound(),
{
    let side = p.side_to_move;
    let other = side.opponent();
    let after = p.after_move(m);
    let rank = home_rank(side);
    crate::rules::lemma_legal_move_leaves_mover_safe(p, m);
    crate::rules::lemma_move_keeps_position_wf(p, m);
    if p.possible(m) {
        let piece = p.board.piece_at(m.from)->0;
        lemma_possible_moves_are_applicable(p, m);
        if piece.piece_type == PieceType::King {
            lemma_king_moves_one_step(p, m);
        }
        assert(m.to != p.board.king_location(other)) by {
            if m.to == p.board.king_location(other) {
                assert(p.threatens(m, other));
            }
        }
        assert(!p.board.has_king(other, m.to));
        assert(!p.board.has_king(side, m.to));
        assert(BoardView::arriving(piece, m).piece_type == PieceType::King ==> piece.piece_type
            == PieceType::King);
        assert forall|s: Side, c: (i8, i8)| #[trigger]
            after.board.has_king(s, c) <==> c == after.board.king_location(s) by {
            assert(p.board.has_king(s, c) <==> c == p.board.king_location(s));
            assert(p.board.has_king(s, m.from) <==> m.from == p.board.king_location(s));
        }
        assert(after.en_passant_in_window());
        assert(after.rights_in_place(Side::White)) by {
            assert(p.rights_in_place(Side::White));
        }
        assert(after.rights_in_place(Side::Black)) by {
            assert(p.rights_in_place(Side::Black));
        }
    } else {
        assert(p.castling_move(m));
        assert(p.rights_in_place(other));
        assert(p.board.has_king(side, (rank, 4i8)));
        assert(p.board.king_location(side) == (rank, 4i8));
        if m == king_to_file(side, 6) {
            let corner = (rank, 7i8);
            let rook = p.board.pieces[corner];
            assert(!p.board.has_king(side, corner));
            if p.board.has_king(other, corner) {
                assert(after.board.has_king(other, (rank, 5i8)));
                lemma_king_beside_gives_check(after, side, (rank, 5i8));
            }
            assert(rook.piece_type != PieceType::King);
            assert forall|s: Side, c: (i8, i8)| #[trigger]
                after.board.has_king(s, c) <==> c == after.board.king_location(s) by {
                assert(p.board.has_king(s, c) <==> c == p.board.king_location(s));
            }
        } else {
            let corner = (rank, 0i8);
            let rook = p.board.pieces[corner];
            assert(!p.board.has_king(side, corner));
            if p.board.has_king(other, corner) {
                assert(after.board.has_king(other, (rank, 3i8)));
                lemma_king_beside_gives_check(after, side, (rank, 3i8));
            }
            assert(rook.piece_type != PieceType::King);
            assert forall|s: Side, c: (i8, i8)| #[trigger]
                after.board.has_king(s, c) <==> c == after.board.king_location(s) by {
                assert(p.board.has_king(s, c) <==> c == p.board.king_location(s));
            }
        }
    }
}

/// Legal play from a sound position stays among sound positions.
pub proof fn lemma_legal_play_stays_sound(p: Position, moves: Seq<Move>)
    requires
        p.sound(),
        p.legal_line(moves),
    ensures
        p.after_moves(moves).sound(),
    decreases moves.len(),
{
    if moves.len() > 0 {
        lemma_legal_play_stays_sound(p, moves.drop_last());
        lemma_legal_move_keeps_position_sound(p.after_moves(moves.drop_last()), moves.last());
    }
}

} // verus!
