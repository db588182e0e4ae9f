//! Check, castling and legal moves.

use vstd::prelude::*;
use vstd::seq_lib::{lemma_no_dup_in_concat, lemma_seq_concat_contains_all_elements};
use crate::board::Board;
use crate::game::GameState;
use crate::movegen::contains_move;
use crate::moves::Move;
use crate::pieces::{PieceType, Side};
use crate::rules::{home_rank, king_to_file, lemma_legal_move_leaves_mover_safe};
use crate::soundness::lemma_king_moves_one_step;

verus! {

/// Asking twice gives the same answer: whether a side is in check, mated
/// or stalemated depends on the position alone, and asking changes no
/// state, so two states that hold the same position answer alike.
pub proof fn lemma_answers_depend_on_the_position_alone(a: GameState, b: GameState, side: Side)
    requires
        a@ == b@,
    ensures
        a@.in_check(side) == b@.in_check(side),
        a@.checkmate(side) == b@.checkmate(side),
        a@.stalemate() == b@.stalemate(),
{
}

impl GameState {
    /// The pseudo-legal moves of the side to move: those of each of its
    /// pieces, each move once, in no particular order.
    pub fn get_possible_moves(&self) -> (moves: Vec<Move>)
        requires
            self.board.wf(),
        ensures
            forall|m: Move| moves@.contains(m) <==> self@.possible(m),
            moves@.no_duplicates(),
    {
        let mut moves: Vec<Move> = Vec::new();
        let origin_squares = self.board.occupied_squares(self.side_to_move);
        let mut i: usize = 0;
        proof {
            self.board.lemma_view_wf();
        }
        while i < origin_squares.len()
            invariant
                i <= origin_squares.len(),
                self@.board.wf(),
                origin_squares@.no_duplicates(),
                forall|c: (i8, i8)|
                    origin_squares@.contains(c) <==> self@.board.occupied_by(self.side_to_move, c),
                forall|m: Move|
                    moves@.contains(m) <==> self@.pseudo_legal(m) && exists|j: int|
                        0 <= j < i && origin_squares@[j] == m.from,
                moves@.no_duplicates(),
            decreases origin_squares.len() - i,
        {
            let origin = origin_squares[i];
            assert(origin_squares@.contains(origin));
            let mut found = self.get_possible_moves_from(origin);
            let ghost before = moves@;
            let ghost new = found@;
            moves.append(&mut found);
            proof {
                assert forall|m: Move|
                    moves@.contains(m) <==> self@.pseudo_legal(m) && exists|j: int|
                        0 <= j < i + 1 && origin_squares@[j] == m.from by {
                    lemma_seq_concat_contains_all_elements(before, new, m);
                    if before.contains(m) {
                        let j = choose|j: int| 0 <= j < i && origin_squares@[j] == m.from;
                        assert(origin_squares@[j] == m.from);
                    }
                    if new.contains(m) {
                        assert(origin_squares@[i as int] == m.from);
                    }
                }
                assert forall|a: int, b: int|
                    0 <= a < before.len() && 0 <= b < new.len() implies before[a] != new[b] by {
                    assert(before.contains(before[a]));
                    assert(new.contains(new[b]));
                }
                lemma_no_dup_in_concat(before, new);
            }
            i += 1;
        }
        proof {
            assert forall|m: Move| moves@.contains(m) <==> self@.possible(m) by {
                if self@.possible(m) {
                    assert(origin_squares@.contains(m.from));
                    let j = choose|j: int|
                        0 <= j < origin_squares@.len() && origin_squares@[j] == m.from;
                    assert(origin_squares@[j] == m.from);
                }
                if moves@.contains(m) {
                    let j = choose|j: int| 0 <= j < i && origin_squares@[j] == m.from;
                    assert(origin_squares@.contains(origin_squares@[j]));
                }
            }
        }
        moves
    }

    /// Whether `side` is in check: whether some pseudo-legal move of the
    /// other side lands on the location of its king.
    pub fn is_in_check(&self, side: Side) -> (r: bool)
        requires
            self.board.wf(),
        ensures
            r == self@.in_check(side),
    {
        let attackers = self.board.occupied_squares(Side::other(&side));
        let king = self.board.king_location(side);
        proof {
            self.board.lemma_view_wf();
        }
        let mut i: usize = 0;
        while i < attackers.len()
            invariant
                i <= attackers.len(),
                self@.board.wf(),
                king == self@.board.king_location(side),
                forall|c: (i8, i8)|
                    attackers@.contains(c) <==> self@.board.occupied_by(side.opponent(), c),
                forall|m: Move, j: int|
                    0 <= j < i && #[trigger] self@.threatens(m, side) ==> m.from
                        != #[trigger] attackers@[j],
            decreases attackers.len() - i,
        {
            let square = attackers[i];
            assert(attackers@.contains(square));
            let moves = self.get_possible_moves_from(square);
            let mut k: usize = 0;
            while k < moves.len()
                invariant
                    k <= moves.len(),
                    king == self@.board.king_location(side),
                    self@.board.occupied_by(side.opponent(), square),
                    forall|m: Move| moves@.contains(m) <==> m.from == square && self@.pseudo_legal(m),
                    forall|n: int| 0 <= n < k ==> moves@[n].to != king,
                decreases moves.len() - k,
            {
                let m = moves[k];
                if m.to.0 == king.0 && m.to.1 == king.1 {
                    proof {
                        assert(moves@.contains(m));
                        assert(self@.threatens(m, side));
                    }
                    return true;
                }
                k += 1;
            }
            proof {
                assert forall|m: Move, j: int|
                    0 <= j < i + 1 && #[trigger] self@.threatens(m, side) implies m.from
                    != #[trigger] attackers@[j] by {
                    if j == i && m.from == attackers@[j] {
                        assert(moves@.contains(m));
                        let n = choose|n: int| 0 <= n < moves@.len() && moves@[n] == m;
                        assert(moves@[n].to != king);
                    }
                }
            }
            i += 1;
        }
        proof {
            assert forall|m: Move| !#[trigger] self@.threatens(m, side) by {
                if self@.threatens(m, side) {
                    assert(attackers@.contains(m.from));
                    let j = choose|j: int| 0 <= j < attackers@.len() && attackers@[j] == m.from;
                    assert(attackers@[j] == m.from);
                }
            }
        }
        false
    }

    /// Whether `m` would leave the side that makes it in check. The move
    /// is made on a copy: this state stays as it is.
    pub fn move_would_put_self_in_check(&self, m: Move) -> (r: bool)
        requires
            self.wf(),
            self@.applicable(m),
        ensures
            r == self@.leaves_mover_in_check(m),
    {
        let side_making_move = self.board.piece_at(m.from).unwrap().side;
        let hypothetical_board = self.make_move_on_copy(m);
        let check = hypothetical_board.is_in_check(side_making_move);
        check
    }

    /// The castling moves of the side to move: none while it is in check;
    /// otherwise, for each side of the board on which it holds the right,
    /// the king's move by two files, where the squares between king and
    /// corner are empty, a piece stands in the corner, and the king would
    /// be in check neither on the square it crosses nor on the square it
    /// lands on.
    fn get_castling_moves(&self) -> (moves: Vec<Move>)
        requires
            self.wf(),
        ensures
            forall|m: Move| moves@.contains(m) <==> self@.castling_move(m),
            moves@.no_duplicates(),
    {
        let mut moves: Vec<Move> = Vec::new();
        let side = self.side_to_move;
        let rank: i8 = match side {
            Side::White => 0,
            Side::Black => 7,
        };
        let king_initial_square = (rank, 4i8);
        let (kingside, queenside) = match side {
            Side::White => (
                self.castling_availability.white_can_castle_kingside,
                self.castling_availability.white_can_castle_queenside,
            ),
            Side::Black => (
                self.castling_availability.black_can_castle_kingside,
                self.castling_availability.black_can_castle_queenside,
            ),
        };
        if self.is_in_check(side) {
            return moves;
        }
        if let Some(piece) = self.board.piece_at(king_initial_square) {
            if let PieceType::King = piece.piece_type {
                if piece.side == side {
                    if kingside {
                        let across = Move::new(king_initial_square, (rank, 5));
                        let castle = Move::new(king_initial_square, (rank, 6));
                        if self.board.piece_at((rank, 5)).is_none() && self.board.piece_at(
                            (rank, 6),
                        ).is_none() && self.board.piece_at((rank, 7)).is_some()
                            && !self.move_would_put_self_in_check(across)
                            && !self.move_would_put_self_in_check(castle) {
                            moves.push(castle);
                        }
                    }
                    if queenside {
                        let across = Move::new(king_initial_square, (rank, 3));
                        let castle = Move::new(king_initial_square, (rank, 2));
                        if self.board.piece_at((rank, 3)).is_none() && self.board.piece_at(
                            (rank, 2),
                        ).is_none() && self.board.piece_at((rank, 1)).is_none()
                            && self.board.piece_at((rank, 0)).is_some()
                            && !self.move_would_put_self_in_check(across)
                            && !self.move_would_put_self_in_check(castle) {
                            moves.push(castle);
                        }
                    }
                }
            }
        }
        proof {
            assert(rank == home_rank(side));
            assert forall|m: Move| moves@.contains(m) <==> self@.castling_move(m) by {
                if moves@.contains(m) {
                    let j = choose|j: int| 0 <= j < moves@.len() && moves@[j] == m;
                    assert(moves@[j] == m);
                }
                if self@.castling_move(m) {
                    if m == king_to_file(side, 6) {
                        assert(moves@[0] == m);
                    } else {
                        assert(moves@[moves@.len() - 1] == m);
                    }
                }
            }
        }
        moves
    }

    /// The legal moves of the side to move, each once, in no particular
    /// order: its pseudo-legal moves that can be applied and do not leave
    /// it in check, and its castling moves.
    pub fn get_legal_moves(&self) -> (moves: Vec<Move>)
        requires
            self.wf(),
        ensures
            forall|m: Move| moves@.contains(m) <==> self@.legal(m),
            moves@.no_duplicates(),
            forall|m: Move|
                moves@.contains(m) ==> !self@.after_move(m).in_check(self.side_to_move),
    {
        let mut moves: Vec<Move> = Vec::new();
        let candidates = self.get_possible_moves();
        let mut i: usize = 0;
        while i < candidates.len()
            invariant
                i <= candidates.len(),
                self.wf(),
                forall|m: Move| candidates@.contains(m) <==> self@.possible(m),
                candidates@.no_duplicates(),
                forall|m: Move|
                    moves@.contains(m) <==> self@.applicable(m) && !self@.leaves_mover_in_check(m)
                        && exists|j: int| 0 <= j < i && candidates@[j] == m,
                moves@.no_duplicates(),
            decreases candidates.len() - i,
        {
            let candidate = candidates[i];
            assert(candidates@.contains(candidate));
            let ghost before = moves@;
            if self.move_can_be_applied(candidate) {
                if !self.move_would_put_self_in_check(candidate) {
                    moves.push(candidate);
                }
            }
            proof {
                assert forall|m: Move|
                    moves@.contains(m) <==> self@.applicable(m) && !self@.leaves_mover_in_check(m)
                        && exists|j: int| 0 <= j < i + 1 && candidates@[j] == m by {
                    if before.contains(m) {
                        let j = choose|j: int| 0 <= j < i && candidates@[j] == m;
                        assert(candidates@[j] == m);
                        let n = choose|n: int| 0 <= n < before.len() && before[n] == m;
                        assert(moves@[n] == m);
                    }
                    if moves@.contains(m) && !before.contains(m) {
                        let n = choose|n: int| 0 <= n < moves@.len() && moves@[n] == m;
                        if n < before.len() {
                            assert(before[n] == m);
                        }
                        assert(m == candidate);
                        assert(candidates@[i as int] == m);
                    }
                    if self@.applicable(m) && !self@.leaves_mover_in_check(m) && exists|j: int|
                        0 <= j < i + 1 && candidates@[j] == m {
                        let j = choose|j: int| 0 <= j < i + 1 && candidates@[j] == m;
                        if j < i {
                            assert(before.contains(m));
                        } else {
                            assert(moves@[moves@.len() - 1] == m);
                        }
                    }
                }
                assert(moves@.no_duplicates()) by {
                    if moves@.len() > before.len() {
                        assert(moves@ == before.push(candidate));
                        if before.contains(candidate) {
                            let j = choose|j: int| 0 <= j < i && candidates@[j] == candidate;
                            assert(candidates@[j] == candidates@[i as int]);
                        }
                        assert forall|a: int, b: int|
                            0 <= a < moves@.len() && 0 <= b < moves@.len() && a
                                != b implies moves@[a] != moves@[b] by {
                            if a < before.len() {
                                assert(before.contains(before[a]));
                            }
                            if b < before.len() {
                                assert(before.contains(before[b]));
                            }
                        }
                    }
                }
            }
            i += 1;
        }
        let mut castling = self.get_castling_moves();
        let ghost plain = moves@;
        let ghost castles = castling@;
        moves.append(&mut castling);
        proof {
            assert forall|m: Move| moves@.contains(m) <==> self@.legal(m) by {
                lemma_seq_concat_contains_all_elements(plain, castles, m);
                if plain.contains(m) {
                    let j = choose|j: int| 0 <= j < i && candidates@[j] == m;
                    assert(candidates@.contains(candidates@[j]));
                }
                if self@.possible(m) && self@.applicable(m) && !self@.leaves_mover_in_check(m) {
                    assert(candidates@.contains(m));
                    let j = choose|j: int| 0 <= j < candidates@.len() && candidates@[j] == m;
                    assert(candidates@[j] == m);
                }
            }
            assert forall|a: int, b: int|
                0 <= a < plain.len() && 0 <= b < castles.len() implies plain[a] != castles[b] by {
                let m = plain[a];
                assert(plain.contains(m));
                assert(castles.contains(castles[b]));
                let j = choose|j: int| 0 <= j < i && candidates@[j] == m;
                assert(candidates@.contains(candidates@[j]));
                if m == castles[b] {
                    lemma_king_moves_one_step(self@, m);
                }
            }
            lemma_no_dup_in_concat(plain, castles);
        }
        moves
    }

    /// Whether `candidate` is a legal move: a pseudo-legal move of the side
    /// to move that does not leave it in check, or one of its castling
    /// moves. An origin that is off the board, empty, or held by the side
    /// that is not to move gives `false`.
    pub fn move_is_legal(&self, candidate: Move) -> (r: bool)
        requires
            self.wf(),
        ensures
            r == self@.legal(candidate),
    {
        proof {
            if self@.legal(candidate) {
                lemma_legal_move_leaves_mover_safe(self@, candidate);
            }
        }
        if !Board::within_bounds(candidate.from) {
            return false;
        }
        match self.board.piece_at(candidate.from) {
            None => false,
            Some(_p) => {
                let moves = self.get_legal_moves();
                contains_move(&moves, candidate)
            },
        }
    }

    /// Whether `side` is checkmated: it is to move, it is in check, and it
    /// has no legal move.
    pub fn is_in_checkmate(&self, side: Side) -> (r: bool)
        requires
            self.wf(),
        ensures
            r == self@.checkmate(side),
    {
        if !(self.side_to_move == side) {
            return false;
        }
        if !self.is_in_check(side) {
            return false;
        }
        let moves = self.get_legal_moves();
        proof {
            if moves@.len() > 0 {
                assert(moves@.contains(moves@[0]));
            }
        }
        moves.is_empty()
    }

    /// Whether the side to move is stalemated: it is not in check and has
    /// no legal move.
    pub fn is_in_stalemate(&self) -> (r: bool)
        requires
            self.wf(),
        ensures
            r == self@.stalemate(),
    {
        if self.is_in_check(self.side_to_move) {
            return false;
        }
        let moves = self.get_legal_moves();
        proof {
            if moves@.len() > 0 {
                assert(moves@.contains(moves@[0]));
            }
        }
        moves.is_empty()
    }
}

} // verus!
