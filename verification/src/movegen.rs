//! Generation of pseudo-legal moves.

use vstd::prelude::*;
use vstd::seq_lib::{lemma_no_dup_in_concat, lemma_seq_concat_contains_all_elements};
use crate::board::Board;
use crate::game::GameState;
use crate::moves::Move;
use crate::pieces::{Piece, PieceType, Side};
use crate::rules::{all_directions, diagonals, is_direction, knight_leaps,
    lemma_directions_apart, lemma_offset, lemma_steps_differ, offset, promotion_kinds, promotions,
    rays_apart, step, straights};
use crate::squares::on_board;

verus! {

/// The promoting moves between two squares are the moves between them that
/// promote to a knight, a bishop, a rook or a queen, each once.
proof fn lemma_promotions(from: (i8, i8), to: (i8, i8))
    ensures
        promotions(from, to).no_duplicates(),
        forall|m: Move|
            promotions(from, to).contains(m) <==> m.from == from && m.to == to && (m.promo
                matches Some(kind) && (kind == PieceType::Knight || kind == PieceType::Bishop
                || kind == PieceType::Rook || kind == PieceType::Queen)),
{
    let all = promotions(from, to);
    assert forall|m: Move|
        m.from == from && m.to == to && (m.promo matches Some(kind) && (kind == PieceType::Knight
            || kind == PieceType::Bishop || kind == PieceType::Rook || kind
            == PieceType::Queen)) implies all.contains(m) by {
        let kind = m.promo->0;
        let i: int = if kind == PieceType::Knight {
            0
        } else if kind == PieceType::Bishop {
            1
        } else if kind == PieceType::Rook {
            2
        } else {
            3
        };
        assert(all[i] == m);
    }
}

/// Appends the four promoting moves from `from` to `to`.
fn push_promotions(moves: &mut Vec<Move>, from: (i8, i8), to: (i8, i8))
    ensures
        final(moves)@ == old(moves)@ + promotions(from, to),
{
    let kinds = [PieceType::Knight, PieceType::Bishop, PieceType::Rook, PieceType::Queen];
    let mut i: usize = 0;
    while i < 4
        invariant
            i <= 4,
            kinds@ == promotion_kinds(),
            moves@ == old(moves)@ + promotions(from, to).subrange(0, i as int),
        decreases 4 - i,
    {
        moves.push(Move::new_with_promo(from, to, kinds[i]));
        i += 1;
    }
    assert(promotions(from, to).subrange(0, 4) == promotions(from, to));
}

/// Whether `m` is one of `moves`.
pub(crate) fn contains_move(moves: &Vec<Move>, m: Move) -> (found: bool)
    ensures
        found == moves@.contains(m),
{
    let mut i: usize = 0;
    while i < moves.len()
        invariant
            i <= moves.len(),
            forall|j: int| 0 <= j < i ==> moves@[j] != m,
        decreases moves.len() - i,
    {
        if moves[i] == m {
            return true;
        }
        i += 1;
    }
    false
}

impl GameState {
    /// The moves of the piece on `origin` in one direction, nearest first:
    /// over empty squares up to `max_distance` steps, ending before a piece
    /// of the same side, on a piece of the other side, or at the edge.
    fn get_possible_moves_in_direction(
        &self,
        origin: (i8, i8),
        direction: (i8, i8),
        max_distance: i8,
    ) -> (moves: Vec<Move>)
        requires
            on_board(origin),
            is_direction(direction),
            1 <= max_distance <= 7,
        ensures
            self@.board.piece_at(origin) is None ==> moves@.len() == 0,
            self@.board.piece_at(origin) matches Some(piece) ==> {
                &&& moves@.len() <= max_distance
                &&& forall|j: int|
                    0 <= j < moves@.len() ==> #[trigger] moves@[j] == (Move {
                        from: origin,
                        to: step(origin, direction, j + 1),
                        promo: None,
                    }) && self@.board.slide(piece.side, origin, direction, j + 1)
                &&& forall|k: int|
                    moves@.len() < k <= max_distance ==> !#[trigger] self@.board.slide(
                        piece.side,
                        origin,
                        direction,
                        k,
                    )
            },
    {
        let mut moves: Vec<Move> = Vec::new();
        match self.board.piece_at(origin) {
            None => (),
            Some(piece) => {
                let mut distance: i8 = 1;
                let mut blocked = false;
                while distance <= max_distance && !blocked
                    invariant
                        on_board(origin),
                        is_direction(direction),
                        1 <= max_distance <= 7,
                        self@.board.piece_at(origin) == Some(piece),
                        1 <= distance <= max_distance + 1,
                        moves@.len() <= max_distance,
                        blocked ==> distance <= max_distance,
                        !blocked ==> moves@.len() == distance - 1 && self@.board.path_free(
                            origin,
                            direction,
                            distance as int,
                        ),
                        forall|j: int|
                            0 <= j < moves@.len() ==> #[trigger] moves@[j] == (Move {
                                from: origin,
                                to: step(origin, direction, j + 1),
                                promo: None,
                            }) && self@.board.slide(piece.side, origin, direction, j + 1),
                        blocked ==> forall|k: int|
                            moves@.len() < k <= max_distance ==> !#[trigger] self@.board.slide(
                                piece.side,
                                origin,
                                direction,
                                k,
                            ),
                    decreases
                            (if blocked {
                                0
                            } else {
                                max_distance + 1 - distance
                            }),
                {
                    proof {
                        lemma_offset(direction, distance as int);
                    }
                    let destination = (
                        origin.0 + direction.0 * distance,
                        origin.1 + direction.1 * distance,
                    );
                    assert(destination == step(origin, direction, distance as int));
                    let ghost reached: int = moves@.len() as int;
                    if !Board::within_bounds(destination) {
                        blocked = true;
                    } else {
                        match self.board.piece_at(destination) {
                            None => {
                                moves.push(Move::new(origin, destination));
                                distance += 1;
                            },
                            Some(other_piece) => {
                                if piece.side != other_piece.side {
                                    moves.push(Move::new(origin, destination));
                                }
                                blocked = true;
                            },
                        }
                    }
                    proof {
                        if blocked {
                            assert forall|k: int|
                                moves@.len() < k <= max_distance implies !#[trigger] self@.board.slide(
                                piece.side,
                                origin,
                                direction,
                                k,
                            ) by {
                                if k > reached + 1 {
                                    assert(!(on_board(step(origin, direction, reached + 1))
                                        && self@.board.piece_at(
                                        step(origin, direction, reached + 1),
                                    ) is None));
                                }
                            }
                        }
                    }
                }
            },
        }
        moves
    }

    /// The moves of `piece`, which stands on `origin`, along each of the
    /// given directions, up to `max_distance` steps far.
    fn moves_along<const N: usize>(
        &self,
        origin: (i8, i8),
        piece: Piece,
        directions: &[(i8, i8); N],
        max_distance: i8,
    ) -> (moves: Vec<Move>)
        requires
            on_board(origin),
            self@.board.piece_at(origin) == Some(piece),
            1 <= max_distance <= 7,
            forall|i: int| 0 <= i < N ==> is_direction(#[trigger] directions@[i]),
            rays_apart(directions@, max_distance as int),
        ensures
            forall|m: Move|
                moves@.contains(m) <==> m.from == origin && self@.board.on_rays(
                    piece.side,
                    directions@,
                    N as int,
                    max_distance as int,
                    m,
                ),
            moves@.no_duplicates(),
    {
        let mut moves: Vec<Move> = Vec::new();
        let mut i: usize = 0;
        while i < N
            invariant
                i <= N,
                directions@.len() == N,
                on_board(origin),
                self@.board.piece_at(origin) == Some(piece),
                1 <= max_distance <= 7,
                forall|i: int| 0 <= i < N ==> is_direction(#[trigger] directions@[i]),
                rays_apart(directions@, max_distance as int),
                forall|m: Move|
                    moves@.contains(m) <==> m.from == origin && self@.board.on_rays(
                        piece.side,
                        directions@,
                        i as int,
                        max_distance as int,
                        m,
                    ),
                moves@.no_duplicates(),
            decreases N - i,
        {
            let direction = directions[i];
            assert(direction == directions@[i as int]);
            let mut ray = self.get_possible_moves_in_direction(origin, direction, max_distance);
            let ghost before = moves@;
            let ghost found = ray@;
            moves.append(&mut ray);
            proof {
                let board = self@.board;
                let side = piece.side;
                let dirs = directions@;
                let max = max_distance as int;
                assert(moves@ == before + found);
                assert forall|m: Move|
                    moves@.contains(m) <==> m.from == origin && board.on_rays(
                        side,
                        dirs,
                        i + 1,
                        max,
                        m,
                    ) by {
                    lemma_seq_concat_contains_all_elements(before, found, m);
                    if before.contains(m) {
                        assert(board.on_rays(side, dirs, i as int, max, m));
                        let (i0, k0) = choose|i0: int, k0: int|
                            0 <= i0 < i && 1 <= k0 <= max && #[trigger] board.slide(
                                side,
                                m.from,
                                dirs[i0],
                                k0,
                            ) && m.to == step(m.from, dirs[i0], k0);
                        assert(board.slide(side, m.from, dirs[i0], k0));
                    }
                    if found.contains(m) {
                        let j = choose|j: int| 0 <= j < found.len() && found[j] == m;
                        assert(found[j] == m);
                        assert(board.slide(side, m.from, dirs[i as int], j + 1));
                    }
                    if m.from == origin && board.on_rays(side, dirs, i + 1, max, m) {
                        let (i0, k0) = choose|i0: int, k0: int|
                            0 <= i0 < i + 1 && 1 <= k0 <= max && #[trigger] board.slide(
                                side,
                                m.from,
                                dirs[i0],
                                k0,
                            ) && m.to == step(m.from, dirs[i0], k0);
                        if i0 < i {
                            assert(board.on_rays(side, dirs, i as int, max, m));
                        } else {
                            assert(k0 <= found.len());
                            assert(found[k0 - 1] == m);
                        }
                    }
                }
                assert forall|a: int, b: int|
                    0 <= a < before.len() && 0 <= b < found.len() implies before[a] != found[b] by {
                    let m = before[a];
                    assert(before.contains(m));
                    assert(board.on_rays(side, dirs, i as int, max, m));
                    let (i0, k0) = choose|i0: int, k0: int|
                        0 <= i0 < i && 1 <= k0 <= max && #[trigger] board.slide(
                            side,
                            m.from,
                            dirs[i0],
                            k0,
                        ) && m.to == step(m.from, dirs[i0], k0);
                    lemma_offset(dirs[i0], k0);
                    lemma_offset(dirs[i as int], b + 1);
                    assert(offset(dirs[i0], k0) != offset(dirs[i as int], b + 1));
                    assert(found[b].to == step(origin, dirs[i as int], b + 1));
                }
                assert(found.no_duplicates()) by {
                    assert forall|a: int, b: int|
                        0 <= a < found.len() && 0 <= b < found.len() && a != b implies found[a]
                        != found[b] by {
                        lemma_steps_differ(origin, dirs[i as int], a + 1, b + 1);
                        assert(found[a].to == step(origin, dirs[i as int], a + 1));
                        assert(found[b].to == step(origin, dirs[i as int], b + 1));
                    }
                }
                lemma_no_dup_in_concat(before, found);
            }
            i += 1;
        }
        moves
    }
    /// The advances of the pawn `piece` on `current`: one square onto an
    /// empty square, as four promotions where that square lies on the
    /// farthest rank, and two squares from the starting rank.
    fn pawn_advances(&self, current: (i8, i8), piece: Piece) -> (moves: Vec<Move>)
        requires
            on_board(current),
            self@.board.piece_at(current) == Some(piece),
        ensures
            forall|m: Move|
                moves@.contains(m) <==> m.from == current && on_board(m.to) && self@.pawn_advance(
                    piece.side,
                    m,
                ),
            moves@.no_duplicates(),
    {
        let mut moves: Vec<Move> = Vec::new();
        let rank = current.0;
        let file = current.1;
        let direction: i8 = match piece.side {
            Side::White => 1,
            Side::Black => -1,
        };
        let on_initial_rank = match piece.side {
            Side::White => rank == 1,
            Side::Black => rank == 6,
        };
        let one_ahead = (rank + direction, file);
        let two_ahead = (rank + (direction * 2), file);
        let on_seventh = !Board::within_bounds(two_ahead);
        if Board::within_bounds(one_ahead) {
            if let None = self.board.piece_at(one_ahead) {
                if on_seventh {
                    push_promotions(&mut moves, current, one_ahead);
                    proof {
                        lemma_promotions(current, one_ahead);
                        assert(moves@ == promotions(current, one_ahead));
                    }
                } else {
                    moves.push(Move::new(current, one_ahead));
                    if let None = self.board.piece_at(two_ahead) {
                        if on_initial_rank {
                            moves.push(Move::new(current, two_ahead));
                        }
                    }
                }
            }
        }
        proof {
            assert forall|m: Move|
                moves@.contains(m) <==> m.from == current && on_board(m.to) && self@.pawn_advance(
                    piece.side,
                    m,
                ) by {
                if moves@.contains(m) {
                    let j = choose|j: int| 0 <= j < moves@.len() && moves@[j] == m;
                    assert(moves@[j] == m);
                }
                if m.from == current && on_board(m.to) && self@.pawn_advance(piece.side, m) {
                    if m.to.0 == one_ahead.0 {
                        if !on_seventh {
                            assert(moves@[0] == m);
                        }
                    } else {
                        assert(moves@[1] == m);
                    }
                }
            }
        }
        moves
    }

    /// The captures of the pawn `piece` on `current` towards the file
    /// `shift` beside it: onto a piece of the other side, as four promotions
    /// where that lies on the farthest rank, or onto the empty en-passant
    /// square.
    fn pawn_captures(&self, current: (i8, i8), piece: Piece, shift: i8) -> (moves: Vec<Move>)
        requires
            on_board(current),
            self@.board.piece_at(current) == Some(piece),
            shift == 1 || shift == -1,
        ensures
            forall|m: Move|
                moves@.contains(m) <==> m.from == current && on_board(m.to) && m.to.1 == current.1
                    + shift && self@.pawn_capture(piece.side, m),
            moves@.no_duplicates(),
    {
        let mut moves: Vec<Move> = Vec::new();
        let rank = current.0;
        let file = current.1;
        let direction: i8 = match piece.side {
            Side::White => 1,
            Side::Black => -1,
        };
        let on_seventh = !Board::within_bounds((rank + (direction * 2), file));
        let target = (rank + direction, file + shift);
        if Board::within_bounds(target) {
            match self.board.piece_at(target) {
                None => {
                    if let Some(en_passant_square) = self.en_passant_square {
                        if en_passant_square.0 == target.0 && en_passant_square.1 == target.1 {
                            moves.push(Move::new(current, target));
                        }
                    }
                },
                Some(other_piece) => {
                    if piece.side != other_piece.side {
                        if on_seventh {
                            push_promotions(&mut moves, current, target);
                            proof {
                                lemma_promotions(current, target);
                                assert(moves@ == promotions(current, target));
                            }
                        } else {
                            moves.push(Move::new(current, target));
                        }
                    }
                },
            }
        }
        proof {
            assert forall|m: Move|
                moves@.contains(m) <==> m.from == current && on_board(m.to) && m.to.1 == current.1
                    + shift && self@.pawn_capture(piece.side, m) by {
                if moves@.contains(m) {
                    let j = choose|j: int| 0 <= j < moves@.len() && moves@[j] == m;
                    assert(moves@[j] == m);
                }
                if m.from == current && on_board(m.to) && m.to.1 == current.1 + shift
                    && self@.pawn_capture(piece.side, m) {
                    assert(m.to == target);
                    if !(self@.board.occupied_by(piece.side.opponent(), target) && on_seventh) {
                        assert(moves@[0] == m);
                    }
                }
            }
        }
        moves
    }

    /// The pseudo-legal moves of the piece on `current`: the moves that its
    /// kind allows on this board, whether or not they leave its king in
    /// check. Each stands once in the result, and an empty square has none.
    pub fn get_possible_moves_from(&self, current: (i8, i8)) -> (moves: Vec<Move>)
        requires
            on_board(current),
        ensures
            forall|m: Move| moves@.contains(m) <==> m.from == current && self@.pseudo_legal(m),
            moves@.no_duplicates(),
    {
        let mut moves: Vec<Move> = Vec::new();
        match self.board.piece_at(current) {
            None => (),
            Some(piece) => {
                proof {
                    lemma_directions_apart(piece.piece_type);
                }
                match piece.piece_type {
                    PieceType::Pawn => {
                        moves = self.pawn_advances(current, piece);
                        let mut left = self.pawn_captures(current, piece, -1);
                        let mut right = self.pawn_captures(current, piece, 1);
                        let ghost ahead = moves@;
                        let ghost leftward = left@;
                        let ghost rightward = right@;
                        moves.append(&mut left);
                        moves.append(&mut right);
                        proof {
                            assert forall|m: Move|
                                moves@.contains(m) <==> m.from == current && self@.pseudo_legal(
                                    m,
                                ) by {
                                lemma_seq_concat_contains_all_elements(ahead, leftward, m);
                                lemma_seq_concat_contains_all_elements(
                                    ahead + leftward,
                                    rightward,
                                    m,
                                );
                            }
                            assert forall|a: int, b: int|
                                0 <= a < ahead.len() && 0 <= b < leftward.len() implies ahead[a]
                                != leftward[b] by {
                                assert(ahead.contains(ahead[a]));
                                assert(leftward.contains(leftward[b]));
                            }
                            lemma_no_dup_in_concat(ahead, leftward);
                            assert forall|a: int, b: int|
                                0 <= a < (ahead + leftward).len() && 0 <= b
                                    < rightward.len() implies (ahead + leftward)[a]
                                != rightward[b] by {
                                lemma_seq_concat_contains_all_elements(
                                    ahead,
                                    leftward,
                                    (ahead + leftward)[a],
                                );
                                assert((ahead + leftward).contains((ahead + leftward)[a]));
                                assert(rightward.contains(rightward[b]));
                            }
                            lemma_no_dup_in_concat(ahead + leftward, rightward);
                        }
                    },
                    PieceType::Knight => {
                        let directions: [(i8, i8); 8] = [
                            (2, 1),
                            (2, -1),
                            (1, 2),
                            (1, -2),
                            (-1, 2),
                            (-1, -2),
                            (-2, 1),
                            (-2, -1),
                        ];
                        assert(directions@ =~= knight_leaps());
                        moves = self.moves_along(current, piece, &directions, 1);
                    },
                    PieceType::Bishop => {
                        let directions: [(i8, i8); 4] = [(1, 1), (1, -1), (-1, 1), (-1, -1)];
                        assert(directions@ =~= diagonals());
                        moves = self.moves_along(current, piece, &directions, 7);
                    },
                    PieceType::Rook => {
                        let directions: [(i8, i8); 4] = [(1, 0), (-1, 0), (0, 1), (0, -1)];
                        assert(directions@ =~= straights());
                        moves = self.moves_along(current, piece, &directions, 7);
                    },
                    PieceType::Queen => {
                        let directions: [(i8, i8); 8] = [
                            (1, 1),
                            (1, -1),
                            (-1, 1),
                            (-1, -1),
                            (1, 0),
                            (-1, 0),
                            (0, 1),
                            (0, -1),
                        ];
                        assert(directions@ =~= all_directions());
                        moves = self.moves_along(current, piece, &directions, 7);
                    },
                    PieceType::King => {
                        let directions: [(i8, i8); 8] = [
                            (1, 1),
                            (1, -1),
                            (-1, 1),
                            (-1, -1),
                            (1, 0),
                            (-1, 0),
                            (0, 1),
                            (0, -1),
                        ];
                        assert(directions@ =~= all_directions());
                        moves = self.moves_along(current, piece, &directions, 1);
                    },
                }
            },
        }
        moves
    }

    /// Whether `candidate` is a pseudo-legal move: one that the piece on
    /// its origin can make on this board, whichever side is to move and
    /// whether or not it leaves its king in check. An origin that is off the
    /// board or empty gives `false`.
    pub fn move_is_pseudo_legal(&self, candidate: Move) -> (r: bool)
        ensures
            r == self@.pseudo_legal(candidate),
    {
        if !Board::within_bounds(candidate.from) {
            return false;
        }
        match self.board.piece_at(candidate.from) {
            None => false,
            Some(_p) => {
                let moves = self.get_possible_moves_from(candidate.from);
                contains_move(&moves, candidate)
            },
        }
    }
}

} // verus!
