//! The state of a game and the application of moves.

use vstd::prelude::*;
use crate::board::Board;
use crate::castling::CastlingAvailability;
use crate::moves::Move;
use crate::pieces::{PieceType, Side};
use crate::rules::Position;
use crate::soundness::{lemma_legal_move_keeps_position_sound, lemma_start_is_sound};
use crate::squares::square_name;
use crate::text::push_char;

verus! {

/// The state of a game: the board, the side to move, the castling rights
/// and the square on which a pawn may be taken in passing.
pub struct GameState {
    pub board: Board,
    pub side_to_move: Side,
    pub castling_availability: CastlingAvailability,
    pub en_passant_square: Option<(i8, i8)>,
}

impl View for GameState {
    type V = Position;

    open spec fn view(&self) -> Position {
        Position {
            board: self.board@,
            side_to_move: self.side_to_move,
            castling: self.castling_availability,
            en_passant: self.en_passant_square,
        }
    }
}

impl Position {
    /// The en-passant square as text: its name, or `-` where there is none.
    pub open spec fn en_passant_code(self) -> Seq<char> {
        match self.en_passant {
            None => seq!['-'],
            Some(c) => square_name(c),
        }
    }

    /// The position on one line: the board, the side to move, the castling
    /// rights and the en-passant square, with a space between each two.
    pub open spec fn fen(self) -> Seq<char> {
        self.board.fen() + seq![' '] + self.side_to_move.code() + seq![' '] + self.castling.code()
            + seq![' '] + self.en_passant_code()
    }
}

impl GameState {
    /// The board's index agrees with its grid, and the en-passant square,
    /// if any, lies on the board.
    pub open spec fn wf(&self) -> bool {
        self.board.wf() && self@.wf()
    }

    /// The start of a game: the starting position, White to move, all
    /// castling rights, no en-passant square.
    pub fn new() -> (game: GameState)
        ensures
            game.wf(),
            game@ == Position::start(),
            game@.sound(),
    {
        let game = GameState {
            board: Board::new(),
            side_to_move: Side::White,
            castling_availability: CastlingAvailability::all(),
            en_passant_square: None,
        };
        proof {
            game.board.lemma_view_wf();
            lemma_start_is_sound();
        }
        game
    }

    /// The position on one line.
    pub fn to_fen(&self) -> (fen: String)
        requires
            self@.wf(),
        ensures
            fen@ == self@.fen(),
    {
        let mut fen = self.board.to_fen();
        push_char(&mut fen, ' ');
        let side = self.side_to_move.to_string();
        fen.append(side.as_str());
        push_char(&mut fen, ' ');
        let rights = self.castling_availability.to_string();
        fen.append(rights.as_str());
        push_char(&mut fen, ' ');
        match self.en_passant_square {
            None => {
                push_char(&mut fen, '-');
            },
            Some(sq) => {
                let name = Board::name_from_coordinates(sq);
                fen.append(name.as_str());
            },
        }
        assert(fen@ =~= self@.fen());
        fen
    }

    /// Whether `m` can be applied to this state: whether both squares are
    /// on the board, a piece stands on the origin, a pawn that moves onto
    /// the en-passant square comes from another file, and a king that moves
    /// two files finds a piece in the corner.
    pub fn move_can_be_applied(&self, m: Move) -> (r: bool)
        ensures
            r == self@.applicable(m),
    {
        if !Board::within_bounds(m.from) || !Board::within_bounds(m.to) {
            return false;
        }
        match self.board.piece_at(m.from) {
            None => false,
            Some(piece) => match piece.piece_type {
                PieceType::Pawn => match self.en_passant_square {
                    Some(sq) => !(sq.0 == m.to.0 && sq.1 == m.to.1 && m.to.1 == m.from.1),
                    None => true,
                },
                PieceType::King => {
                    if m.to.1 - m.from.1 == 2 {
                        self.board.piece_at((m.from.0, 7)).is_some()
                    } else if m.to.1 - m.from.1 == -2 {
                        self.board.piece_at((m.from.0, 0)).is_some()
                    } else {
                        true
                    }
                },
                _ => true,
            },
        }
    }

    /// Makes the move `m`. A pawn that moves onto the en-passant square
    /// takes the pawn beside it; a pawn that advances two ranks leaves the
    /// square it skipped as the new en-passant square; a king that moves two
    /// files brings the rook over; leaving a king's or a rook's starting
    /// square loses the castling rights that go with it; then the piece
    /// moves, and the turn passes.
    pub fn make_move(&mut self, m: Move)
        requires
            old(self).wf(),
            old(self)@.applicable(m),
        ensures
            final(self).wf(),
            final(self)@ == old(self)@.after_move(m),
            final(self).castling_availability.within(old(self).castling_availability),
            old(self)@.sound() && old(self)@.legal(m) ==> final(self)@.sound(),
    {
        let piece = self.board.piece_at(m.from).unwrap();
        if let PieceType::Pawn = piece.piece_type {
            if let Some(sq) = self.en_passant_square {
                if sq.0 == m.to.0 && sq.1 == m.to.1 {
                    let pawn_to_remove = (m.from.0, sq.1);
                    self.board.remove_piece(pawn_to_remove);
                }
            }
        }
        assert(self.board@ == old(self)@.board_after_passing(m));
        self.en_passant_square = None;
        if let PieceType::Pawn = piece.piece_type {
            if m.from.0 - m.to.0 == 2 {
                self.en_passant_square = Some((m.from.0 - 1, m.from.1));
            }
            if m.from.0 - m.to.0 == -2 {
                self.en_passant_square = Some((m.from.0 + 1, m.from.1));
            }
        }
        assert(self.en_passant_square == old(self)@.en_passant_after(m));
        if let PieceType::King = piece.piece_type {
            if m.to.1 - m.from.1 == 2 {
                let move_the_rook_to_the_f_file = Move::new((m.from.0, 7), (m.from.0, 5));
                self.board.move_piece(move_the_rook_to_the_f_file);
            }
            if m.to.1 - m.from.1 == -2 {
                let move_the_rook_to_the_d_file = Move::new((m.from.0, 0), (m.from.0, 3));
                self.board.move_piece(move_the_rook_to_the_d_file);
            }
        }
        assert(self.board@ == old(self)@.board_after_rook(m));
        if (m.from.0 == 0 && m.from.1 == 0) || (m.from.0 == 0 && m.from.1 == 4) {
            self.castling_availability.white_can_castle_queenside = false;
        }
        if (m.from.0 == 0 && m.from.1 == 7) || (m.from.0 == 0 && m.from.1 == 4) {
            self.castling_availability.white_can_castle_kingside = false;
        }
        if (m.from.0 == 7 && m.from.1 == 0) || (m.from.0 == 7 && m.from.1 == 4) {
            self.castling_availability.black_can_castle_queenside = false;
        }
        if (m.from.0 == 7 && m.from.1 == 7) || (m.from.0 == 7 && m.from.1 == 4) {
            self.castling_availability.black_can_castle_kingside = false;
        }
        assert(self.castling_availability == old(self).castling_availability.after_leaving(m.from));
        self.board.move_piece(m);
        self.side_to_move = Side::other(&self.side_to_move);
        proof {
            self.board.lemma_view_wf();
            if old(self)@.sound() && old(self)@.legal(m) {
                lemma_legal_move_keeps_position_sound(old(self)@, m);
            }
        }
    }

    /// The state after `m`, on a copy: this state stays as it is.
    pub fn make_move_on_copy(&self, m: Move) -> (next: GameState)
        requires
            self.wf(),
            self@.applicable(m),
        ensures
            next.wf(),
            next@ == self@.after_move(m),
            self@.sound() && self@.legal(m) ==> next@.sound(),
    {
        let mut copy = self.clone();
        copy.make_move(m);
        copy
    }
}

impl Clone for GameState {
    /// A state that holds the same position.
    fn clone(&self) -> (game: GameState)
        ensures
            game@ == self@,
            self.wf() ==> game.wf(),
    {
        GameState {
            board: self.board.clone(),
            side_to_move: self.side_to_move,
            castling_availability: self.castling_availability,
            en_passant_square: self.en_passant_square,
        }
    }
}

} // verus!
