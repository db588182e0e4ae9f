//! Moves and their text form.

use vstd::prelude::*;
use vstd::std_specs::cmp::PartialEqSpecImpl;
use crate::board::Board;
use crate::pieces::PieceType;
use crate::squares::{names_a_square, on_board, square_name, square_of,
    lemma_square_of_name_of_square};
use crate::text::push_char;

verus! {

/// A move: origin, destination and, for a pawn that reaches the farthest
/// rank, the kind it is promoted to.
#[derive(Clone, Copy, Debug)]
pub struct Move {
    pub from: (i8, i8),
    pub to: (i8, i8),
    pub promo: Option<PieceType>,
}

impl PartialEq for Move {
    fn eq(&self, other: &Move) -> (r: bool) {
        self.from.0 == other.from.0 && self.from.1 == other.from.1 && self.to.0 == other.to.0
            && self.to.1 == other.to.1 && self.promo == other.promo
    }
}

impl PartialEqSpecImpl for Move {
    open spec fn obeys_eq_spec() -> bool {
        true
    }

    open spec fn eq_spec(&self, other: &Move) -> bool {
        *self == *other
    }
}

/// The character is the letter of a kind of piece.
pub open spec fn is_kind_letter(c: char) -> bool {
    c == 'p' || c == 'n' || c == 'b' || c == 'r' || c == 'q' || c == 'k'
}

/// The text is a move in notation: the names of two squares of the board
/// with a dash between them and, at most, `=` and the letter of a kind
/// behind them.
pub open spec fn names_a_move(text: Seq<char>) -> bool {
    &&& text.len() == 5 || (text.len() == 7 && text[5] == '=' && is_kind_letter(text[6]))
    &&& names_a_square(text.subrange(0, 2))
    &&& text[2] == '-'
    &&& names_a_square(text.subrange(3, 5))
}

/// The move that a text stands for. A promotion suffix is not read.
pub open spec fn move_of_text(text: Seq<char>) -> Move {
    Move { from: square_of(text.subrange(0, 2)), to: square_of(text.subrange(3, 5)), promo: None }
}

impl Move {
    /// The text of the move: `<from>-<to>`, followed by `=` and the letter
    /// of the kind where the move promotes.
    pub open spec fn text(self) -> Seq<char> {
        square_name(self.from) + seq!['-'] + square_name(self.to) + match self.promo {
            Some(kind) => seq!['=', kind.letter()],
            None => Seq::<char>::empty(),
        }
    }

    /// A move without promotion.
    pub fn new(from: (i8, i8), to: (i8, i8)) -> (m: Move)
        ensures
            m == (Move { from, to, promo: None }),
    {
        Move { from, to, promo: None }
    }

    /// A move that promotes to `promo`.
    pub fn new_with_promo(from: (i8, i8), to: (i8, i8), promo: PieceType) -> (m: Move)
        ensures
            m == (Move { from, to, promo: Some(promo) }),
    {
        Move { from, to, promo: Some(promo) }
    }

    /// Reads a move from its text, which must be a move in notation. The
    /// promotion suffix, if any, is not read: the result never promotes.
    /// Text that may not be a move in notation is for `from_str_checked`.
    pub fn from_str(string: &str) -> (m: Move)
        requires
            names_a_move(string@),
        ensures
            m == move_of_text(string@),
            on_board(m.from),
            on_board(m.to),
    {
        let from = Board::coordinates_from_name(string.substring_char(0, 2));
        let to = Board::coordinates_from_name(string.substring_char(3, 5));
        Move { from, to, promo: None }
    }

    /// Reads a move from its text, as `from_str` does, or gives none where
    /// the text is not a move in notation.
    pub fn from_str_checked(string: &str) -> (m: Option<Move>)
        ensures
            m is Some <==> names_a_move(string@),
            m matches Some(read) ==> read == move_of_text(string@) && on_board(read.from)
                && on_board(read.to),
    {
        let length = string.unicode_len();
        if length != 5 && length != 7 {
            return None;
        }
        if length == 7 {
            let letter = string.get_char(6);
            if string.get_char(5) != '=' || !(letter == 'p' || letter == 'n' || letter == 'b'
                || letter == 'r' || letter == 'q' || letter == 'k') {
                return None;
            }
        }
        if string.get_char(2) != '-' {
            return None;
        }
        let from = Board::coordinates_from_name_checked(string.substring_char(0, 2));
        let to = Board::coordinates_from_name_checked(string.substring_char(3, 5));
        match (from, to) {
            (Some(from), Some(to)) => Some(Move { from, to, promo: None }),
            _ => None,
        }
    }

    /// Writes the move as text.
    pub fn to_string(&self) -> (s: String)
        requires
            on_board(self.from),
            on_board(self.to),
        ensures
            s@ == self.text(),
    {
        let mut s = Board::name_from_coordinates(self.from);
        push_char(&mut s, '-');
        let to = Board::name_from_coordinates(self.to);
        s.append(to.as_str());
        match self.promo {
            Some(promo_type) => {
                push_char(&mut s, '=');
                push_char(&mut s, promo_type.to_char());
            },
            None => {},
        }
        assert(s@ =~= self.text());
        s
    }
}

/// The text of a move on the board can be read, and reading it gives the
/// move back without its promotion: a move that does not promote is read back
/// whole.
pub proof fn lemma_move_text_reads_back(m: Move)
    requires
        on_board(m.from),
        on_board(m.to),
    ensures
        names_a_move(m.text()),
        move_of_text(m.text()) == (Move { from: m.from, to: m.to, promo: None }),
        m.promo is None ==> move_of_text(m.text()) == m,
{
    lemma_square_of_name_of_square(m.from);
    lemma_square_of_name_of_square(m.to);
    assert(m.text().subrange(0, 2) =~= square_name(m.from));
    assert(m.text().subrange(3, 5) =~= square_name(m.to));
}

} // verus!
