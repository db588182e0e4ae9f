//! Sides, piece kinds and pieces.

use vstd::prelude::*;
use crate::text::push_char;

verus! {

/// One of the two players.
#[derive(Copy, Clone, Debug, PartialEq, Eq, Hash, Structural)]
pub enum Side {
    White,
    Black,
}

impl Side {
    /// The opponent of `self`.
    pub open spec fn opponent(self) -> Side {
        match self {
            Side::White => Side::Black,
            Side::Black => Side::White,
        }
    }

    /// The one-letter code of the side in a position string.
    pub open spec fn code(self) -> Seq<char> {
        match self {
            Side::White => seq!['w'],
            Side::Black => seq!['b'],
        }
    }

    /// `"w"` for White, `"b"` for Black.
    pub fn to_string(&self) -> (s: String)
        ensures
            s@ == self.code(),
    {
        let mut s = String::new();
        match self {
            Side::White => push_char(&mut s, 'w'),
            Side::Black => push_char(&mut s, 'b'),
        }
        s
    }

    /// The other side.
    pub fn other(&self) -> (r: Side)
        ensures
            r == self.opponent(),
    {
        match self {
            Side::White => Side::Black,
            Side::Black => Side::White,
        }
    }
}

/// Taking the opponent twice gives the side back.
pub proof fn lemma_opponent_is_an_involution(side: Side)
    ensures
        side.opponent().opponent() == side,
        side.opponent() != side,
{
}

/// The six kinds of chess piece.
#[derive(Copy, Clone, Debug, PartialEq, Eq, Hash, Structural)]
pub enum PieceType {
    Pawn,
    Knight,
    Bishop,
    Rook,
    Queen,
    King,
}

impl PieceType {
    /// The lower-case letter that stands for the kind.
    pub open spec fn letter(self) -> char {
        match self {
            PieceType::Pawn => 'p',
            PieceType::Knight => 'n',
            PieceType::Bishop => 'b',
            PieceType::Rook => 'r',
            PieceType::Queen => 'q',
            PieceType::King => 'k',
        }
    }

    /// The upper-case letter that stands for the kind.
    pub open spec fn capital(self) -> char {
        match self {
            PieceType::Pawn => 'P',
            PieceType::Knight => 'N',
            PieceType::Bishop => 'B',
            PieceType::Rook => 'R',
            PieceType::Queen => 'Q',
            PieceType::King => 'K',
        }
    }

    /// The lower-case letter of the kind.
    pub fn to_char(&self) -> (c: char)
        ensures
            c == self.letter(),
    {
        match self {
            PieceType::Pawn => 'p',
            PieceType::Knight => 'n',
            PieceType::Bishop => 'b',
            PieceType::Rook => 'r',
            PieceType::Queen => 'q',
            PieceType::King => 'k',
        }
    }
}

/// A piece: a kind that belongs to a side.
#[derive(Copy, Clone, Debug, PartialEq, Eq, Hash, Structural)]
pub struct Piece {
    pub side: Side,
    pub piece_type: PieceType,
}

impl Piece {
    /// The character that shows the piece in a grid: the kind's letter,
    /// lower case for White and upper case for Black.
    pub open spec fn glyph(self) -> char {
        match self.side {
            Side::White => self.piece_type.letter(),
            Side::Black => self.piece_type.capital(),
        }
    }

    /// The character that shows the piece in a grid.
    pub fn to_char(&self) -> (c: char)
        ensures
            c == self.glyph(),
    {
        match self.side {
            Side::White => self.piece_type.to_char(),
            Side::Black => match self.piece_type {
                PieceType::Pawn => 'P',
                PieceType::Knight => 'N',
                PieceType::Bishop => 'B',
                PieceType::Rook => 'R',
                PieceType::Queen => 'Q',
                PieceType::King => 'K',
            },
        }
    }
}

/// The upper-case letter of a kind is the upper case of its lower-case
/// letter, no two pieces share a glyph, and no glyph is a space.
pub proof fn lemma_glyphs_are_distinct(a: Piece, b: Piece)
    ensures
        a.piece_type.capital() as int == a.piece_type.letter() as int - 32,
        a.glyph() == b.glyph() <==> a == b,
        a.glyph() != ' ',
{
}

} // verus!
