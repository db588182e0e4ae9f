//! Squares and their names.
//!
//! A square is a pair `(rank, file)` of zero-based indices; its name is the
//! file letter `a`..`h` followed by the rank digit `1`..`8`.

use vstd::prelude::*;
use crate::board::Board;
use crate::text::push_char;

verus! {

/// Both components of `c` lie in `0..8`.
pub open spec fn on_board(c: (i8, i8)) -> bool {
    0 <= c.0 < 8 && 0 <= c.1 < 8
}

/// `c` is one of the 128 characters of ASCII.
pub open spec fn is_ascii_char(c: char) -> bool {
    (c as int) < 128
}

/// The text can be read as a square: it has two leading ASCII characters.
pub open spec fn is_square_text(name: Seq<char>) -> bool {
    name.len() >= 2 && is_ascii_char(name[0]) && is_ascii_char(name[1])
}

/// The text starts with a file letter `a`..`h` and a rank digit `1`..`8`.
pub open spec fn starts_with_square(name: Seq<char>) -> bool {
    name.len() >= 2 && 'a' <= name[0] && name[0] <= 'h' && '1' <= name[1] && name[1] <= '8'
}

/// The text is the name of a square of the board.
pub open spec fn names_a_square(name: Seq<char>) -> bool {
    name.len() == 2 && starts_with_square(name)
}

/// The file that the first character stands for: `a` is 0.
pub open spec fn file_of(name: Seq<char>) -> int {
    name[0] as int - 97
}

/// The rank that the second character stands for: `1` is 0.
pub open spec fn rank_of(name: Seq<char>) -> int {
    name[1] as int - 49
}

/// The square that the first two characters stand for.
pub open spec fn square_of(name: Seq<char>) -> (i8, i8) {
    (rank_of(name) as i8, file_of(name) as i8)
}

/// The letter of a file.
pub open spec fn file_letter(file: int) -> char {
    ((file + 97) as u8) as char
}

/// The digit of a rank.
pub open spec fn rank_digit(rank: int) -> char {
    ((rank + 49) as u8) as char
}

/// The name of a square.
pub open spec fn square_name(c: (i8, i8)) -> Seq<char> {
    seq![file_letter(c.1 as int), rank_digit(c.0 as int)]
}

/// Reading the name of a square and writing it again gives the same text.
pub proof fn lemma_name_of_square_of_name(name: Seq<char>)
    requires
        names_a_square(name),
    ensures
        on_board(square_of(name)),
        square_name(square_of(name)) == name,
{
    assert(square_name(square_of(name)) =~= name);
}

/// Writing the name of a square and reading it again gives the same square.
pub proof fn lemma_square_of_name_of_square(c: (i8, i8))
    requires
        on_board(c),
    ensures
        names_a_square(square_name(c)),
        square_of(square_name(c)) == c,
{
}

impl Board {
    /// The file of a square name: the first character, counted from `a`.
    pub fn extract_file_from_name(square_name: &str) -> (file: i8)
        requires
            square_name@.len() >= 1,
            is_ascii_char(square_name@[0]),
        ensures
            file == file_of(square_name@),
    {
        let letter = square_name.get_char(0) as u8;
        (letter as i8) - 97
    }

    /// The rank of a square name: the second character, counted from `1`.
    pub fn extract_rank_from_name(square_name: &str) -> (rank: i8)
        requires
            square_name@.len() >= 2,
            is_ascii_char(square_name@[1]),
        ensures
            rank == rank_of(square_name@),
    {
        let digit = square_name.get_char(1) as u8;
        (digit as i8) - 48 - 1
    }

    /// The square that a name stands for. The result lies on the board
    /// exactly when the name starts with a file letter and a rank digit.
    pub fn coordinates_from_name(square_name: &str) -> (c: (i8, i8))
        requires
            is_square_text(square_name@),
        ensures
            c == square_of(square_name@),
            c.0 == rank_of(square_name@),
            c.1 == file_of(square_name@),
            on_board(c) <==> starts_with_square(square_name@),
    {
        (Board::extract_rank_from_name(square_name), Board::extract_file_from_name(square_name))
    }

    /// The square that a name stands for, or none where the text is not the
    /// name of a square of the board.
    pub fn coordinates_from_name_checked(square_name: &str) -> (c: Option<(i8, i8)>)
        ensures
            c is Some <==> names_a_square(square_name@),
            c matches Some(square) ==> square == square_of(square_name@) && on_board(square),
    {
        if square_name.unicode_len() != 2 {
            return None;
        }
        let letter = square_name.get_char(0);
        let digit = square_name.get_char(1);
        if 'a' <= letter && letter <= 'h' && '1' <= digit && digit <= '8' {
            Some(Board::coordinates_from_name(square_name))
        } else {
            None
        }
    }

    /// The name of a square of the board.
    pub fn name_from_coordinates(coordinates: (i8, i8)) -> (name: String)
        requires
            on_board(coordinates),
        ensures
            name@ == square_name(coordinates),
    {
        let mut name = String::new();
        push_char(&mut name, ((coordinates.1 as u8) + 97) as char);
        push_char(&mut name, ((coordinates.0 as u8) + 49) as char);
        name
    }

    /// Whether both components lie in `0..8`.
    pub fn within_bounds(coordinates: (i8, i8)) -> (r: bool)
        ensures
            r == on_board(coordinates),
    {
        coordinates.0 >= 0 && coordinates.0 < 8 && coordinates.1 >= 0 && coordinates.1 < 8
    }
}

} // verus!
