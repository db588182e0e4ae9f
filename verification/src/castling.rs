//! Castling rights.

use vstd::prelude::*;
use crate::pieces::Side;
use crate::text::push_char;

verus! {

/// The four castling rights. A right is lost when a piece leaves the
/// king's starting square or the corner of the right, and is never
/// regained. A rook that is taken in its corner has not left it: the right
/// is then kept until the piece that took it moves on.
#[derive(Clone, Copy, Debug, PartialEq, Eq, Structural)]
pub struct CastlingAvailability {
    pub white_can_castle_kingside: bool,
    pub white_can_castle_queenside: bool,
    pub black_can_castle_kingside: bool,
    pub black_can_castle_queenside: bool,
}

impl CastlingAvailability {
    /// Whether `side` may still castle on the king's side.
    pub open spec fn kingside(self, side: Side) -> bool {
        match side {
            Side::White => self.white_can_castle_kingside,
            Side::Black => self.black_can_castle_kingside,
        }
    }

    /// Whether `side` may still castle on the queen's side.
    pub open spec fn queenside(self, side: Side) -> bool {
        match side {
            Side::White => self.white_can_castle_queenside,
            Side::Black => self.black_can_castle_queenside,
        }
    }

    /// Every right of `self` is a right of `other`.
    pub open spec fn within(self, other: CastlingAvailability) -> bool {
        &&& self.white_can_castle_kingside ==> other.white_can_castle_kingside
        &&& self.white_can_castle_queenside ==> other.white_can_castle_queenside
        &&& self.black_can_castle_kingside ==> other.black_can_castle_kingside
        &&& self.black_can_castle_queenside ==> other.black_can_castle_queenside
    }

    /// The rights that are left after a piece has left the square `from`:
    /// leaving a rook's corner loses the right of that corner, leaving the
    /// king's square loses both rights of that side.
    pub open spec fn after_leaving(self, from: (i8, i8)) -> CastlingAvailability {
        CastlingAvailability {
            white_can_castle_kingside: self.white_can_castle_kingside && from != (0i8, 7i8) && from
                != (0i8, 4i8),
            white_can_castle_queenside: self.white_can_castle_queenside && from != (0i8, 0i8)
                && from != (0i8, 4i8),
            black_can_castle_kingside: self.black_can_castle_kingside && from != (7i8, 7i8) && from
                != (7i8, 4i8),
            black_can_castle_queenside: self.black_can_castle_queenside && from != (7i8, 0i8)
                && from != (7i8, 4i8),
        }
    }

    /// The rights as text: the letters of `KQkq` whose right is held, in
    /// that order, or `-` where none is.
    pub open spec fn code(self) -> Seq<char> {
        let held = (if self.white_can_castle_kingside {
            seq!['K']
        } else {
            Seq::<char>::empty()
        }) + (if self.white_can_castle_queenside {
            seq!['Q']
        } else {
            Seq::<char>::empty()
        }) + (if self.black_can_castle_kingside {
            seq!['k']
        } else {
            Seq::<char>::empty()
        }) + (if self.black_can_castle_queenside {
            seq!['q']
        } else {
            Seq::<char>::empty()
        });
        if held.len() == 0 {
            seq!['-']
        } else {
            held
        }
    }

    /// All four rights.
    pub fn all() -> (rights: CastlingAvailability)
        ensures
            rights == (CastlingAvailability {
                white_can_castle_kingside: true,
                white_can_castle_queenside: true,
                black_can_castle_kingside: true,
                black_can_castle_queenside: true,
            }),
    {
        CastlingAvailability {
            white_can_castle_kingside: true,
            white_can_castle_queenside: true,
            black_can_castle_kingside: true,
            black_can_castle_queenside: true,
        }
    }

    /// No right.
    pub fn none() -> (rights: CastlingAvailability)
        ensures
            rights == (CastlingAvailability {
                white_can_castle_kingside: false,
                white_can_castle_queenside: false,
                black_can_castle_kingside: false,
                black_can_castle_queenside: false,
            }),
    {
        CastlingAvailability {
            white_can_castle_kingside: false,
            white_can_castle_queenside: false,
            black_can_castle_kingside: false,
            black_can_castle_queenside: false,
        }
    }

    /// The rights as text.
    pub fn to_string(&self) -> (s: String)
        ensures
            s@ == self.code(),
    {
        let mut string = String::new();
        let mut empty = true;
        if self.white_can_castle_kingside {
            push_char(&mut string, 'K');
            empty = false;
        }
        if self.white_can_castle_queenside {
            push_char(&mut string, 'Q');
            empty = false;
        }
        if self.black_can_castle_kingside {
            push_char(&mut string, 'k');
            empty = false;
        }
        if self.black_can_castle_queenside {
            push_char(&mut string, 'q');
            empty = false;
        }
        if empty {
            push_char(&mut string, '-');
        }
        assert(string@ =~= self.code());
        string
    }
}

} // verus!
