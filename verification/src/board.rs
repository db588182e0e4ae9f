//! The board: an 8x8 grid of squares, an index of the squares that each
//! side occupies, and the cached location of each king.

use vstd::prelude::*;
use crate::moves::Move;
use crate::pieces::{lemma_glyphs_are_distinct, Piece, PieceType, Side};
use crate::squares::{is_square_text, on_board, square_of};
use crate::text::push_char;

verus! {

/// What a board holds, as mathematics: the occupied squares with their
/// pieces, and the two cached king locations.
pub struct BoardView {
    pub pieces: Map<(i8, i8), Piece>,
    pub white_king: (i8, i8),
    pub black_king: (i8, i8),
}

impl BoardView {
    /// Every occupied square lies on the board.
    pub open spec fn wf(self) -> bool {
        forall|c: (i8, i8)| self.pieces.dom().contains(c) ==> on_board(c)
    }

    /// The piece on a square, if any.
    pub open spec fn piece_at(self, c: (i8, i8)) -> Option<Piece> {
        if self.pieces.dom().contains(c) {
            Some(self.pieces[c])
        } else {
            None
        }
    }

    /// The square holds a piece of `side`.
    pub open spec fn occupied_by(self, side: Side, c: (i8, i8)) -> bool {
        self.pieces.dom().contains(c) && self.pieces[c].side == side
    }

    /// The cached location of the king of `side`.
    pub open spec fn king_location(self, side: Side) -> (i8, i8) {
        match side {
            Side::White => self.white_king,
            Side::Black => self.black_king,
        }
    }

    /// The empty board, on which no king has been placed yet.
    pub open spec fn blank() -> BoardView {
        BoardView { pieces: Map::empty(), white_king: (-1i8, -1i8), black_king: (-1i8, -1i8) }
    }

    /// The board after `piece` is put on `c`. A king that is placed moves
    /// the cached location of its side.
    pub open spec fn place(self, piece: Piece, c: (i8, i8)) -> BoardView {
        BoardView {
            pieces: self.pieces.insert(c, piece),
            white_king: if piece.piece_type == PieceType::King && piece.side == Side::White {
                c
            } else {
                self.white_king
            },
            black_king: if piece.piece_type == PieceType::King && piece.side == Side::Black {
                c
            } else {
                self.black_king
            },
        }
    }

    /// The board after the square `c` is cleared.
    pub open spec fn remove(self, c: (i8, i8)) -> BoardView {
        BoardView { pieces: self.pieces.remove(c), ..self }
    }

    /// The piece that arrives when `piece` makes the move `m`: the piece
    /// itself, or its promoted replacement.
    pub open spec fn arriving(piece: Piece, m: Move) -> Piece {
        match m.promo {
            Some(kind) => Piece { side: piece.side, piece_type: kind },
            None => piece,
        }
    }

    /// The board after the piece on `m.from` has moved to `m.to`: the
    /// destination is cleared, the piece (or its promoted replacement) is
    /// placed there, and the origin is cleared.
    pub open spec fn move_piece(self, m: Move) -> BoardView {
        self.remove(m.to).place(Self::arriving(self.pieces[m.from], m), m.to).remove(m.from)
    }

    /// The kind that starts on a file of the back rank.
    pub open spec fn back_rank_kind(file: int) -> PieceType {
        if file == 0 || file == 7 {
            PieceType::Rook
        } else if file == 1 || file == 6 {
            PieceType::Knight
        } else if file == 2 || file == 5 {
            PieceType::Bishop
        } else if file == 3 {
            PieceType::Queen
        } else {
            PieceType::King
        }
    }

    /// The piece that starts on a square of the first two or last two ranks.
    pub open spec fn starting_piece(c: (i8, i8)) -> Piece {
        Piece {
            side: if c.0 <= 1 {
                Side::White
            } else {
                Side::Black
            },
            piece_type: if c.0 == 1 || c.0 == 6 {
                PieceType::Pawn
            } else {
                Self::back_rank_kind(c.1 as int)
            },
        }
    }

    /// The starting position, of which the files below `files` are set up.
    pub open spec fn standard_up_to(files: int) -> BoardView {
        BoardView {
            pieces: Map::new(
                |c: (i8, i8)| on_board(c) && c.1 < files && (c.0 <= 1 || c.0 >= 6),
                |c: (i8, i8)| Self::starting_piece(c),
            ),
            white_king: if files > 4 {
                (0i8, 4i8)
            } else {
                (-1i8, -1i8)
            },
            black_king: if files > 4 {
                (7i8, 4i8)
            } else {
                (-1i8, -1i8)
            },
        }
    }

    /// The starting position of a game.
    pub open spec fn standard() -> BoardView {
        Self::standard_up_to(8)
    }

    /// The character that shows a square in a grid: the glyph of its piece,
    /// or a space.
    pub open spec fn square_char(self, c: (i8, i8)) -> char {
        match self.piece_at(c) {
            Some(piece) => piece.glyph(),
            None => ' ',
        }
    }

    /// The board on one line: rank 1 first, eight characters for each rank
    /// and a `/` after each.
    pub open spec fn fen(self) -> Seq<char> {
        Seq::new(
            72,
            |i: int|
                if i % 9 == 8 {
                    '/'
                } else {
                    self.square_char(((i / 9) as i8, (i % 9) as i8))
                },
        )
    }

    /// The board as a grid: rank 8 first, eight characters for each rank
    /// and a line break after each.
    pub open spec fn grid(self) -> Seq<char> {
        Seq::new(
            72,
            |i: int|
                if i % 9 == 8 {
                    '\n'
                } else {
                    self.square_char(((7 - i / 9) as i8, (i % 9) as i8))
                },
        )
    }
}

/// Clearing a square twice is clearing it once, and clearing an empty
/// square changes nothing.
pub proof fn lemma_remove_is_idempotent(board: BoardView, c: (i8, i8))
    ensures
        board.remove(c).remove(c) == board.remove(c),
        board.piece_at(c) is None ==> board.remove(c) == board,
        board.remove(c).piece_at(c) is None,
{
    assert(board.remove(c).remove(c).pieces =~= board.remove(c).pieces);
    if board.piece_at(c) is None {
        assert(board.remove(c).pieces =~= board.pieces);
    }
}

/// The one-line text of a board tells which piece stands on each square:
/// two boards with the same text hold the same pieces.
pub proof fn lemma_fen_tells_the_pieces(a: BoardView, b: BoardView)
    requires
        a.wf(),
        b.wf(),
        a.fen() == b.fen(),
    ensures
        a.pieces == b.pieces,
{
    assert forall|c: (i8, i8)| #[trigger] a.piece_at(c) == b.piece_at(c) by {
        if on_board(c) {
            let i = 9 * c.0 + c.1;
            assert(i / 9 == c.0 && i % 9 == c.1);
            assert(a.fen()[i] == a.square_char(c));
            assert(b.fen()[i] == b.square_char(c));
            if a.piece_at(c) is Some {
                lemma_glyphs_are_distinct(a.piece_at(c)->0, a.piece_at(c)->0);
            }
            if b.piece_at(c) is Some {
                lemma_glyphs_are_distinct(b.piece_at(c)->0, b.piece_at(c)->0);
            }
            if a.piece_at(c) is Some && b.piece_at(c) is Some {
                lemma_glyphs_are_distinct(a.piece_at(c)->0, b.piece_at(c)->0);
            }
        }
    }
    assert forall|c: (i8, i8)| a.pieces.dom().contains(c) <==> b.pieces.dom().contains(c) by {
        assert(a.piece_at(c) == b.piece_at(c));
    }
    assert forall|c: (i8, i8)| a.pieces.dom().contains(c) implies a.pieces[c] == b.pieces[c] by {
        assert(a.piece_at(c) == b.piece_at(c));
    }
    assert(a.pieces =~= b.pieces);
}

/// The board of a game.
pub struct Board {
    squares: [[Option<Piece>; 8]; 8],
    white_squares: Vec<(i8, i8)>,
    black_squares: Vec<(i8, i8)>,
    white_king_location: (i8, i8),
    black_king_location: (i8, i8),
}

impl View for Board {
    type V = BoardView;

    closed spec fn view(&self) -> BoardView {
        BoardView {
            pieces: Map::new(
                |c: (i8, i8)| on_board(c) && self.squares[c.0 as int][c.1 as int] is Some,
                |c: (i8, i8)| self.squares[c.0 as int][c.1 as int]->0,
            ),
            white_king: self.white_king_location,
            black_king: self.black_king_location,
        }
    }
}

/// Adds the square `c` to a list of squares that does not hold it.
fn add_square(squares: &mut Vec<(i8, i8)>, c: (i8, i8))
    requires
        old(squares)@.no_duplicates(),
        !old(squares)@.contains(c),
    ensures
        final(squares)@.no_duplicates(),
        forall|x: (i8, i8)| final(squares)@.contains(x) <==> old(squares)@.contains(x) || x == c,
{
    squares.push(c);
    proof {
        let before = old(squares)@;
        assert forall|x: (i8, i8)| squares@.contains(x) <==> before.contains(x) || x == c by {
            if before.contains(x) {
                let k = choose|k: int| 0 <= k < before.len() && before[k] == x;
                assert(squares@[k] == x);
            }
            if x == c {
                assert(squares@[before.len() as int] == x);
            }
        }
    }
}

/// Removes the square `c` from a list of squares that holds it once.
fn drop_square(squares: &mut Vec<(i8, i8)>, c: (i8, i8))
    requires
        old(squares)@.no_duplicates(),
        old(squares)@.contains(c),
    ensures
        final(squares)@.no_duplicates(),
        forall|x: (i8, i8)| final(squares)@.contains(x) <==> old(squares)@.contains(x) && x != c,
{
    let mut i: usize = 0;
    while i < squares.len() && !(squares[i].0 == c.0 && squares[i].1 == c.1)
        invariant
            i <= squares.len(),
            squares@ == old(squares)@,
            forall|j: int| 0 <= j < i ==> squares@[j] != c,
        decreases squares.len() - i,
    {
        i += 1;
    }
    let ghost before = squares@;
    assert(i < squares.len()) by {
        let k = choose|k: int| 0 <= k < before.len() && before[k] == c;
        assert(before[k] == c);
    }
    squares.remove(i);
    proof {
        assert forall|x: (i8, i8)| squares@.contains(x) <==> before.contains(x) && x != c by {
            if squares@.contains(x) {
                let k = choose|k: int| 0 <= k < squares@.len() && squares@[k] == x;
                if k < i {
                    assert(before[k] == x);
                } else {
                    assert(before[k + 1] == x);
                }
            }
            if before.contains(x) && x != c {
                let k = choose|k: int| 0 <= k < before.len() && before[k] == x;
                if k < i {
                    assert(squares@[k] == x);
                } else {
                    assert(squares@[k - 1] == x);
                }
            }
        }
    }
}

impl Board {
    /// The index of occupied squares agrees with the grid: each list holds,
    /// once each, the squares on which its side has a piece.
    pub closed spec fn wf(&self) -> bool {
        &&& self.white_squares@.no_duplicates()
        &&& self.black_squares@.no_duplicates()
        &&& self.index_agrees(Side::White)
        &&& self.index_agrees(Side::Black)
    }

    /// The squares that the index lists for `side`.
    closed spec fn listed(&self, side: Side) -> Seq<(i8, i8)> {
        match side {
            Side::White => self.white_squares@,
            Side::Black => self.black_squares@,
        }
    }

    /// The index lists for `side` the squares on which it has a piece.
    closed spec fn index_agrees(&self, side: Side) -> bool {
        forall|c: (i8, i8)|
            self.listed(side).contains(c) <==> #[trigger] self@.occupied_by(side, c)
    }

    /// After a change at the square `c` alone, the index of `side` agrees
    /// with the grid again where it lists every other square as before, and
    /// `c` exactly when the side now has a piece there.
    proof fn lemma_index_follows_the_grid(before: Board, after: Board, side: Side, c: (i8, i8))
        requires
            before.index_agrees(side),
            forall|x: (i8, i8)| x != c ==> after@.piece_at(x) == before@.piece_at(x),
            forall|x: (i8, i8)|
                x != c ==> (after.listed(side).contains(x) <==> before.listed(side).contains(x)),
            after.listed(side).contains(c) <==> after@.occupied_by(side, c),
        ensures
            after.index_agrees(side),
    {
        assert forall|x: (i8, i8)|
            after.listed(side).contains(x) <==> #[trigger] after@.occupied_by(side, x) by {
            if x != c {
                assert(before.listed(side).contains(x) <==> before@.occupied_by(side, x));
                assert(after@.piece_at(x) == before@.piece_at(x));
            }
        }
    }

    /// Every square that a board holds a piece on lies on the board.
    pub proof fn lemma_view_wf(&self)
        ensures
            self@.wf(),
    {
    }

    /// The board at the start of a game.
    pub fn new() -> (board: Board)
        ensures
            board.wf(),
            board@ == BoardView::standard(),
    {
        let mut board = Board::new_blank();
        let back_rank = [
            PieceType::Rook,
            PieceType::Knight,
            PieceType::Bishop,
            PieceType::Queen,
            PieceType::King,
            PieceType::Bishop,
            PieceType::Knight,
            PieceType::Rook,
        ];
        assert(board@.pieces =~= BoardView::standard_up_to(0).pieces);
        let mut file: i8 = 0;
        while file < 8
            invariant
                0 <= file <= 8,
                board.wf(),
                board@ == BoardView::standard_up_to(file as int),
                forall|f: int| 0 <= f < 8 ==> back_rank[f] == BoardView::back_rank_kind(f),
            decreases 8 - file,
        {
            let kind = back_rank[file as usize];
            assert(kind == BoardView::back_rank_kind(file as int));
            board.place_piece(Piece { side: Side::White, piece_type: kind }, (0, file));
            assert(board@.white_king == BoardView::standard_up_to(file + 1).white_king);
            board.place_piece(Piece { side: Side::White, piece_type: PieceType::Pawn }, (1, file));
            board.place_piece(Piece { side: Side::Black, piece_type: PieceType::Pawn }, (6, file));
            board.place_piece(Piece { side: Side::Black, piece_type: kind }, (7, file));
            assert(board@.pieces =~= BoardView::standard_up_to(file + 1).pieces);
            file += 1;
        }
        board
    }

    /// An empty board. No king has a location yet: both are `(-1, -1)`.
    pub fn new_blank() -> (board: Board)
        ensures
            board.wf(),
            board@ == BoardView::blank(),
    {
        let board = Board {
            squares: [[None; 8]; 8],
            white_squares: Vec::new(),
            black_squares: Vec::new(),
            white_king_location: (-1, -1),
            black_king_location: (-1, -1),
        };
        assert(board@.pieces =~= Map::<(i8, i8), Piece>::empty());
        board
    }

    /// The piece on a square of the board, if any.
    pub fn piece_at(&self, coordinates: (i8, i8)) -> (piece: Option<Piece>)
        requires
            on_board(coordinates),
        ensures
            piece == self@.piece_at(coordinates),
    {
        self.squares[coordinates.0 as usize][coordinates.1 as usize]
    }

    /// The piece on the square with the given name, if any.
    pub fn piece_at_square_name(&self, square_name: &str) -> (piece: Option<Piece>)
        requires
            is_square_text(square_name@),
            on_board(square_of(square_name@)),
        ensures
            piece == self@.piece_at(square_of(square_name@)),
    {
        let coordinates = Board::coordinates_from_name(square_name);
        self.piece_at(coordinates)
    }

    /// The cached location of the king of `side`.
    pub fn king_location(&self, side: Side) -> (c: (i8, i8))
        ensures
            c == self@.king_location(side),
    {
        match side {
            Side::White => self.white_king_location,
            Side::Black => self.black_king_location,
        }
    }

    /// The squares on which `side` has a piece, each once, in no
    /// particular order.
    pub fn occupied_squares(&self, side: Side) -> (squares: &Vec<(i8, i8)>)
        requires
            self.wf(),
        ensures
            squares@.no_duplicates(),
            forall|c: (i8, i8)| squares@.contains(c) <==> self@.occupied_by(side, c),
    {
        match side {
            Side::White => &self.white_squares,
            Side::Black => &self.black_squares,
        }
    }

    /// Puts `piece` on a square. The square must be empty or hold a piece
    /// of the same side: a piece of the other side is removed first.
    pub fn place_piece(&mut self, piece: Piece, coordinates: (i8, i8))
        requires
            old(self).wf(),
            on_board(coordinates),
            !old(self)@.occupied_by(piece.side.opponent(), coordinates),
        ensures
            final(self).wf(),
            final(self)@ == old(self)@.place(piece, coordinates),
    {
        let rank = coordinates.0 as usize;
        let file = coordinates.1 as usize;
        match self.squares[rank][file] {
            Some(_) => {},
            None => {
                proof {
                    assert(!old(self)@.occupied_by(piece.side, coordinates));
                }
                match piece.side {
                    Side::White => add_square(&mut self.white_squares, coordinates),
                    Side::Black => add_square(&mut self.black_squares, coordinates),
                }
            },
        }
        self.squares[rank][file] = Some(piece);
        if let PieceType::King = piece.piece_type {
            match piece.side {
                Side::White => {
                    self.white_king_location = coordinates;
                },
                Side::Black => {
                    self.black_king_location = coordinates;
                },
            }
        }
        proof {
            assert(self@.pieces =~= old(self)@.pieces.insert(coordinates, piece));
            assert(old(self).listed(Side::White).contains(coordinates) <==> old(self)@.occupied_by(
                Side::White,
                coordinates,
            ));
            assert(old(self).listed(Side::Black).contains(coordinates) <==> old(self)@.occupied_by(
                Side::Black,
                coordinates,
            ));
            Self::lemma_index_follows_the_grid(*old(self), *self, Side::White, coordinates);
            Self::lemma_index_follows_the_grid(*old(self), *self, Side::Black, coordinates);
        }
    }

    /// Puts `piece` on the square with the given name.
    pub fn place_piece_on_square(&mut self, piece: Piece, square_name: &str)
        requires
            old(self).wf(),
            is_square_text(square_name@),
            on_board(square_of(square_name@)),
            !old(self)@.occupied_by(piece.side.opponent(), square_of(square_name@)),
        ensures
            final(self).wf(),
            final(self)@ == old(self)@.place(piece, square_of(square_name@)),
    {
        self.place_piece(piece, Board::coordinates_from_name(square_name));
    }

    /// Clears a square, and takes it out of the index of the side that
    /// held it.
    pub fn remove_piece(&mut self, coordinates: (i8, i8))
        requires
            old(self).wf(),
            on_board(coordinates),
        ensures
            final(self).wf(),
            final(self)@ == old(self)@.remove(coordinates),
    {
        let rank = coordinates.0 as usize;
        let file = coordinates.1 as usize;
        match self.squares[rank][file] {
            Some(piece) => {
                proof {
                    assert(old(self)@.occupied_by(piece.side, coordinates));
                }
                match piece.side {
                    Side::White => drop_square(&mut self.white_squares, coordinates),
                    Side::Black => drop_square(&mut self.black_squares, coordinates),
                }
            },
            None => {},
        }
        self.squares[rank][file] = None;
        proof {
            assert(self@.pieces =~= old(self)@.pieces.remove(coordinates));
            assert(old(self).listed(Side::White).contains(coordinates) <==> old(self)@.occupied_by(
                Side::White,
                coordinates,
            ));
            assert(old(self).listed(Side::Black).contains(coordinates) <==> old(self)@.occupied_by(
                Side::Black,
                coordinates,
            ));
            Self::lemma_index_follows_the_grid(*old(self), *self, Side::White, coordinates);
            Self::lemma_index_follows_the_grid(*old(self), *self, Side::Black, coordinates);
        }
    }

    /// Clears the square with the given name.
    pub fn remove_piece_from_square(&mut self, square_name: &str)
        requires
            old(self).wf(),
            is_square_text(square_name@),
            on_board(square_of(square_name@)),
        ensures
            final(self).wf(),
            final(self)@ == old(self)@.remove(square_of(square_name@)),
    {
        self.remove_piece(Board::coordinates_from_name(square_name));
    }

    /// Moves the piece on `m.from` to `m.to`: what stood there is taken,
    /// and a promoting move puts the promoted piece there instead.
    pub fn move_piece(&mut self, m: Move)
        requires
            old(self).wf(),
            on_board(m.from),
            on_board(m.to),
            old(self)@.piece_at(m.from) is Some,
        ensures
            final(self).wf(),
            final(self)@ == old(self)@.move_piece(m),
    {
        let piece = self.piece_at(m.from).unwrap();
        self.remove_piece(m.to);
        match m.promo {
            Some(promo_type) => self.place_piece(
                Piece { side: piece.side, piece_type: promo_type },
                m.to,
            ),
            None => self.place_piece(piece, m.to),
        }
        self.remove_piece(m.from);
    }
    /// The board on one line: the ranks from the first to the eighth, each
    /// as eight characters followed by `/`.
    pub fn to_fen(&self) -> (fen: String)
        ensures
            fen@ == self@.fen(),
    {
        let mut fen_string = String::new();
        let mut rank: usize = 0;
        while rank < 8
            invariant
                rank <= 8,
                fen_string@.len() == 9 * rank,
                forall|i: int| 0 <= i < fen_string@.len() ==> fen_string@[i] == self@.fen()[i],
            decreases 8 - rank,
        {
            let mut file: usize = 0;
            while file < 8
                invariant
                    rank < 8,
                    file <= 8,
                    fen_string@.len() == 9 * rank + file,
                    forall|i: int| 0 <= i < fen_string@.len() ==> fen_string@[i] == self@.fen()[i],
                decreases 8 - file,
            {
                let glyph = match self.squares[rank][file] {
                    Some(piece) => piece.to_char(),
                    None => ' ',
                };
                proof {
                    let i = 9 * rank + file;
                    assert(i / 9 == rank && i % 9 == file);
                    assert(self@.fen()[i as int] == glyph);
                }
                push_char(&mut fen_string, glyph);
                file += 1;
            }
            proof {
                let i = 9 * rank + 8;
                assert(i % 9 == 8);
            }
            push_char(&mut fen_string, '/');
            rank += 1;
        }
        assert(fen_string@ =~= self@.fen());
        fen_string
    }

    /// The board as a grid: the ranks from the eighth down to the first,
    /// each as eight characters followed by a line break.
    pub fn to_fen_grid(&self) -> (grid: String)
        ensures
            grid@ == self@.grid(),
    {
        let mut fen_string = String::new();
        let mut row: usize = 0;
        while row < 8
            invariant
                row <= 8,
                fen_string@.len() == 9 * row,
                forall|i: int| 0 <= i < fen_string@.len() ==> fen_string@[i] == self@.grid()[i],
            decreases 8 - row,
        {
            let rank = 7 - row;
            let mut file: usize = 0;
            while file < 8
                invariant
                    row < 8,
                    rank == 7 - row,
                    file <= 8,
                    fen_string@.len() == 9 * row + file,
                    forall|i: int| 0 <= i < fen_string@.len() ==> fen_string@[i] == self@.grid()[i],
                decreases 8 - file,
            {
                let glyph = match self.squares[rank][file] {
                    Some(piece) => piece.to_char(),
                    None => ' ',
                };
                proof {
                    let i = 9 * row + file;
                    assert(i / 9 == row && i % 9 == file);
                    assert(self@.grid()[i as int] == glyph);
                }
                push_char(&mut fen_string, glyph);
                file += 1;
            }
            proof {
                let i = 9 * row + 8;
                assert(i % 9 == 8);
            }
            push_char(&mut fen_string, '\n');
            row += 1;
        }
        assert(fen_string@ =~= self@.grid());
        fen_string
    }
}

impl Clone for Board {
    /// A board with the same squares, the same index and the same king
    /// locations.
    fn clone(&self) -> (board: Board)
        ensures
            board@ == self@,
            self.wf() ==> board.wf(),
    {
        let white_squares = copy_squares(&self.white_squares);
        let black_squares = copy_squares(&self.black_squares);
        let board = Board {
            squares: self.squares,
            white_squares,
            black_squares,
            white_king_location: self.white_king_location,
            black_king_location: self.black_king_location,
        };
        assert(board@.pieces =~= self@.pieces);
        board
    }
}

/// A list with the same squares in the same order.
fn copy_squares(squares: &Vec<(i8, i8)>) -> (copy: Vec<(i8, i8)>)
    ensures
        copy@ == squares@,
{
    let mut copy: Vec<(i8, i8)> = Vec::new();
    let mut i: usize = 0;
    while i < squares.len()
        invariant
            i <= squares.len(),
            copy@ == squares@.subrange(0, i as int),
        decreases squares.len() - i,
    {
        copy.push(squares[i]);
        i += 1;
    }
    assert(copy@ == squares@);
    copy
}

} // verus!
