use chess_rules::board::Board;
use chess_rules::castling::CastlingAvailability;
use chess_rules::game::GameState;
use chess_rules::moves::Move;
use chess_rules::pieces::{Piece, PieceType, Side};

#[test]
fn test_coordinates() {
    assert_eq!("c2", Board::name_from_coordinates((1, 2)));
    assert_eq!("e6", Board::name_from_coordinates(Board::coordinates_from_name("e6")));
    assert_eq!("c2-c4", Move::from_str("c2-c4").to_string());
}

#[test]
fn test_board_setup() {
    let mut game = GameState::new();
    assert_eq!(game.side_to_move, Side::White);
    assert_eq!(game.board.piece_at_square_name("c1").unwrap().piece_type, PieceType::Bishop);
    assert_eq!(game.board.piece_at_square_name("c1").unwrap().side, Side::White);
    assert_eq!(game.board.piece_at_square_name("f7").unwrap().piece_type, PieceType::Pawn);
    assert_eq!(game.board.piece_at_square_name("f7").unwrap().side, Side::Black);
    game.board.remove_piece_from_square("f7");
    assert_eq!(game.board.piece_at_square_name("f7"), None);
}

#[test]
fn test_making_moves() {
    let mut game = GameState::new();
    game.make_move(Move::from_str("e2-e4"));
    assert_eq!(game.side_to_move, Side::Black);
    assert_eq!(game.board.piece_at_square_name("e2"), None);
    assert_eq!(game.board.piece_at_square_name("e4").unwrap().piece_type, PieceType::Pawn);
    assert_eq!(game.board.piece_at_square_name("e4").unwrap().side, Side::White);
    game.make_move(Move::from_str("c7-c5"));
    assert_eq!(game.side_to_move, Side::White);
    assert_eq!(game.board.piece_at_square_name("c7"), None);
    assert_eq!(game.board.piece_at_square_name("c5").unwrap().piece_type, PieceType::Pawn);
    assert_eq!(game.board.piece_at_square_name("c5").unwrap().side, Side::Black);
}

#[test]
fn test_legal_moves() {
    let mut game = GameState::new();
    assert!(game.move_is_legal(Move::from_str("g1-f3")));
    assert!(game.move_is_legal(Move::from_str("a2-a3")));
    assert!(game.move_is_legal(Move::from_str("e2-e4")));
    assert!(game.move_is_legal(Move::from_str("h2-h4")));
    game.make_move(Move::from_str("d2-d4"));
    game.make_move(Move::from_str("g8-f6"));
    assert!(game.move_is_legal(Move::from_str("c1-f4")));
    assert!(!game.move_is_legal(Move::from_str("f1-c4")));
    assert!(game.move_is_legal(Move::from_str("d1-d3")));
    assert!(!game.move_is_legal(Move::from_str("d1-d5")));
    assert!(!game.move_is_legal(Move::from_str("d1-h5")));
    game.make_move(Move::from_str("a2-a4"));
    game.make_move(Move::from_str("g7-g6"));
    assert!(game.move_is_legal(Move::from_str("a1-a3")));
    assert!(!game.move_is_legal(Move::from_str("a1-a4")));
    assert!(game.move_is_legal(Move::from_str("e1-d2")));
    assert!(!game.move_is_legal(Move::from_str("e1-d1")));
}

#[test]
fn test_pawns() {
    let mut game = GameState::new();
    game.make_move(Move::from_str("g1-f3"));
    game.make_move(Move::from_str("g8-f6"));
    assert!(game.move_is_legal(Move::from_str("e2-e4")));
    assert!(!game.move_is_legal(Move::from_str("f2-f4")));
}

#[test]
fn test_legal_move_generator() {
    let mut game = GameState::new();
    assert!(game.get_possible_moves().contains(&Move::from_str("a2-a3")));
    assert!(game.get_possible_moves().contains(&Move::from_str("a2-a4")));
    assert!(game.get_possible_moves().contains(&Move::from_str("g1-h3")));
    assert!(game.get_possible_moves().contains(&Move::from_str("g1-f3")));
    game.make_move(Move::from_str("e2-e4"));
    game.make_move(Move::from_str("e7-e5"));
    assert!(game.get_possible_moves().contains(&Move::from_str("f1-a6")));
    assert!(game.get_possible_moves().contains(&Move::from_str("d1-g4")));
    assert!(!game.get_possible_moves().contains(&Move::from_str("f1-h3")));
    assert!(!game.get_possible_moves().contains(&Move::from_str("f1-g2")));
    assert!(!game.get_possible_moves().contains(&Move::from_str("d1-d2")));
}

#[test]
fn test_illegal_moves() {
    let game = GameState::new();
    assert!(!game.move_is_legal(Move::from_str("g1-g3")));
    assert!(!game.move_is_legal(Move::from_str("g1-e2")));
    assert!(!game.move_is_legal(Move::from_str("a2-b3")));
    assert!(!game.move_is_legal(Move::from_str("e2-e2")));
    assert!(!game.move_is_legal(Move::from_str("e2-e5")));
}

#[test]
fn test_check() {
    let mut game = GameState::new();
    game.make_move(Move::from_str("e2-e4"));
    game.make_move(Move::from_str("e7-e5"));
    game.make_move(Move::from_str("f2-f4"));
    assert!(!game.is_in_check(Side::White));
    game.make_move(Move::from_str("d8-h4"));
    assert!(game.is_in_check(Side::White));
    game.make_move(Move::from_str("g2-g3"));
    assert!(!game.is_in_check(Side::White));
}

#[test]
fn test_checkmate() {
    let mut game = GameState::new();
    game.make_move(Move::from_str("e2-e4"));
    game.make_move(Move::from_str("e7-e5"));
    game.make_move(Move::from_str("d1-h5"));
    game.make_move(Move::from_str("b8-c6"));
    game.make_move(Move::from_str("f1-c4"));
    game.make_move(Move::from_str("g8-f6"));
    game.make_move(Move::from_str("h5-f7"));
    assert!(game.is_in_checkmate(Side::Black));
}

#[test]
fn test_checkmate2() {
    let mut game = GameState::new();
    game.make_move(Move::from_str("f2-f3"));
    game.make_move(Move::from_str("e7-e5"));
    game.make_move(Move::from_str("g2-g4"));
    game.make_move(Move::from_str("d8-h4"));
    assert!(game.is_in_checkmate(Side::White));
}

#[test]
fn test_checkmate3() {
    let mut game = GameState {
        board: Board::new_blank(),
        side_to_move: Side::Black,
        castling_availability: CastlingAvailability::none(),
        en_passant_square: None,
    };
    game.board.place_piece_on_square(Piece { piece_type: PieceType::Rook, side: Side::White }, "a8");
    game.board.place_piece_on_square(Piece { piece_type: PieceType::King, side: Side::White }, "g1");
    game.board.place_piece_on_square(Piece { piece_type: PieceType::King, side: Side::Black }, "g8");
    game.board.place_piece_on_square(Piece { piece_type: PieceType::Pawn, side: Side::Black }, "f7");
    game.board.place_piece_on_square(Piece { piece_type: PieceType::Pawn, side: Side::Black }, "g7");
    game.board.place_piece_on_square(Piece { piece_type: PieceType::Pawn, side: Side::Black }, "h7");
    assert!(game.is_in_checkmate(Side::Black));
    game.board.place_piece_on_square(Piece { piece_type: PieceType::Bishop, side: Side::Black }, "e4");
    assert!(!game.is_in_checkmate(Side::Black));
    game.board.place_piece_on_square(Piece { piece_type: PieceType::Pawn, side: Side::Black }, "d5");
    assert!(game.is_in_checkmate(Side::Black));
    game.board.place_piece_on_square(Piece { piece_type: PieceType::Knight, side: Side::Black }, "b6");
    assert!(!game.is_in_checkmate(Side::Black));
}

#[test]
fn test_stalemate() {
    let mut game = GameState {
        board: Board::new_blank(),
        side_to_move: Side::Black,
        castling_availability: CastlingAvailability::none(),
        en_passant_square: None,
    };
    game.board.place_piece_on_square(Piece { piece_type: PieceType::King, side: Side::White }, "h1");
    game.board.place_piece_on_square(Piece { piece_type: PieceType::Queen, side: Side::White }, "c7");
    game.board.place_piece_on_square(Piece { piece_type: PieceType::King, side: Side::Black }, "a8");
    assert!(game.is_in_stalemate());
}

#[test]
fn test_en_passant() {
    let mut game = GameState::new();
    game.make_move(Move::from_str("e2-e4"));
    game.make_move(Move::from_str("a7-a6"));
    game.make_move(Move::from_str("e4-e5"));
    game.make_move(Move::from_str("d7-d5"));
    assert!(game.get_legal_moves().contains(&Move::from_str("e5-d6")));
    game.make_move(Move::from_str("e5-d6"));
    assert_eq!(game.board.piece_at_square_name("d5"), None);
}

#[test]
fn test_en_passant2() {
    let mut game = GameState::new();
    game.make_move(Move::from_str("e2-e4"));
    game.make_move(Move::from_str("a7-a6"));
    game.make_move(Move::from_str("e4-e5"));
    game.make_move(Move::from_str("f7-f5"));
    assert!(game.get_legal_moves().contains(&Move::from_str("e5-f6")));
    game.make_move(Move::from_str("e5-f6"));
    assert_eq!(game.board.piece_at_square_name("f5"), None);
}

#[test]
fn test_castling() {
    let mut game = GameState::new();
    game.make_move(Move::from_str("e2-e4"));
    game.make_move(Move::from_str("e7-e5"));
    game.make_move(Move::from_str("g1-f3"));
    game.make_move(Move::from_str("b8-c6"));
    assert!(!game.get_legal_moves().contains(&Move::from_str("e1-g1")));
    game.make_move(Move::from_str("f1-c4"));
    game.make_move(Move::from_str("f8-c5"));
    assert!(game.get_legal_moves().contains(&Move::from_str("e1-g1")));
    game.make_move(Move::from_str("e1-g1"));
    assert_eq!(game.board.piece_at_square_name("g1").unwrap().piece_type, PieceType::King);
    assert_eq!(game.board.piece_at_square_name("f1").unwrap().piece_type, PieceType::Rook);
    assert_eq!(game.board.piece_at_square_name("h1"), None);
}

#[test]
fn test_castling2() {
    let mut game = GameState::new();
    game.make_move(Move::from_str("d2-d4"));
    game.make_move(Move::from_str("g8-f6"));
    game.make_move(Move::from_str("b1-c3"));
    game.make_move(Move::from_str("g7-g6"));
    game.make_move(Move::from_str("c1-f4"));
    game.make_move(Move::from_str("f8-g7"));
    game.make_move(Move::from_str("d1-d2"));
    assert!(game.get_legal_moves().contains(&Move::from_str("e8-g8")));
    game.make_move(Move::from_str("e8-g8"));
    assert_eq!(game.board.piece_at_square_name("g8").unwrap().piece_type, PieceType::King);
    assert_eq!(game.board.piece_at_square_name("f8").unwrap().piece_type, PieceType::Rook);
    assert_eq!(game.board.piece_at_square_name("h8"), None);
    assert!(game.get_legal_moves().contains(&Move::from_str("e1-c1")));
    game.make_move(Move::from_str("e1-c1"));
    assert_eq!(game.board.piece_at_square_name("c1").unwrap().piece_type, PieceType::King);
    assert_eq!(game.board.piece_at_square_name("d1").unwrap().piece_type, PieceType::Rook);
    assert_eq!(game.board.piece_at_square_name("a1"), None);
}

#[test]
fn test_castling3() {
    let mut game = GameState::new();
    game.make_move(Move::from_str("e2-e4"));
    game.make_move(Move::from_str("e7-e5"));
    game.make_move(Move::from_str("g1-f3"));
    game.make_move(Move::from_str("g8-f6"));
    game.make_move(Move::from_str("f1-c4"));
    game.make_move(Move::from_str("h7-h6"));
    game.make_move(Move::from_str("d2-d3"));
    game.make_move(Move::from_str("f8-b4"));
    assert!(game.is_in_check(Side::White));
    assert!(!game.get_legal_moves().contains(&Move::from_str("e1-g1")));
    game.make_move(Move::from_str("c2-c3"));
    game.make_move(Move::from_str("b4-a5"));
    assert!(game.get_legal_moves().contains(&Move::from_str("e1-g1")));
}

#[test]
fn test_promotion() {
    let mut game = GameState {
        board: Board::new_blank(),
        side_to_move: Side::White,
        castling_availability: CastlingAvailability::none(),
        en_passant_square: None,
    };
    game.board.place_piece_on_square(Piece { piece_type: PieceType::Pawn, side: Side::White }, "a7");
    game.board.place_piece_on_square(Piece { piece_type: PieceType::King, side: Side::White }, "b7");
    game.board.place_piece_on_square(Piece { piece_type: PieceType::King, side: Side::Black }, "d7");
    println!("{:?}", game.get_legal_moves());
    let a8q = Move {
        from: Board::coordinates_from_name("a7"),
        to: Board::coordinates_from_name("a8"),
        promo: Some(PieceType::Queen),
    };
    assert!(game.get_legal_moves().contains(&a8q));
    assert!(!game.get_legal_moves().contains(&Move::from_str("a7-a8")));
    game.make_move(a8q);
    assert_eq!(game.board.piece_at_square_name("a8").unwrap().piece_type, PieceType::Queen);
}
