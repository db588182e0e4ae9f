use chess_rules::ai::next_move;
use chess_rules::game::GameState;

#[test]
fn sanity_test() {
    for _ in 0..100 {
        println!("new game");
        let mut game = GameState::new();
        for _ in 0..100 {
            let mut line = String::new();
            for potential_move in game.get_legal_moves() {
                line.push_str(&format!(" {} ", potential_move.to_string()));
            }
            println!("{}", line);
            let m = next_move(&game);
            println!("{:?}", game.side_to_move);
            match m {
                Some(m) => {
                    game.make_move(m);
                    println!("{:?}", m.to_string());
                },
                None => break,
            }
            println!("{}", game.board.to_fen_grid());
        }
    }
}
