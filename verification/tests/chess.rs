//! Chess plumbing: square names, board flips, FEN round trips, and move
//! naming.

use adversarial_search::games::chess::{flip_bb, flip_square, ChessHandler, ChessPos};

const START_FEN: &str = "rnbqkbnr/pppppppp/8/8/8/8/PPPPPPPP/RNBQKBNR w KQkq - 0 1";

#[test]
fn square_names_round_trip() {
    for sq in 0u64..64 {
        let name = ChessPos::square_to_string(sq);
        assert_eq!(name.len(), 2);
        assert_eq!(ChessPos::string_to_square(&name), Some(sq));
    }
    assert_eq!(ChessPos::square_to_string(0), "a1");
    assert_eq!(ChessPos::square_to_string(28), "e4");
    assert_eq!(ChessPos::square_to_string(63), "h8");
}

#[test]
fn bad_square_names_rejected() {
    assert_eq!(ChessPos::string_to_square("i1"), None);
    assert_eq!(ChessPos::string_to_square("a9"), None);
    assert_eq!(ChessPos::string_to_square("1a"), None);
}

#[test]
fn flip_square_mirrors_rank() {
    assert_eq!(flip_square(0), 56);
    assert_eq!(flip_square(56), 0);
    assert_eq!(flip_square(28), 36);
    for sq in 0u64..64 {
        assert_eq!(flip_square(flip_square(sq)), sq);
    }
}

#[test]
fn flip_bb_is_involutive() {
    for bb in [0u64, 0xff00, 0x00ff00000000ff00, 0x8100000000000081, 0x123456789abcdef0] {
        assert_eq!(flip_bb(flip_bb(bb)), bb);
    }
}

#[test]
fn startpos_fen() {
    assert_eq!(ChessPos::startpos().to_fen(), START_FEN);
}

#[test]
fn fen_round_trip_startpos() {
    let pos = ChessPos::from_fen(START_FEN).unwrap();
    assert_eq!(pos, ChessPos::startpos());
    assert_eq!(pos.to_fen(), START_FEN);
}

#[test]
fn fen_round_trip_midgame() {
    let fen = "r1bqkbnr/pppp1ppp/2n5/4p3/2B1P3/5N2/PPPP1PPP/RNBQK2R b KQkq - 3 3";
    let pos = ChessPos::from_fen(fen).unwrap();
    assert_eq!(pos.to_fen(), fen);
}

#[test]
fn fen_rejects_malformed_input() {
    assert_eq!(ChessPos::from_fen(""), None);
    assert_eq!(ChessPos::from_fen("only three fields here"), None);
    assert_eq!(ChessPos::from_fen("8/8/8/8/8/8/8/8 x - - 0 1"), None);
    assert_eq!(ChessPos::from_fen("9/8/8/8/8/8/8/8 w - - 0 1"), None);
    assert_eq!(ChessPos::from_fen("8/8/8/8/8/8/8/8 w - - zz 1"), None);
}

#[test]
fn fen_defaults_counters() {
    let pos = ChessPos::from_fen("rnbqkbnr/pppppppp/8/8/8/8/PPPPPPPP/RNBQKBNR w KQkq -").unwrap();
    assert_eq!(pos.half_move, 0);
    assert_eq!(pos.full_move, 1);
}

#[test]
fn play_move_from_start() {
    // e2-e4: origin 12, destination 28, no flag.
    let mv: u64 = (28 << 6) | 12;
    let after = ChessPos::startpos().play_move(mv);
    assert_eq!(
        after.to_fen(),
        "rnbqkbnr/pppppppp/8/8/4P3/8/PPPP1PPP/RNBQKBNR b KQkq e3 0 1",
    );
}

fn chess_perft(handler: &ChessHandler, pos: ChessPos, depth: usize) -> u64 {
    let moves = handler.get_legal_moves(pos);
    if depth == 1 {
        return moves.len() as u64;
    }
    moves
        .into_iter()
        .map(|mv| chess_perft(handler, pos.play_move(mv), depth - 1))
        .sum()
}

#[test]
fn movegen_matches_known_perft() {
    let handler = ChessHandler::new().expect("the bundled magic factors are valid");
    let start = ChessPos::startpos();
    assert_eq!(chess_perft(&handler, start, 1), 20);
    assert_eq!(chess_perft(&handler, start, 2), 400);
    assert_eq!(chess_perft(&handler, start, 3), 8902);
}

#[test]
fn movegen_in_check_is_restricted() {
    // A lone white king on e1 facing a black rook on e8 may not stay on the
    // open file.
    let handler = ChessHandler::new().expect("the bundled magic factors are valid");
    let pos = ChessPos::from_fen("4r3/8/8/8/8/8/8/4K3 w - - 0 1").unwrap();
    let moves = handler.get_legal_moves(pos);
    assert_eq!(moves.len(), 4);
    for mv in moves {
        let dest = (mv >> 6) & 0x3f;
        assert_ne!(dest % 8, 4, "king may not stay on the e-file");
    }
}

#[test]
fn move_names() {
    let handler = ChessHandler::new().expect("the bundled magic factors are valid");
    let e2e4: u64 = (28 << 6) | 12;
    assert_eq!(handler.move_string(e2e4, 0), "e2e4");
    assert_eq!(handler.square_to_string(28), "e4");
    // A promotion to queen on the eighth rank.
    let promote: u64 = (1 << 12) | (60 << 6) | 52;
    assert_eq!(handler.move_string(promote, 0), "e7e8q");
    // Kingside castling is spelled from White's frame.
    let castle: u64 = (2 << 12) | (6 << 6) | 4;
    assert_eq!(handler.move_string(castle, 0), "e1g1");
}
