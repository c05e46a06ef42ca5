//! Ultimate tic-tac-toe: board mechanics and cross-algorithm agreement on
//! shallow searches.

use adversarial_search::games::ut3::{Ut3Board, Ut3Handler};
use adversarial_search::prelude::{GameHandler, GamePosition};
use adversarial_search::search::Searcher;

#[test]
fn ut3_startpos_has_eighty_one_moves() {
    let handler = Ut3Handler::new(());
    let board = Ut3Board::startpos(());
    let moves = handler.get_legal_moves(board);
    assert_eq!(moves.len(), 81);
    for (i, mv) in moves.iter().enumerate() {
        assert_eq!(*mv, i as u64);
    }
}

#[test]
fn ut3_startpos_is_balanced() {
    let handler = Ut3Handler::new(());
    let board = Ut3Board::startpos(());
    assert_eq!(handler.evaluate(board, 4, 4), 0);
}

#[test]
fn ut3_zone_restricts_replies() {
    let handler = Ut3Handler::new(());
    let board = Ut3Board::startpos(());
    // Playing in cell 4 of zone 0 sends the reply to zone 4.
    let after = board.play_move(4);
    let replies = handler.get_legal_moves(after);
    assert_eq!(replies.len(), 9);
    for (i, mv) in replies.iter().enumerate() {
        assert_eq!(*mv, (36 + i) as u64);
    }
}

#[test]
fn ut3_line_presence_detects_rows() {
    assert!(Ut3Board::line_presence(0b000_000_111));
    assert!(Ut3Board::line_presence(0b100_010_001));
    assert!(!Ut3Board::line_presence(0b000_000_101));
    assert!(!Ut3Board::line_presence(0));
}

#[test]
fn ut3_lines_counts_marks() {
    // The empty grid has no marks on any line.
    assert_eq!(Ut3Board::lines(0), 0);
}

#[test]
fn ut3_sentinels_consistent() {
    let handler = Ut3Handler::new(());
    assert_eq!(handler.eval_minimum(), -handler.eval_maximum());
    assert!(handler.eval_epsilon() > 0);
}

#[test]
fn ut3_shallow_search_agreement() {
    let handler = Ut3Handler::new(());
    let board = Ut3Board::startpos(());
    let minv = handler.eval_minimum();
    let maxv = handler.eval_maximum();
    let mut s = Searcher::new();
    let (e_bb, _) = s.branch_and_bound(&handler, board, 2, 2, maxv);
    let (e_ab, _) = s.alpha_beta(&handler, board, 2, 2, minv, maxv);
    let (e_pab, _) = s.p_alpha_beta(&handler, board, 2, 2);
    let (e_pvs, _) = s.pvs(&handler, board, 2, 2, minv, maxv);
    let (e_sc, _) = s.scout(&handler, board, 2, 2);
    let (e_sss, _) = s.sss(&handler, board, 2, 2);
    assert_eq!(e_bb, e_ab);
    assert_eq!(e_bb, e_pab);
    assert_eq!(e_bb, e_pvs);
    assert_eq!(e_bb, e_sc);
    assert_eq!(e_bb, e_sss);
}

#[test]
fn ut3_alpha_beta_prunes() {
    let handler = Ut3Handler::new(());
    let board = Ut3Board::startpos(());
    let minv = handler.eval_minimum();
    let maxv = handler.eval_maximum();
    let mut s = Searcher::new();
    let (_, _) = s.branch_and_bound(&handler, board, 2, 2, maxv);
    let full = s.get_leaf_count();
    s.reset_leaf_count();
    let (_, _) = s.alpha_beta(&handler, board, 2, 2, minv, maxv);
    let pruned = s.get_leaf_count();
    assert!(pruned <= full);
}
