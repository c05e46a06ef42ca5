//! Stockman's 16-leaf tree: the concrete scenario every algorithm must
//! solve identically, plus boundary and determinism checks.

use adversarial_search::games::stockman::{StockmanHandler, StockmanMove, StockmanPos};
use adversarial_search::prelude::{GameHandler, GamePosition};
use adversarial_search::search::Searcher;

fn replay_eval(
    handler: &StockmanHandler,
    start: StockmanPos,
    line: &[Option<StockmanMove>],
    max_depth: usize,
) -> i64 {
    let mut pos = start;
    let mut plies = 0usize;
    for mv in line.iter() {
        if let Some(m) = mv {
            pos = pos.play_move(*m);
            plies += 1;
        }
    }
    let e = handler.evaluate(pos, max_depth - plies, max_depth);
    if plies % 2 == 0 {
        e
    } else {
        -e
    }
}

const EXPECTED_PV: [StockmanMove; 4] = [
    StockmanMove::RightChild,
    StockmanMove::LeftChild,
    StockmanMove::RightChild,
    StockmanMove::RightChild,
];

fn check_pv(line: &[Option<StockmanMove>]) {
    assert_eq!(line.len(), 4);
    for i in 0..4 {
        assert_eq!(line[i], Some(EXPECTED_PV[i]));
    }
}

#[test]
fn stockman_branch_and_bound() {
    let handler = StockmanHandler::new(());
    let root = StockmanPos::startpos(());
    let mut searcher = Searcher::new();
    let (eval, pv) = searcher.branch_and_bound(&handler, root, 4, 4, 100);
    assert_eq!(eval, 52);
    check_pv(&pv);
    assert_eq!(replay_eval(&handler, root, &pv, 4), 52);
}

#[test]
fn stockman_alpha_beta() {
    let handler = StockmanHandler::new(());
    let root = StockmanPos::startpos(());
    let mut searcher = Searcher::new();
    let (eval, pv) = searcher.alpha_beta(&handler, root, 4, 4, -100, 100);
    assert_eq!(eval, 52);
    check_pv(&pv);
    assert_eq!(replay_eval(&handler, root, &pv, 4), 52);
}

#[test]
fn stockman_p_alpha_beta() {
    let handler = StockmanHandler::new(());
    let root = StockmanPos::startpos(());
    let mut searcher = Searcher::new();
    let (eval, pv) = searcher.p_alpha_beta(&handler, root, 4, 4);
    assert_eq!(eval, 52);
    check_pv(&pv);
    assert_eq!(replay_eval(&handler, root, &pv, 4), 52);
}

#[test]
fn stockman_pvs() {
    let handler = StockmanHandler::new(());
    let root = StockmanPos::startpos(());
    let mut searcher = Searcher::new();
    let (eval, pv) = searcher.pvs(&handler, root, 4, 4, -100, 100);
    assert_eq!(eval, 52);
    check_pv(&pv);
    assert_eq!(replay_eval(&handler, root, &pv, 4), 52);
}

#[test]
fn stockman_scout() {
    let handler = StockmanHandler::new(());
    let root = StockmanPos::startpos(());
    let mut searcher = Searcher::new();
    let (eval, pv) = searcher.scout(&handler, root, 4, 4);
    assert_eq!(eval, 52);
    check_pv(&pv);
    assert_eq!(replay_eval(&handler, root, &pv, 4), 52);
}

#[test]
fn stockman_sss() {
    let handler = StockmanHandler::new(());
    let root = StockmanPos::startpos(());
    let mut searcher = Searcher::new();
    let (eval, pv) = searcher.sss(&handler, root, 4, 4);
    assert_eq!(eval, 52);
    check_pv(&pv);
    assert_eq!(replay_eval(&handler, root, &pv, 4), 52);
}

#[test]
fn stockman_pv_ends_at_leaf_27() {
    let handler = StockmanHandler::new(());
    let root = StockmanPos::startpos(());
    let mut searcher = Searcher::new();
    let (_, pv) = searcher.alpha_beta(&handler, root, 4, 4, -100, 100);
    let mut pos = root;
    for mv in pv.iter() {
        pos = pos.play_move(mv.unwrap());
    }
    assert_eq!(pos.node, 27);
    assert_eq!(handler.evaluate(pos, 0, 4), 52);
}

#[test]
fn stockman_depth_zero_boundary() {
    let handler = StockmanHandler::new(());
    let root = StockmanPos::startpos(());
    let mut searcher = Searcher::new();
    let (eval, pv) = searcher.alpha_beta(&handler, root, 0, 0, -100, 100);
    assert_eq!(eval, handler.evaluate(root, 0, 0));
    assert_eq!(pv.len(), 0);
    assert_eq!(searcher.get_leaf_count(), 1);
}

#[test]
fn stockman_no_moves_boundary() {
    let handler = StockmanHandler::new(());
    let leaf = StockmanPos { node: 16 };
    let mut searcher = Searcher::new();
    let (eval, pv) = searcher.branch_and_bound(&handler, leaf, 3, 3, 100);
    assert_eq!(eval, 30);
    assert!(pv.iter().all(|m| m.is_none()));
    assert_eq!(searcher.get_leaf_count(), 1);
    let (eval2, _) = searcher.sss(&handler, leaf, 3, 3);
    assert_eq!(eval2, 30);
}

#[test]
fn stockman_determinism() {
    let handler = StockmanHandler::new(());
    let root = StockmanPos::startpos(());
    let mut searcher = Searcher::new();
    let (e1, p1) = searcher.pvs(&handler, root, 4, 4, -100, 100);
    let c1 = searcher.get_leaf_count();
    searcher.reset_leaf_count();
    let (e2, p2) = searcher.pvs(&handler, root, 4, 4, -100, 100);
    let c2 = searcher.get_leaf_count();
    assert_eq!(e1, e2);
    assert_eq!(p1, p2);
    assert_eq!(c1, c2);

    searcher.reset_leaf_count();
    let (e3, p3) = searcher.sss(&handler, root, 4, 4);
    let c3 = searcher.get_leaf_count();
    searcher.reset_leaf_count();
    let (e4, p4) = searcher.sss(&handler, root, 4, 4);
    let c4 = searcher.get_leaf_count();
    assert_eq!(e3, e4);
    assert_eq!(p3, p4);
    assert_eq!(c3, c4);
}

#[test]
fn stockman_feasibility_test() {
    let handler = StockmanHandler::new(());
    let root = StockmanPos::startpos(());
    let mut searcher = Searcher::new();
    // The game value is exactly 52.
    assert!(searcher.test(&handler, root, 4, 4, 52, true));
    assert!(!searcher.test(&handler, root, 4, 4, 52, false));
    assert!(!searcher.test(&handler, root, 4, 4, 53, true));
    assert!(searcher.test(&handler, root, 4, 4, 51, false));
}

#[test]
fn stockman_window_soundness() {
    // The game value is 52: a window above it fails low, a window below it
    // fails high, and a window around it returns it exactly.
    let handler = StockmanHandler::new(());
    let root = StockmanPos::startpos(());
    let mut searcher = Searcher::new();

    let (pvs_low, _) = searcher.pvs(&handler, root, 4, 4, 60, 80);
    assert!(52 <= pvs_low && pvs_low <= 60);
    let (pvs_high, _) = searcher.pvs(&handler, root, 4, 4, 10, 40);
    assert!(40 <= pvs_high && pvs_high <= 52);
    let (pvs_in, _) = searcher.pvs(&handler, root, 4, 4, 40, 60);
    assert_eq!(pvs_in, 52);

    let (ab_low, _) = searcher.alpha_beta(&handler, root, 4, 4, 60, 80);
    assert_eq!(ab_low, 60);
    let (ab_high, _) = searcher.alpha_beta(&handler, root, 4, 4, 10, 40);
    assert!(40 <= ab_high && ab_high <= 52);
    let (ab_in, _) = searcher.alpha_beta(&handler, root, 4, 4, 40, 60);
    assert_eq!(ab_in, 52);

    let (fab_low, _) = searcher.f_alpha_beta(&handler, root, 4, 4, 60, 80);
    assert!(52 <= fab_low && fab_low <= 60);
    let (fab_in, _) = searcher.f_alpha_beta(&handler, root, 4, 4, 40, 60);
    assert_eq!(fab_in, 52);
}

#[test]
fn stockman_sentinels_consistent() {
    let handler = StockmanHandler::new(());
    assert_eq!(handler.eval_minimum(), -handler.eval_maximum());
    assert!(handler.eval_epsilon() > 0);
}

#[test]
fn stockman_counter_wraps_by_design() {
    let mut searcher = Searcher::new();
    assert_eq!(searcher.get_leaf_count(), 0);
    searcher.increment_leaf_count();
    assert_eq!(searcher.get_leaf_count(), 1);
    searcher.reset_leaf_count();
    assert_eq!(searcher.get_leaf_count(), 0);
}

#[test]
fn stockman_perft() {
    let handler = StockmanHandler::new(());
    let root = StockmanPos::startpos(());
    // A full binary tree: 2^depth leaves.
    assert_eq!(Searcher::perft(1, root, &handler), 2);
    assert_eq!(Searcher::perft(4, root, &handler), 16);
}
