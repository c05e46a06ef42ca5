//! Stockman's classic 16-leaf binary tree: nodes are numbered 1 at the root,
//! with node `n` having children `2n` and `2n + 1`; nodes 16 through 31 are
//! the leaves and carry fixed values.

use crate::prelude::{GameHandler, GamePosition};
use vstd::prelude::*;

verus! {

/// A node of Stockman's tree, identified by its heap-style number.
#[derive(Clone, Copy, Debug, PartialEq, Eq, Structural)]
pub struct StockmanPos {
    pub node: usize,
}

/// A step to one of the two children of a node.
#[derive(Clone, Copy, Debug, PartialEq, Eq, Structural)]
pub enum StockmanMove {
    LeftChild,
    RightChild,
}

impl GamePosition for StockmanPos {
    type Move = StockmanMove;

    type Params = ();

    open spec fn move_ok(self, mv: StockmanMove) -> bool {
        self.node <= 0x3fff_ffff
    }

    open spec fn play_spec(self, mv: StockmanMove) -> StockmanPos {
        match mv {
            StockmanMove::LeftChild => StockmanPos { node: (2 * self.node) as usize },
            StockmanMove::RightChild => StockmanPos { node: (2 * self.node + 1) as usize },
        }
    }

    open spec fn start_spec(params: ()) -> StockmanPos {
        StockmanPos { node: 1 }
    }

    fn startpos(params: ()) -> (pos: Self) {
        Self { node: 1 }
    }

    fn play_move(&self, mv: StockmanMove) -> (next: Self) {
        match mv {
            StockmanMove::LeftChild => Self { node: 2 * self.node },
            StockmanMove::RightChild => Self { node: 2 * self.node + 1 },
        }
    }
}

/// The fixed value of a leaf node; nodes outside the leaf range evaluate to
/// the won-position sentinel, as they are never reached by a well-formed
/// search of the four-ply tree.
pub open spec fn stockman_value(node: usize) -> i64 {
    if node == 16 {
        30i64
    } else if node == 17 {
        54i64
    } else if node == 18 {
        21i64
    } else if node == 19 {
        73i64
    } else if node == 20 {
        9i64
    } else if node == 21 {
        71i64
    } else if node == 22 {
        43i64
    } else if node == 23 {
        91i64
    } else if node == 24 {
        28i64
    } else if node == 25 {
        94i64
    } else if node == 26 {
        78i64
    } else if node == 27 {
        52i64
    } else if node == 28 {
        22i64
    } else if node == 29 {
        35i64
    } else if node == 30 {
        53i64
    } else if node == 31 {
        80i64
    } else {
        100i64
    }
}

/// The handler for Stockman's tree: two moves below every node numbered 15
/// or less, none below the rest, and the fixed leaf values.
pub struct StockmanHandler {
    leaf_count: u128,
}

impl StockmanHandler {
    /// Counts one leaf evaluation on the handler's own counter.
    pub fn increment_leaf_count(&mut self) {
        self.leaf_count = self.leaf_count.wrapping_add(1);
    }

    /// The handler's own count of leaf evaluations.
    pub fn get_leaf_count(&self) -> u128 {
        self.leaf_count
    }

    /// Resets the handler's own leaf counter.
    pub fn reset_leaf_count(&mut self) {
        self.leaf_count = 0;
    }
}

impl GameHandler<StockmanPos> for StockmanHandler {
    type Params = ();

    open spec fn wf(&self) -> bool {
        true
    }

    open spec fn eval_min(&self) -> i64 {
        -100i64
    }

    open spec fn eval_max(&self) -> i64 {
        100i64
    }

    open spec fn eval_eps(&self) -> i64 {
        1i64
    }

    open spec fn depth_ok(&self, max_depth: int) -> bool {
        true
    }

    open spec fn params_ok(params: ()) -> bool {
        true
    }

    open spec fn moves_spec(&self, pos: StockmanPos) -> Seq<StockmanMove> {
        if pos.node > 15 {
            Seq::empty()
        } else {
            seq![StockmanMove::LeftChild, StockmanMove::RightChild]
        }
    }

    open spec fn eval_spec(&self, pos: StockmanPos, depth: int, max_depth: int) -> i64 {
        stockman_value(pos.node)
    }

    proof fn wf_facts(&self) {
    }

    fn new(params: ()) -> (h: Self) {
        Self { leaf_count: 0 }
    }

    fn eval_minimum(&self) -> (r: i64) {
        -100
    }

    fn eval_maximum(&self) -> (r: i64) {
        100
    }

    fn eval_epsilon(&self) -> (r: i64) {
        1
    }

    fn get_legal_moves(&self, pos: StockmanPos) -> (moves: Vec<StockmanMove>) {
        let mut moves: Vec<StockmanMove> = Vec::new();
        if pos.node <= 15 {
            moves.push(StockmanMove::LeftChild);
            moves.push(StockmanMove::RightChild);
            assert(moves@ =~= self.moves_spec(pos));
        }
        moves
    }

    fn evaluate(&self, pos: StockmanPos, depth: usize, max_depth: usize) -> (r: i64) {
        match pos.node {
            16 => 30,
            17 => 54,
            18 => 21,
            19 => 73,
            20 => 9,
            21 => 71,
            22 => 43,
            23 => 91,
            24 => 28,
            25 => 94,
            26 => 78,
            27 => 52,
            28 => 22,
            29 => 35,
            30 => 53,
            31 => 80,
            _ => 100,
        }
    }
}

} // verus!
