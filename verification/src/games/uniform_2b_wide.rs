//! A uniform binary tree of fixed depth with seeded random leaf values:
//! nodes are numbered 1 at the root, node `n` has children `2n` and
//! `2n + 1`, and the nodes of the bottom rank carry values drawn from a
//! seeded generator.

use crate::games::rng::{chacha_from_seed, random_range_i64};
use crate::prelude::{GameHandler, GamePosition};
use vstd::prelude::*;

verus! {

/// A node of the uniform binary tree, identified by its heap-style number.
#[derive(Clone, Copy, Debug, PartialEq, Eq, Structural)]
pub struct Uniform2bWidePos {
    pub node: u32,
}

/// A step to one of the two children of a node.
#[derive(Clone, Copy, Debug, PartialEq, Eq, Structural)]
pub enum Uniform2bWideMove {
    Left,
    Right,
}

impl GamePosition for Uniform2bWidePos {
    type Move = Uniform2bWideMove;

    type Params = ();

    open spec fn move_ok(self, mv: Uniform2bWideMove) -> bool {
        self.node <= 0x3fff_ffff
    }

    open spec fn play_spec(self, mv: Uniform2bWideMove) -> Uniform2bWidePos {
        match mv {
            Uniform2bWideMove::Left => Uniform2bWidePos { node: (2 * self.node) as u32 },
            Uniform2bWideMove::Right => Uniform2bWidePos { node: (2 * self.node + 1) as u32 },
        }
    }

    open spec fn start_spec(params: ()) -> Uniform2bWidePos {
        Uniform2bWidePos { node: 1 }
    }

    fn startpos(params: ()) -> (pos: Self) {
        Self { node: 1 }
    }

    fn play_move(&self, mv: Uniform2bWideMove) -> (next: Self) {
        match mv {
            Uniform2bWideMove::Left => Self { node: 2 * self.node },
            Uniform2bWideMove::Right => Self { node: 2 * self.node + 1 },
        }
    }
}

/// The handler for the uniform binary tree: the tree's internal nodes are
/// those numbered below the first leaf; each leaf's value is drawn once, at
/// construction, from the seeded generator.
pub struct Uniform2bWideHandler {
    leaf_start: u32,
    node_values: Vec<i32>,
}

/// Construction input: the depth of the tree and the seed of the value
/// generator.
pub struct Uniform2bWideParams {
    pub depth: u32,
    pub seed: u64,
}

impl Uniform2bWideHandler {
    /// The table of leaf values, indexed by leaf number minus the first
    /// leaf's number.
    pub fn get_node_values(&self) -> (r: Vec<i32>)
        ensures
            r@ == self.values_view(),
    {
        let mut r: Vec<i32> = Vec::new();
        let mut i: usize = 0;
        while i < self.node_values.len()
            invariant
                i <= self.node_values.len(),
                r@ == self.node_values@.subrange(0, i as int),
            decreases self.node_values.len() - i,
        {
            r.push(self.node_values[i]);
            i = i + 1;
        }
        proof {
            assert(r@ =~= self.node_values@);
        }
        r
    }

    /// The stored leaf values.
    pub closed spec fn values_view(&self) -> Seq<i32> {
        self.node_values@
    }
}

impl GameHandler<Uniform2bWidePos> for Uniform2bWideHandler {
    type Params = Uniform2bWideParams;

    closed spec fn wf(&self) -> bool {
        &&& 1 <= self.leaf_start <= 0x4000_0000
        &&& self.node_values@.len() == self.leaf_start
        &&& forall|j: int| 0 <= j < self.node_values@.len()
            ==> -100 <= #[trigger] self.node_values@[j] <= 100
    }

    open spec fn eval_min(&self) -> i64 {
        -0x7fff_ffffi64
    }

    open spec fn eval_max(&self) -> i64 {
        0x7fff_ffffi64
    }

    open spec fn eval_eps(&self) -> i64 {
        1i64
    }

    open spec fn depth_ok(&self, max_depth: int) -> bool {
        true
    }

    open spec fn params_ok(params: Uniform2bWideParams) -> bool {
        params.depth <= 30
    }

    closed spec fn moves_spec(&self, pos: Uniform2bWidePos) -> Seq<Uniform2bWideMove> {
        if pos.node >= self.leaf_start {
            Seq::empty()
        } else {
            seq![Uniform2bWideMove::Left, Uniform2bWideMove::Right]
        }
    }

    closed spec fn eval_spec(&self, pos: Uniform2bWidePos, depth: int, max_depth: int) -> i64 {
        if self.leaf_start <= pos.node && pos.node - self.leaf_start < self.node_values@.len() {
            self.node_values@[pos.node - self.leaf_start] as i64
        } else {
            0x7fff_ffffi64
        }
    }

    proof fn wf_facts(&self) {
    }

    fn new(params: Uniform2bWideParams) -> (h: Self) {
        let d: u32 = params.depth;
        let leaf_start: u32 = 1u32 << d;
        let mut rng = chacha_from_seed(params.seed);
        let mut node_values: Vec<i32> = Vec::new();
        let mut i: u32 = 0;
        proof {
            assert(1u32 << d <= 0x4000_0000u32 && 1u32 << d >= 1u32) by (bit_vector)
                requires
                    d <= 30u32,
            ;
        }
        while i < leaf_start
            invariant
                i <= leaf_start,
                node_values@.len() == i,
                forall|j: int| 0 <= j < node_values@.len()
                    ==> -100 <= #[trigger] node_values@[j] <= 100,
            decreases leaf_start - i,
        {
            let v = random_range_i64(&mut rng, -100, 100);
            node_values.push(v as i32);
            i = i + 1;
        }
        Self { leaf_start, node_values }
    }

    fn eval_minimum(&self) -> (r: i64) {
        -0x7fff_ffff
    }

    fn eval_maximum(&self) -> (r: i64) {
        0x7fff_ffff
    }

    fn eval_epsilon(&self) -> (r: i64) {
        1
    }

    fn get_legal_moves(&self, pos: Uniform2bWidePos) -> (moves: Vec<Uniform2bWideMove>) {
        let mut moves: Vec<Uniform2bWideMove> = Vec::new();
        if pos.node < self.leaf_start {
            moves.push(Uniform2bWideMove::Left);
            moves.push(Uniform2bWideMove::Right);
            assert(moves@ =~= self.moves_spec(pos));
        }
        moves
    }

    fn evaluate(&self, pos: Uniform2bWidePos, depth: usize, max_depth: usize) -> (r: i64) {
        if pos.node >= self.leaf_start {
            let idx = pos.node - self.leaf_start;
            if (idx as usize) < self.node_values.len() {
                return self.node_values[idx as usize] as i64;
            }
        }
        0x7fff_ffff
    }
}

} // verus!
