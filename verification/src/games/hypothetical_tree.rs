//! A hypothetical game tree of bounded fanout: every internal node spawns
//! the same number of children, the leaves carry a seeded random permutation
//! of `1..=width^depth`, and the static evaluation alternates sign with the
//! ply parity so that every search depth sees a consistent mover
//! perspective.

use crate::games::rng::{chacha_from_seed, random_range_usize};
use crate::prelude::{GameHandler, GamePosition};
use crate::sss::{eval_flips_with_depth, parity_sign};
use vstd::prelude::*;

verus! {

/// `w` to the power `d`.
pub open spec fn pow_int(w: int, d: nat) -> int
    decreases d,
{
    if d == 0 {
        1
    } else {
        w * pow_int(w, (d - 1) as nat)
    }
}

/// Powers of a positive base are positive and grow with the exponent.
pub proof fn lemma_pow_mono(w: int, d1: nat, d2: nat)
    requires
        1 <= w,
        d1 <= d2,
    ensures
        1 <= pow_int(w, d1) <= pow_int(w, d2),
    decreases d2,
{
    if d2 == 0 {
    } else if d1 == d2 {
        lemma_pow_mono(w, (d1 - 1) as nat, (d2 - 1) as nat);
        assert(pow_int(w, d1) == w * pow_int(w, (d1 - 1) as nat));
        assert(w * pow_int(w, (d1 - 1) as nat) >= 1) by (nonlinear_arith)
            requires
                w >= 1,
                pow_int(w, (d1 - 1) as nat) >= 1,
        ;
    } else {
        lemma_pow_mono(w, d1, (d2 - 1) as nat);
        assert(w * pow_int(w, (d2 - 1) as nat) >= pow_int(w, (d2 - 1) as nat))
            by (nonlinear_arith)
            requires
                w >= 1,
                pow_int(w, (d2 - 1) as nat) >= 1,
        ;
    }
}

/// Every power of one is one.
pub proof fn lemma_pow_one(d: nat)
    ensures
        pow_int(1, d) == 1,
    decreases d,
{
    if d > 0 {
        lemma_pow_one((d - 1) as nat);
    }
}

/// A node of the hypothetical tree: the fanout it will spawn, and its unique
/// number (children of node `n` with fanout `f` are `n*f + 1` through
/// `n*f + f`).
#[derive(Clone, Copy, Debug, PartialEq, Eq, Structural)]
pub struct HypTreePos {
    pub fanout: usize,
    pub node: usize,
}

/// One ply of the hypothetical tree: the number of places to shift right
/// from the left-most child, and the fanout of the child the move creates.
#[derive(Clone, Copy, Debug, PartialEq, Eq, Structural)]
pub struct HypTreeMove {
    pub fanout: usize,
    pub shift: usize,
}

impl GamePosition for HypTreePos {
    type Move = HypTreeMove;

    type Params = usize;

    open spec fn move_ok(self, mv: HypTreeMove) -> bool {
        self.node * self.fanout + mv.shift < 0x8000_0000
    }

    open spec fn play_spec(self, mv: HypTreeMove) -> HypTreePos {
        HypTreePos { fanout: mv.fanout, node: (self.node * self.fanout + mv.shift) as usize }
    }

    open spec fn start_spec(params: usize) -> HypTreePos {
        HypTreePos { fanout: params, node: 0 }
    }

    fn startpos(params: usize) -> (pos: Self) {
        Self { fanout: params, node: 0 }
    }

    fn play_move(&self, mv: HypTreeMove) -> (next: Self) {
        Self { fanout: mv.fanout, node: self.node * self.fanout + mv.shift }
    }
}

/// Construction input: the tree's depth and maximum fanout, and the seed of
/// the leaf-value permutation.
pub struct HypTreeParams {
    pub depth: usize,
    pub width: usize,
    pub seed: u64,
}

/// The handler for the hypothetical tree, with node values drawn as an
/// unordered, independent permutation of `1..=width^depth`.
pub struct UnordIndHypTreeHandler {
    width: usize,
    leaf_start: usize,
    node_values: Vec<i64>,
    leaf_count: u128,
}

impl UnordIndHypTreeHandler {
    /// Counts one leaf evaluation on the handler's own counter.
    pub fn increment_leaf_count(&mut self) {
        self.leaf_count = self.leaf_count.wrapping_add(1);
    }

    /// The handler's own count of leaf evaluations.
    pub fn get_leaf_count(&self) -> u128 {
        self.leaf_count
    }

    /// Resets the handler's own leaf counter.
    pub fn reset_leaf_count(&mut self) {
        self.leaf_count = 0;
    }
}

impl GameHandler<HypTreePos> for UnordIndHypTreeHandler {
    type Params = HypTreeParams;

    closed spec fn wf(&self) -> bool {
        &&& 1 <= self.width
        &&& (self.leaf_start + 1) * self.width < 0x8000_0000
        &&& 1 <= self.node_values@.len() <= 0x4000_0000
        &&& (self.width == 1 ==> self.node_values@.len() == 1)
        &&& (2 <= self.width ==> (self.leaf_start + 1) * (self.width - 1)
            == self.node_values@.len() - 1)
        &&& forall|j: int| 0 <= j < self.node_values@.len()
            ==> 1 <= #[trigger] self.node_values@[j] <= 0x4000_0000
    }

    open spec fn eval_min(&self) -> i64 {
        -0x7fff_ffff_ffff_fffei64
    }

    open spec fn eval_max(&self) -> i64 {
        0x7fff_ffff_ffff_fffei64
    }

    open spec fn eval_eps(&self) -> i64 {
        1i64
    }

    open spec fn depth_ok(&self, max_depth: int) -> bool {
        true
    }

    open spec fn params_ok(params: HypTreeParams) -> bool {
        &&& 1 <= params.depth <= 30
        &&& 1 <= params.width
        &&& pow_int(params.width as int, params.depth as nat) <= 0x4000_0000
    }

    closed spec fn moves_spec(&self, pos: HypTreePos) -> Seq<HypTreeMove> {
        if pos.node > self.leaf_start || pos.fanout != self.width {
            Seq::empty()
        } else {
            Seq::new(
                self.width as nat,
                |i: int| HypTreeMove { fanout: self.width, shift: (i + 1) as usize },
            )
        }
    }

    closed spec fn eval_spec(&self, pos: HypTreePos, depth: int, max_depth: int) -> i64 {
        if pos.node > self.leaf_start && pos.node - self.leaf_start - 1 < self.node_values@.len() {
            if (max_depth - depth) % 2 == 0 {
                self.node_values@[pos.node - self.leaf_start - 1]
            } else {
                (-self.node_values@[pos.node - self.leaf_start - 1]) as i64
            }
        } else {
            0i64
        }
    }

    proof fn wf_facts(&self) {
        assert forall|pos: HypTreePos, i: int|
            0 <= i < self.moves_spec(pos).len()
                implies pos.move_ok(#[trigger] self.moves_spec(pos)[i]) by {
            assert(pos.node * pos.fanout <= self.leaf_start * self.width) by (nonlinear_arith)
                requires
                    0 <= pos.node <= self.leaf_start,
                    pos.fanout == self.width,
                    0 <= self.width,
            ;
            assert((self.leaf_start + 1) * self.width
                == self.leaf_start * self.width + self.width) by (nonlinear_arith);
        }
    }

    #[verifier::loop_isolation(false)]
    fn new(params: HypTreeParams) -> (h: Self) {
        let HypTreeParams { depth, width, seed } = params;
        let ghost wi = width as int;
        let mut rng = chacha_from_seed(seed);
        // The number of leaves: width^depth.
        let mut total: usize = 1;
        let mut j: usize = 0;
        while j < depth
            invariant
                j <= depth,
                total == pow_int(wi, j as nat),
                1 <= total <= 0x4000_0000,
            decreases depth - j,
        {
            proof {
                lemma_pow_mono(wi, (j + 1) as nat, depth as nat);
                assert(pow_int(wi, (j + 1) as nat) == wi * pow_int(wi, j as nat));
                assert(wi * pow_int(wi, j as nat) == pow_int(wi, j as nat) * wi)
                    by (nonlinear_arith);
            }
            total = total * width;
            j = j + 1;
        }
        // The exclusive lower bound for leaf numbers: with `S` one past it,
        // `S * (width - 1) == width^depth - 1` exactly, so every bound below
        // follows.
        let mut s: usize = 0;
        let mut k: usize = 0;
        while k < depth
            invariant
                k <= depth,
                width == 1 ==> s == k,
                2 <= width ==> s * (wi - 1) == pow_int(wi, k as nat) - 1,
                1 <= k ==> 1 <= s,
                s <= 0x4000_0000,
            decreases depth - k,
        {
            proof {
                if width >= 2 {
                    lemma_pow_mono(wi, k as nat, depth as nat);
                    lemma_pow_mono(wi, (k + 1) as nat, depth as nat);
                    assert(pow_int(wi, (k + 1) as nat) == wi * pow_int(wi, k as nat));
                    assert(s <= s * (wi - 1)) by (nonlinear_arith)
                        requires
                            s >= 0,
                            wi >= 2,
                    ;
                    assert(s * wi == s * (wi - 1) + s) by (nonlinear_arith);
                    assert((s * wi + 1) * (wi - 1) == s * (wi - 1) * wi + wi - 1)
                        by (nonlinear_arith);
                    assert(s * (wi - 1) * wi == (pow_int(wi, k as nat) - 1) * wi)
                        by (nonlinear_arith)
                        requires
                            s * (wi - 1) == pow_int(wi, k as nat) - 1,
                    ;
                    assert((pow_int(wi, k as nat) - 1) * wi
                        == wi * pow_int(wi, k as nat) - wi) by (nonlinear_arith);
                    assert((s * wi + 1) * (wi - 1) == pow_int(wi, (k + 1) as nat) - 1);
                    assert((s * wi + 1) <= (s * wi + 1) * (wi - 1)) by (nonlinear_arith)
                        requires
                            s * wi + 1 >= 0,
                            wi >= 2,
                    ;
                } else {
                    assert(s * wi == s) by (nonlinear_arith)
                        requires
                            wi == 1,
                    ;
                }
            }
            s = s * width + 1;
            k = k + 1;
        }
        proof {
            if width >= 2 {
                assert(s <= s * (wi - 1)) by (nonlinear_arith)
                    requires
                        s >= 0,
                        wi >= 2,
                ;
                assert(s * wi == s * (wi - 1) + s) by (nonlinear_arith);
                lemma_pow_mono(wi, depth as nat, depth as nat);
            } else {
                assert(s * wi == s) by (nonlinear_arith)
                    requires
                        wi == 1,
                ;
                lemma_pow_one(depth as nat);
            }
        }
        let leaf_start = s - 1;
        // The leaf values: 1..=width^depth, then a seeded permutation of
        // them.
        let mut node_values: Vec<i64> = Vec::new();
        let mut t: usize = 0;
        while t < total
            invariant
                t <= total,
                total <= 0x4000_0000,
                node_values@.len() == t,
                forall|q: int| 0 <= q < node_values@.len()
                    ==> 1 <= #[trigger] node_values@[q] <= 0x4000_0000,
            decreases total - t,
        {
            node_values.push((t + 1) as i64);
            t = t + 1;
        }
        let mut i: usize = node_values.len();
        while i > 1
            invariant
                i <= node_values.len(),
                node_values@.len() == total,
                forall|q: int| 0 <= q < node_values@.len()
                    ==> 1 <= #[trigger] node_values@[q] <= 0x4000_0000,
            decreases i,
        {
            i = i - 1;
            let x = random_range_usize(&mut rng, 0, i);
            let vi = node_values[i];
            let vx = node_values[x];
            node_values[i] = vx;
            node_values[x] = vi;
        }
        Self { width, leaf_start, node_values, leaf_count: 0 }
    }

    fn eval_minimum(&self) -> (r: i64) {
        -0x7fff_ffff_ffff_fffe
    }

    fn eval_maximum(&self) -> (r: i64) {
        0x7fff_ffff_ffff_fffe
    }

    fn eval_epsilon(&self) -> (r: i64) {
        1
    }

    #[verifier::loop_isolation(false)]
    fn get_legal_moves(&self, pos: HypTreePos) -> (moves: Vec<HypTreeMove>) {
        let mut moves: Vec<HypTreeMove> = Vec::new();
        if pos.node <= self.leaf_start && pos.fanout == self.width {
            proof {
                assert(self.width <= (self.leaf_start + 1) * self.width) by (nonlinear_arith)
                    requires
                        self.leaf_start >= 0,
                        self.width >= 1,
                ;
            }
            let mut shift: usize = 1;
            while shift <= self.width
                invariant
                    1 <= shift <= self.width + 1,
                    moves@.len() == shift - 1,
                    forall|q: int| 0 <= q < moves@.len()
                        ==> #[trigger] moves@[q] == (HypTreeMove {
                            fanout: self.width,
                            shift: (q + 1) as usize,
                        }),
                decreases self.width + 1 - shift,
            {
                moves.push(HypTreeMove { fanout: self.width, shift });
                shift = shift + 1;
            }
            assert(moves@ =~= self.moves_spec(pos));
        }
        moves
    }

    fn evaluate(&self, pos: HypTreePos, depth: usize, max_depth: usize) -> (r: i64) {
        if pos.node > self.leaf_start {
            let idx = pos.node - self.leaf_start - 1;
            if idx < self.node_values.len() {
                let v = self.node_values[idx];
                if (max_depth - depth) % 2 == 0 {
                    return v;
                } else {
                    return -v;
                }
            }
        }
        0
    }
}

/// The hypothetical tree's evaluation flips sign with the parity of the
/// remaining depth, so the best-first search's round-trip law applies to
/// this handler.
pub proof fn lemma_hyp_tree_eval_flips(h: &UnordIndHypTreeHandler)
    requires
        h.wf(),
    ensures
        eval_flips_with_depth(h),
{
    h.wf_facts();
    assert forall|pos: HypTreePos, d: int, md: int| 0 <= d <= md
        implies (#[trigger] h.eval_spec(pos, d, md)) as int
            == parity_sign(md - d) * (h.eval_spec(pos, md, md) as int) by {
        let base = h.eval_spec(pos, md, md) as int;
        if (md - d) % 2 == 0 {
            assert(1 * base == base) by (nonlinear_arith);
        } else {
            assert((-1) * base == -base) by (nonlinear_arith);
        }
    }
}

} // verus!
