//! The search engine: the abstract game value, the principal-variation
//! model, and the `Searcher` with its leaf-evaluation counter.
//!
//! The heart of the module is the spec function [`negamax`]: the exact
//! minimax value of a position under a given horizon, in negamax form (every
//! value is seen from the player to move; a parent negates its child's
//! value).  Each search algorithm's contract relates its result to `negamax`
//! and, where the algorithm reconstructs a principal variation, to
//! [`line_eval`], the value obtained by replaying a recorded line.

use crate::prelude::{GameHandler, GamePosition};
use vstd::prelude::*;

verus! {

/// The result of a search: the value for the side to move, and the line that
/// achieves it.  Slot `i` of the line holds the move played at ply `i` from
/// the searched position; unused trailing slots are `None`.
pub type EvalAndPV<P> = (i64, Vec<Option<<P as GamePosition>::Move>>);

/// Whether `pos` is a leaf under the current horizon: out of depth, or
/// without legal moves.
pub open spec fn is_leaf<P: GamePosition, H: GameHandler<P>>(
    h: &H,
    pos: P,
    depth: int,
) -> bool {
    depth <= 0 || h.moves_spec(pos).len() == 0
}

/// The larger of two values.
pub open spec fn max_i(a: int, b: int) -> int {
    if a >= b {
        a
    } else {
        b
    }
}

/// The smaller of two values.
pub open spec fn min_i(a: int, b: int) -> int {
    if a <= b {
        a
    } else {
        b
    }
}

/// The exact game value of `pos`, `depth` plies from the horizon of a
/// `max_depth`-ply search, from the perspective of the player to move.
pub open spec fn negamax<P: GamePosition, H: GameHandler<P>>(
    h: &H,
    pos: P,
    depth: int,
    max_depth: int,
) -> int
    decreases depth, 1int, 0int,
{
    if depth <= 0 || h.moves_spec(pos).len() == 0 {
        h.eval_spec(pos, depth, max_depth) as int
    } else {
        best_from(h, pos, depth, max_depth, 0)
    }
}

/// The best negated child value among the children of `pos` from index `i`
/// on.  `best_from(h, pos, depth, max_depth, 0)` is the value of an internal
/// node.
pub open spec fn best_from<P: GamePosition, H: GameHandler<P>>(
    h: &H,
    pos: P,
    depth: int,
    max_depth: int,
    i: int,
) -> int
    decreases depth, 0int, h.moves_spec(pos).len() - i,
    when 1 <= depth && 0 <= i < h.moves_spec(pos).len()
{
    if i + 1 >= h.moves_spec(pos).len() {
        -negamax(h, pos.play_spec(h.moves_spec(pos)[i]), depth - 1, max_depth)
    } else {
        max_i(
            -negamax(h, pos.play_spec(h.moves_spec(pos)[i]), depth - 1, max_depth),
            best_from(h, pos, depth, max_depth, i + 1),
        )
    }
}

/// The value obtained by replaying the recorded line `pv` from `pos`: follow
/// the recorded move of each ply, negating per ply, and statically evaluate
/// where the line ends (an empty slot, the horizon, or a position without
/// moves).
pub open spec fn line_eval<P: GamePosition, H: GameHandler<P>>(
    h: &H,
    pos: P,
    depth: int,
    max_depth: int,
    pv: Seq<Option<P::Move>>,
) -> int
    decreases depth,
{
    if depth <= 0 || h.moves_spec(pos).len() == 0 {
        h.eval_spec(pos, depth, max_depth) as int
    } else {
        match pv[max_depth - depth] {
            Option::None => h.eval_spec(pos, depth, max_depth) as int,
            Option::Some(mv) => -line_eval(h, pos.play_spec(mv), depth - 1, max_depth, pv),
        }
    }
}

/// Whether every slot of a line is empty.
pub open spec fn all_none<M>(s: Seq<Option<M>>) -> bool {
    forall|j: int| 0 <= j < s.len() ==> s[j] is None
}

/// A leaf counter after one more evaluated leaf (the counter wraps at its
/// maximum rather than fail).
pub open spec fn next_count(c: u128) -> u128 {
    if c == u128::MAX {
        0
    } else {
        (c + 1) as u128
    }
}

/// The game value lies between the handler's sentinels.
pub proof fn lemma_negamax_in_range<P: GamePosition, H: GameHandler<P>>(
    h: &H,
    pos: P,
    depth: int,
    max_depth: int,
)
    requires
        h.wf(),
        0 <= depth <= max_depth,
        h.depth_ok(max_depth),
    ensures
        h.eval_min() <= negamax(h, pos, depth, max_depth) <= h.eval_max(),
    decreases depth, 1int, 0int,
{
    if depth <= 0 || h.moves_spec(pos).len() == 0 {
        h.wf_facts();
    } else {
        lemma_best_from_in_range(h, pos, depth, max_depth, 0);
    }
}

/// Every suffix best of an internal node lies between the sentinels.
pub proof fn lemma_best_from_in_range<P: GamePosition, H: GameHandler<P>>(
    h: &H,
    pos: P,
    depth: int,
    max_depth: int,
    i: int,
)
    requires
        h.wf(),
        1 <= depth <= max_depth,
        h.depth_ok(max_depth),
        0 <= i < h.moves_spec(pos).len(),
    ensures
        h.eval_min() <= best_from(h, pos, depth, max_depth, i) <= h.eval_max(),
    decreases depth, 0int, h.moves_spec(pos).len() - i,
{
    h.wf_facts();
    lemma_negamax_in_range(
        h,
        pos.play_spec(h.moves_spec(pos)[i]),
        depth - 1,
        max_depth,
    );
    if i + 1 < h.moves_spec(pos).len() {
        lemma_best_from_in_range(h, pos, depth, max_depth, i + 1);
    }
}

/// The suffix best dominates each of its children.
pub proof fn lemma_best_from_ge<P: GamePosition, H: GameHandler<P>>(
    h: &H,
    pos: P,
    depth: int,
    max_depth: int,
    i: int,
    j: int,
)
    requires
        1 <= depth,
        0 <= i <= j < h.moves_spec(pos).len(),
    ensures
        best_from(h, pos, depth, max_depth, i)
            >= -negamax(h, pos.play_spec(h.moves_spec(pos)[j]), depth - 1, max_depth),
    decreases j - i,
{
    if i < j {
        lemma_best_from_ge(h, pos, depth, max_depth, i + 1, j);
    }
}

/// A bound that holds of every child from `i` on holds of their best.
pub proof fn lemma_best_from_ub<P: GamePosition, H: GameHandler<P>>(
    h: &H,
    pos: P,
    depth: int,
    max_depth: int,
    i: int,
    w: int,
)
    requires
        1 <= depth,
        0 <= i < h.moves_spec(pos).len(),
        forall|j: int| i <= j < h.moves_spec(pos).len()
            ==> -negamax(h, pos.play_spec(#[trigger] h.moves_spec(pos)[j]), depth - 1, max_depth)
                <= w,
    ensures
        best_from(h, pos, depth, max_depth, i) <= w,
    decreases h.moves_spec(pos).len() - i,
{
    if i + 1 < h.moves_spec(pos).len() {
        lemma_best_from_ub(h, pos, depth, max_depth, i + 1, w);
    }
}

/// The number of leaves of the maximal tree `depth` plies below `pos`: the
/// move count at one remaining ply, the sum over the children otherwise.
pub open spec fn perft_count<P: GamePosition, H: GameHandler<P>>(
    h: &H,
    pos: P,
    depth: int,
) -> int
    decreases depth, 1int, 0int,
{
    if depth <= 1 || h.moves_spec(pos).len() == 0 {
        h.moves_spec(pos).len() as int
    } else {
        perft_sum(h, pos, depth, 0)
    }
}

/// The summed leaf counts of the children of `pos` from index `i` on.
pub open spec fn perft_sum<P: GamePosition, H: GameHandler<P>>(
    h: &H,
    pos: P,
    depth: int,
    i: int,
) -> int
    decreases depth, 0int, h.moves_spec(pos).len() - i,
    when 2 <= depth && 0 <= i <= h.moves_spec(pos).len()
{
    if i >= h.moves_spec(pos).len() {
        0
    } else {
        perft_count(h, pos.play_spec(h.moves_spec(pos)[i]), depth - 1) + perft_sum(
            h,
            pos,
            depth,
            i + 1,
        )
    }
}

/// Leaf counts are never negative.
pub proof fn lemma_perft_count_nonneg<P: GamePosition, H: GameHandler<P>>(
    h: &H,
    pos: P,
    depth: int,
)
    ensures
        perft_count(h, pos, depth) >= 0,
    decreases depth, 1int, 0int,
{
    if depth <= 1 || h.moves_spec(pos).len() == 0 {
    } else {
        lemma_perft_sum_nonneg(h, pos, depth, 0);
    }
}

/// Summed leaf counts are never negative.
pub proof fn lemma_perft_sum_nonneg<P: GamePosition, H: GameHandler<P>>(
    h: &H,
    pos: P,
    depth: int,
    i: int,
)
    requires
        2 <= depth,
        0 <= i <= h.moves_spec(pos).len(),
    ensures
        perft_sum(h, pos, depth, i) >= 0,
    decreases depth, 0int, h.moves_spec(pos).len() - i,
{
    if i < h.moves_spec(pos).len() {
        lemma_perft_count_nonneg(h, pos.play_spec(h.moves_spec(pos)[i]), depth - 1);
        lemma_perft_sum_nonneg(h, pos, depth, i + 1);
    }
}

/// Replaying a line reads only the slots of the plies it covers: two lines
/// that agree there replay to the same value.
pub proof fn lemma_line_eval_frame<P: GamePosition, H: GameHandler<P>>(
    h: &H,
    pos: P,
    depth: int,
    max_depth: int,
    pv1: Seq<Option<P::Move>>,
    pv2: Seq<Option<P::Move>>,
)
    requires
        0 <= depth <= max_depth,
        forall|j: int| max_depth - depth <= j < max_depth ==> pv1[j] == pv2[j],
    ensures
        line_eval(h, pos, depth, max_depth, pv1) == line_eval(h, pos, depth, max_depth, pv2),
    decreases depth,
{
    if depth <= 0 || h.moves_spec(pos).len() == 0 {
    } else {
        match pv1[max_depth - depth] {
            Option::None => {},
            Option::Some(mv) => {
                lemma_line_eval_frame(h, pos.play_spec(mv), depth - 1, max_depth, pv1, pv2);
            },
        }
    }
}

/// Algorithm equivalence at the root.  Any value that branch-and-bound's
/// contract allows under the won-position bound, any value that
/// alpha-beta's contract allows under the full window, and any value that
/// principal-variation search's envelope allows under the full window, is
/// exactly the game value — even where the game value sits on a sentinel —
/// so all of them always agree; the refined alpha-beta, scout and best-first
/// contracts pin the game value unconditionally and agree with each.
pub proof fn lemma_algorithms_agree<P: GamePosition, H: GameHandler<P>>(
    h: &H,
    pos: P,
    depth: int,
    max_depth: int,
    r_bb: int,
    r_ab: int,
    r_pvs: int,
)
    requires
        h.wf(),
        0 <= depth <= max_depth,
        h.depth_ok(max_depth),
        // What branch-and-bound's contract allows of its result at
        // `bound == eval_max()`:
        negamax(h, pos, depth, max_depth) < h.eval_max()
            ==> r_bb == negamax(h, pos, depth, max_depth),
        negamax(h, pos, depth, max_depth) >= h.eval_max()
            ==> h.eval_max() <= r_bb <= negamax(h, pos, depth, max_depth),
        // What alpha-beta's contract allows of its result over the window
        // `[eval_min(), eval_max()]`:
        is_leaf(h, pos, depth) ==> r_ab == h.eval_spec(pos, depth, max_depth),
        !is_leaf(h, pos, depth) && negamax(h, pos, depth, max_depth) <= h.eval_min()
            ==> r_ab == h.eval_min(),
        h.eval_min() < negamax(h, pos, depth, max_depth) < h.eval_max()
            ==> r_ab == negamax(h, pos, depth, max_depth),
        negamax(h, pos, depth, max_depth) >= h.eval_max()
            ==> h.eval_max() <= r_ab <= negamax(h, pos, depth, max_depth),
        // What principal-variation search's envelope allows over the same
        // window:
        r_pvs >= min_i(h.eval_max() as int, negamax(h, pos, depth, max_depth)),
        r_pvs <= max_i(h.eval_min() as int, negamax(h, pos, depth, max_depth)),
    ensures
        r_bb == negamax(h, pos, depth, max_depth),
        r_ab == negamax(h, pos, depth, max_depth),
        r_pvs == negamax(h, pos, depth, max_depth),
        r_bb == r_ab && r_ab == r_pvs,
{
    lemma_negamax_in_range(h, pos, depth, max_depth);
}

/// A line of `n` empty slots.
pub(crate) fn none_line<M>(n: usize) -> (r: Vec<Option<M>>)
    ensures
        r@.len() == n,
        all_none(r@),
{
    let mut v: Vec<Option<M>> = Vec::new();
    let mut i: usize = 0;
    while i < n
        invariant
            i <= n,
            v@.len() == i,
            all_none(v@),
        decreases n - i,
    {
        v.push(None);
        i = i + 1;
    }
    v
}

/// The stateful wrapper around the search algorithms.  Its only state is the
/// count of leaf evaluations made so far; every algorithm raises the count
/// once per evaluated terminal position.
pub struct Searcher {
    leaf_count: u128,
}

impl Default for Searcher {
    fn default() -> (s: Self)
        ensures
            s.count() == 0,
    {
        Self::new()
    }
}

impl Searcher {
    /// The number of leaves evaluated so far.
    pub closed spec fn count(&self) -> u128 {
        self.leaf_count
    }

    /// A fresh searcher with a zero leaf count.
    pub fn new() -> (s: Self)
        ensures
            s.count() == 0,
    {
        Self { leaf_count: 0 }
    }

    /// Counts one more evaluated leaf.
    pub fn increment_leaf_count(&mut self)
        ensures
            final(self).count() == next_count(old(self).count()),
    {
        self.leaf_count = self.leaf_count.wrapping_add(1);
    }

    /// The number of leaves evaluated since the last reset.
    pub fn get_leaf_count(&self) -> (r: u128)
        ensures
            r == self.count(),
    {
        self.leaf_count
    }

    /// Starts a fresh measurement.
    pub fn reset_leaf_count(&mut self)
        ensures
            final(self).count() == 0,
    {
        self.leaf_count = 0;
    }

    /// The number of leaves of the maximal tree `depth` plies below `pos`,
    /// the classical move-generation exerciser.
    #[verifier::loop_isolation(false)]
    pub fn perft<P: GamePosition, H: GameHandler<P>>(
        depth: usize,
        pos: P,
        handler: &H,
    ) -> (r: u128)
        requires
            handler.wf(),
            1 <= depth,
            perft_count(handler, pos, depth as int) <= u128::MAX,
        ensures
            r == perft_count(handler, pos, depth as int),
        decreases depth,
    {
        let ghost d = depth as int;
        proof {
            handler.wf_facts();
        }
        let moves = handler.get_legal_moves(pos);
        if depth == 1 || moves.len() == 0 {
            return moves.len() as u128;
        }
        let mut acc: u128 = 0;
        let mut i: usize = 0;
        while i < moves.len()
            invariant
                i <= moves.len(),
                acc + perft_sum(handler, pos, d, i as int) == perft_count(handler, pos, d),
            decreases moves.len() - i,
        {
            let mv = moves[i];
            proof {
                handler.wf_facts();
                assert(pos.move_ok(handler.moves_spec(pos)[i as int]));
                lemma_perft_count_nonneg(handler, pos.play_spec(mv), d - 1);
                lemma_perft_sum_nonneg(handler, pos, d, i as int + 1);
            }
            let child = pos.play_move(mv);
            let n = Self::perft(depth - 1, child, handler);
            acc = acc + n;
            i = i + 1;
        }
        acc
    }

    /// Branch-and-bound: negamax with a single scalar `bound`.  Each child
    /// is searched with the negated running best as its own bound; the node
    /// returns early once its best reaches `bound` (fail-high cutoff).
    ///
    /// The contract pins the result down against [`negamax`]: below `bound`
    /// the exact game value is returned; at or above it, a fail-high value
    /// between `bound` and the game value.  An exact interior result is
    /// realized by the returned line ([`line_eval`]); a leaf returns its
    /// static evaluation, an all-empty line, and one counted leaf.
    #[verifier::loop_isolation(false)]
    pub fn branch_and_bound<P: GamePosition, H: GameHandler<P>>(
        &mut self,
        handler: &H,
        pos: P,
        depth: usize,
        max_depth: usize,
        bound: i64,
    ) -> (r: EvalAndPV<P>)
        requires
            handler.wf(),
            depth <= max_depth,
            handler.depth_ok(max_depth as int),
            handler.eval_min() <= bound <= handler.eval_max(),
        ensures
            r.1@.len() == max_depth,
            handler.eval_min() <= r.0 <= handler.eval_max(),
            negamax(handler, pos, depth as int, max_depth as int) < bound
                ==> r.0 == negamax(handler, pos, depth as int, max_depth as int),
            negamax(handler, pos, depth as int, max_depth as int) >= bound
                ==> bound <= r.0 <= negamax(handler, pos, depth as int, max_depth as int),
            handler.eval_min() < r.0 < bound && r.0 < handler.eval_max()
                ==> r.0 == line_eval(handler, pos, depth as int, max_depth as int, r.1@),
            is_leaf(handler, pos, depth as int) ==> {
                &&& r.0 == handler.eval_spec(pos, depth as int, max_depth as int)
                &&& all_none(r.1@)
                &&& final(self).count() == next_count(old(self).count())
            },
        decreases depth,
    {
        let ghost d = depth as int;
        let ghost md = max_depth as int;
        let ghost v = negamax(handler, pos, d, md);
        proof {
            handler.wf_facts();
            lemma_negamax_in_range(handler, pos, d, md);
        }
        if depth == 0 {
            self.increment_leaf_count();
            return (handler.evaluate(pos, depth, max_depth), none_line(max_depth));
        }
        let moves = handler.get_legal_moves(pos);
        if moves.len() == 0 {
            self.increment_leaf_count();
            return (handler.evaluate(pos, depth, max_depth), none_line(max_depth));
        }
        let mut m = handler.eval_minimum();
        let mut pv = none_line(max_depth);
        let mut i: usize = 0;
        while i < moves.len()
            invariant
                i <= moves.len(),
                handler.eval_min() <= m <= handler.eval_max(),
                m <= v,
                pv@.len() == max_depth,
                if i < moves.len() {
                    v == max_i(m as int, best_from(handler, pos, d, md, i as int))
                } else {
                    m == v
                },
                handler.eval_min() < m < handler.eval_max()
                    ==> m == line_eval(handler, pos, d, md, pv@),
            decreases moves.len() - i,
        {
            let mv = moves[i];
            let ghost cv = negamax(handler, pos.play_spec(mv), d - 1, md);
            proof {
                assert(pos.move_ok(handler.moves_spec(pos)[i as int]));
                lemma_negamax_in_range(handler, pos.play_spec(mv), d - 1, md);
            }
            let child = pos.play_move(mv);
            let (t0, mut line) = self.branch_and_bound(handler, child, depth - 1, max_depth, -m);
            let t = -t0;
            let ghost line_before = line@;
            line[max_depth - depth] = Some(mv);
            proof {
                if handler.eval_min() < t0 < -m && t0 < handler.eval_max() {
                    lemma_line_eval_frame(handler, child, d - 1, md, line_before, line@);
                }
            }
            if t > m {
                m = t;
                pv = line;
                if m >= bound {
                    return (m, pv);
                }
            } else {
                if m >= bound {
                    return (m, line);
                }
            }
            i = i + 1;
        }
        (m, pv)
    }

    /// Alpha-beta: the same structure as branch-and-bound, but with a
    /// two-sided window `[alpha, beta]`.  The running best starts at `alpha`,
    /// each child receives the window `[-beta, -best]`, and the node returns
    /// early once its best reaches `beta`.
    ///
    /// The contract is the classical window soundness statement: a value at
    /// or below `alpha` fails low to exactly `alpha` (except at a leaf,
    /// which always returns its evaluation), a value inside the window is
    /// returned exactly and realized by the returned line, and a value at or
    /// above `beta` fails high to a value between `beta` and the game value.
    #[verifier::loop_isolation(false)]
    pub fn alpha_beta<P: GamePosition, H: GameHandler<P>>(
        &mut self,
        handler: &H,
        pos: P,
        depth: usize,
        max_depth: usize,
        alpha: i64,
        beta: i64,
    ) -> (r: EvalAndPV<P>)
        requires
            handler.wf(),
            depth <= max_depth,
            handler.depth_ok(max_depth as int),
            handler.eval_min() <= alpha < beta <= handler.eval_max(),
        ensures
            r.1@.len() == max_depth,
            handler.eval_min() <= r.0 <= handler.eval_max(),
            !is_leaf(handler, pos, depth as int)
                && negamax(handler, pos, depth as int, max_depth as int) <= alpha
                ==> r.0 == alpha,
            alpha < negamax(handler, pos, depth as int, max_depth as int) < beta ==> {
                &&& r.0 == negamax(handler, pos, depth as int, max_depth as int)
                &&& r.0 == line_eval(handler, pos, depth as int, max_depth as int, r.1@)
            },
            negamax(handler, pos, depth as int, max_depth as int) >= beta
                ==> beta <= r.0 <= negamax(handler, pos, depth as int, max_depth as int),
            is_leaf(handler, pos, depth as int) ==> {
                &&& r.0 == handler.eval_spec(pos, depth as int, max_depth as int)
                &&& all_none(r.1@)
                &&& final(self).count() == next_count(old(self).count())
            },
        decreases depth,
    {
        let ghost d = depth as int;
        let ghost md = max_depth as int;
        let ghost v = negamax(handler, pos, d, md);
        proof {
            handler.wf_facts();
            lemma_negamax_in_range(handler, pos, d, md);
        }
        if depth == 0 {
            self.increment_leaf_count();
            return (handler.evaluate(pos, depth, max_depth), none_line(max_depth));
        }
        let moves = handler.get_legal_moves(pos);
        if moves.len() == 0 {
            self.increment_leaf_count();
            return (handler.evaluate(pos, depth, max_depth), none_line(max_depth));
        }
        let mut m = alpha;
        let mut pv = none_line(max_depth);
        let mut i: usize = 0;
        while i < moves.len()
            invariant
                i <= moves.len(),
                alpha <= m <= handler.eval_max(),
                m < beta,
                m <= max_i(alpha as int, v),
                pv@.len() == max_depth,
                if i < moves.len() {
                    max_i(alpha as int, v) == max_i(m as int, best_from(handler, pos, d, md, i as int))
                } else {
                    m == max_i(alpha as int, v)
                },
                alpha < m ==> m == line_eval(handler, pos, d, md, pv@),
            decreases moves.len() - i,
        {
            let mv = moves[i];
            let ghost cv = negamax(handler, pos.play_spec(mv), d - 1, md);
            proof {
                assert(pos.move_ok(handler.moves_spec(pos)[i as int]));
                lemma_negamax_in_range(handler, pos.play_spec(mv), d - 1, md);
            }
            let child = pos.play_move(mv);
            let (t0, mut line) = self.alpha_beta(handler, child, depth - 1, max_depth, -beta, -m);
            let t = -t0;
            let ghost line_before = line@;
            line[max_depth - depth] = Some(mv);
            proof {
                if -beta < cv < -m {
                    lemma_line_eval_frame(handler, child, d - 1, md, line_before, line@);
                }
            }
            if t > m {
                m = t;
                pv = line;
                if m >= beta {
                    return (m, pv);
                }
            } else {
                if m >= beta {
                    return (m, line);
                }
            }
            i = i + 1;
        }
        (m, pv)
    }

    /// The fail-high variant of alpha-beta used as the probing and re-search
    /// engine of the refined algorithms: the running best starts at the
    /// lost-position sentinel, and each child's window lower bound is the
    /// larger of the running best and `alpha`, giving branch-and-bound-style
    /// fail-high behaviour.
    ///
    /// Compared with plain alpha-beta, a fail low is soft: the result lies
    /// between the game value and `alpha`.  A fail high is bracketed between
    /// `beta` and the game value.  Once the running best reaches the
    /// won-position sentinel nothing can improve it, so the remaining
    /// children are not probed.
    #[verifier::loop_isolation(false)]
    pub fn f_alpha_beta<P: GamePosition, H: GameHandler<P>>(
        &mut self,
        handler: &H,
        pos: P,
        depth: usize,
        max_depth: usize,
        alpha: i64,
        beta: i64,
    ) -> (r: EvalAndPV<P>)
        requires
            handler.wf(),
            depth <= max_depth,
            handler.depth_ok(max_depth as int),
            handler.eval_min() - handler.eval_eps() <= alpha < beta
                <= handler.eval_max() + handler.eval_eps(),
            handler.eval_min() < beta,
            alpha < handler.eval_max(),
        ensures
            r.1@.len() == max_depth,
            handler.eval_min() <= r.0 <= handler.eval_max(),
            negamax(handler, pos, depth as int, max_depth as int) <= alpha
                ==> negamax(handler, pos, depth as int, max_depth as int) <= r.0,
            negamax(handler, pos, depth as int, max_depth as int) <= alpha
                && !is_leaf(handler, pos, depth as int) ==> r.0 <= alpha,
            alpha < negamax(handler, pos, depth as int, max_depth as int) < beta
                ==> r.0 == negamax(handler, pos, depth as int, max_depth as int),
            max_i(alpha as int, handler.eval_min() as int)
                < negamax(handler, pos, depth as int, max_depth as int) < beta
                && negamax(handler, pos, depth as int, max_depth as int) < handler.eval_max()
                ==> r.0 == line_eval(handler, pos, depth as int, max_depth as int, r.1@),
            negamax(handler, pos, depth as int, max_depth as int) >= beta
                ==> beta <= r.0 <= negamax(handler, pos, depth as int, max_depth as int),
            is_leaf(handler, pos, depth as int) ==> {
                &&& r.0 == handler.eval_spec(pos, depth as int, max_depth as int)
                &&& all_none(r.1@)
                &&& final(self).count() == next_count(old(self).count())
            },
        decreases depth,
    {
        let ghost d = depth as int;
        let ghost md = max_depth as int;
        let ghost v = negamax(handler, pos, d, md);
        proof {
            handler.wf_facts();
            lemma_negamax_in_range(handler, pos, d, md);
        }
        if depth == 0 {
            self.increment_leaf_count();
            return (handler.evaluate(pos, depth, max_depth), none_line(max_depth));
        }
        let moves = handler.get_legal_moves(pos);
        if moves.len() == 0 {
            self.increment_leaf_count();
            return (handler.evaluate(pos, depth, max_depth), none_line(max_depth));
        }
        let maxv = handler.eval_maximum();
        let mut m = handler.eval_minimum();
        let mut pv = none_line(max_depth);
        let mut i: usize = 0;
        while i < moves.len() && m < maxv
            invariant
                i <= moves.len(),
                handler.eval_min() <= m <= handler.eval_max(),
                m < beta,
                m <= max_i(alpha as int, v),
                pv@.len() == max_depth,
                i < moves.len() ==> v >= best_from(handler, pos, d, md, i as int),
                if i < moves.len() {
                    v <= max_i(m as int, best_from(handler, pos, d, md, i as int))
                } else {
                    v <= m
                },
                max_i(alpha as int, handler.eval_min() as int) < m < handler.eval_max()
                    ==> m == line_eval(handler, pos, d, md, pv@),
            decreases moves.len() - i,
        {
            let mv = moves[i];
            let ghost cv = negamax(handler, pos.play_spec(mv), d - 1, md);
            proof {
                assert(pos.move_ok(handler.moves_spec(pos)[i as int]));
                lemma_negamax_in_range(handler, pos.play_spec(mv), d - 1, md);
            }
            let child = pos.play_move(mv);
            let bound = if m > alpha {
                m
            } else {
                alpha
            };
            let (t0, mut line) = self.f_alpha_beta(
                handler,
                child,
                depth - 1,
                max_depth,
                -beta,
                -bound,
            );
            let t = -t0;
            let ghost line_before = line@;
            line[max_depth - depth] = Some(mv);
            proof {
                lemma_line_eval_frame(handler, child, d - 1, md, line_before, line@);
            }
            if t > m {
                m = t;
                pv = line;
                if m >= beta {
                    return (m, pv);
                }
            } else {
                if m >= beta {
                    return (m, line);
                }
            }
            i = i + 1;
        }
        proof {
            if m >= handler.eval_max() {
                assert(v <= m);
            }
        }
        (m, pv)
    }

    /// Refined alpha-beta: the first child is searched in full; every later
    /// child is first probed with a null window one epsilon wide, and only a
    /// child whose probe shows it can improve the running best is re-searched
    /// in full, both times through [`Self::f_alpha_beta`].  The re-search
    /// window opens one epsilon above the probe's certified lower bound, so
    /// the improved child is searched as an interior value and comes back
    /// exact rather than failing high at its own boundary.
    ///
    /// The result is always the exact game value and, away from the
    /// sentinels, is realized by the returned line.  Once the running best
    /// reaches the won-position sentinel nothing can improve it, so the
    /// remaining children are not probed.
    #[verifier::loop_isolation(false)]
    pub fn p_alpha_beta<P: GamePosition, H: GameHandler<P>>(
        &mut self,
        handler: &H,
        pos: P,
        depth: usize,
        max_depth: usize,
    ) -> (r: EvalAndPV<P>)
        requires
            handler.wf(),
            depth <= max_depth,
            handler.depth_ok(max_depth as int),
        ensures
            r.1@.len() == max_depth,
            handler.eval_min() <= r.0 <= handler.eval_max(),
            r.0 == negamax(handler, pos, depth as int, max_depth as int),
            handler.eval_min() < negamax(handler, pos, depth as int, max_depth as int)
                < handler.eval_max()
                ==> r.0 == line_eval(handler, pos, depth as int, max_depth as int, r.1@),
            is_leaf(handler, pos, depth as int) ==> {
                &&& all_none(r.1@)
                &&& final(self).count() == next_count(old(self).count())
            },
        decreases depth,
    {
        let ghost d = depth as int;
        let ghost md = max_depth as int;
        let ghost v = negamax(handler, pos, d, md);
        proof {
            handler.wf_facts();
            lemma_negamax_in_range(handler, pos, d, md);
        }
        if depth == 0 {
            self.increment_leaf_count();
            return (handler.evaluate(pos, depth, max_depth), none_line(max_depth));
        }
        let moves = handler.get_legal_moves(pos);
        if moves.len() == 0 {
            self.increment_leaf_count();
            return (handler.evaluate(pos, depth, max_depth), none_line(max_depth));
        }
        let minv = handler.eval_minimum();
        let maxv = handler.eval_maximum();
        let eps = handler.eval_epsilon();
        let first = moves[0];
        proof {
            assert(pos.move_ok(handler.moves_spec(pos)[0]));
            lemma_negamax_in_range(handler, pos.play_spec(first), d - 1, md);
        }
        let first_child = pos.play_move(first);
        let (m0, mut line) = self.p_alpha_beta(handler, first_child, depth - 1, max_depth);
        let mut m = -m0;
        let ghost first_line = line@;
        line[max_depth - depth] = Some(first);
        proof {
            lemma_line_eval_frame(handler, first_child, d - 1, md, first_line, line@);
        }
        let mut pv = line;
        let mut i: usize = 1;
        while i < moves.len() && m < maxv
            invariant
                1 <= i <= moves.len(),
                handler.eval_min() <= m <= handler.eval_max(),
                m <= v,
                pv@.len() == max_depth,
                if i < moves.len() {
                    v == max_i(m as int, best_from(handler, pos, d, md, i as int))
                } else {
                    v == m
                },
                handler.eval_min() < m < handler.eval_max()
                    ==> m == line_eval(handler, pos, d, md, pv@),
            decreases moves.len() - i,
        {
            let mv = moves[i];
            let ghost cv = negamax(handler, pos.play_spec(mv), d - 1, md);
            proof {
                assert(pos.move_ok(handler.moves_spec(pos)[i as int]));
                lemma_negamax_in_range(handler, pos.play_spec(mv), d - 1, md);
            }
            let child = pos.play_move(mv);
            let probe = self.f_alpha_beta(
                handler,
                child,
                depth - 1,
                max_depth,
                -m - eps,
                -m,
            );
            let t = -probe.0;
            if t > m {
                let (r2, mut line2) = self.f_alpha_beta(
                    handler,
                    child,
                    depth - 1,
                    max_depth,
                    minv,
                    -t + eps,
                );
                let ghost line2_before = line2@;
                line2[max_depth - depth] = Some(mv);
                proof {
                    lemma_line_eval_frame(handler, child, d - 1, md, line2_before, line2@);
                }
                m = -r2;
                pv = line2;
            }
            i = i + 1;
        }
        proof {
            if m >= handler.eval_max() {
                assert(v <= m);
            }
        }
        (m, pv)
    }

    /// Principal-variation search: the first child is searched with the full
    /// window, every later child is probed with a null window at the larger
    /// of the running best and `alpha`, and only a child whose probe exceeds
    /// the running best is re-searched, all through recursive calls of this
    /// same procedure.  The node returns early once its best reaches `beta`.
    ///
    /// Two boundary details make the windowed result provable.  The
    /// re-search window opens one epsilon above the probe's certified lower
    /// bound (and is capped at `beta`), so a child whose value sits exactly
    /// on that bound is searched as an interior value rather than failing
    /// high at its own boundary.  And the running best keeps the larger of
    /// itself and the re-search result: for a deterministic handler the
    /// re-search never undercuts the best, and taking the maximum makes
    /// that explicit.
    ///
    /// The contract is the fail-soft envelope: the result lies between
    /// `min(beta, negamax)` and `max(alpha, negamax)`, so a fail low proves
    /// the game value at most `alpha`, a fail high brackets the result in
    /// `[beta, negamax]`, and a game value strictly inside the window is
    /// returned exactly — and, away from the sentinels, realized by the
    /// returned line.
    #[verifier::loop_isolation(false)]
    pub fn pvs<P: GamePosition, H: GameHandler<P>>(
        &mut self,
        handler: &H,
        pos: P,
        depth: usize,
        max_depth: usize,
        alpha: i64,
        beta: i64,
    ) -> (r: EvalAndPV<P>)
        requires
            handler.wf(),
            depth <= max_depth,
            handler.depth_ok(max_depth as int),
            handler.eval_min() - handler.eval_eps() <= alpha < beta
                <= handler.eval_max() + handler.eval_eps(),
            handler.eval_min() < beta,
            alpha < handler.eval_max(),
        ensures
            r.1@.len() == max_depth,
            handler.eval_min() <= r.0 <= handler.eval_max(),
            r.0 >= min_i(beta as int, negamax(handler, pos, depth as int, max_depth as int)),
            r.0 <= max_i(alpha as int, negamax(handler, pos, depth as int, max_depth as int)),
            alpha < negamax(handler, pos, depth as int, max_depth as int) < beta
                ==> r.0 == negamax(handler, pos, depth as int, max_depth as int),
            max_i(alpha as int, handler.eval_min() as int)
                < negamax(handler, pos, depth as int, max_depth as int) < beta
                && negamax(handler, pos, depth as int, max_depth as int) < handler.eval_max()
                ==> r.0 == line_eval(handler, pos, depth as int, max_depth as int, r.1@),
            is_leaf(handler, pos, depth as int) ==> {
                &&& r.0 == handler.eval_spec(pos, depth as int, max_depth as int)
                &&& all_none(r.1@)
                &&& final(self).count() == next_count(old(self).count())
            },
        decreases depth,
    {
        let ghost d = depth as int;
        let ghost md = max_depth as int;
        let ghost v = negamax(handler, pos, d, md);
        proof {
            handler.wf_facts();
            lemma_negamax_in_range(handler, pos, d, md);
        }
        if depth == 0 {
            self.increment_leaf_count();
            return (handler.evaluate(pos, depth, max_depth), none_line(max_depth));
        }
        let moves = handler.get_legal_moves(pos);
        if moves.len() == 0 {
            self.increment_leaf_count();
            return (handler.evaluate(pos, depth, max_depth), none_line(max_depth));
        }
        let maxv = handler.eval_maximum();
        let eps = handler.eval_epsilon();
        let first = moves[0];
        let ghost cv1 = negamax(handler, pos.play_spec(first), d - 1, md);
        proof {
            assert(pos.move_ok(handler.moves_spec(pos)[0]));
            lemma_negamax_in_range(handler, pos.play_spec(first), d - 1, md);
        }
        let first_child = pos.play_move(first);
        let (m0, mut line) = self.pvs(handler, first_child, depth - 1, max_depth, -beta, -alpha);
        let mut m = -m0;
        let ghost first_line = line@;
        line[max_depth - depth] = Some(first);
        proof {
            lemma_line_eval_frame(handler, first_child, d - 1, md, first_line, line@);
        }
        let mut pv = line;
        if m < beta {
            let mut i: usize = 1;
            while i < moves.len() && m < maxv
                invariant
                    1 <= i <= moves.len(),
                    handler.eval_min() <= m <= handler.eval_max(),
                    m < beta,
                    pv@.len() == max_depth,
                    m <= max_i(alpha as int, v),
                    i < moves.len() ==> v >= best_from(handler, pos, d, md, i as int),
                    if i < moves.len() {
                        min_i(beta as int, v) <= max_i(
                            m as int,
                            min_i(beta as int, best_from(handler, pos, d, md, i as int)),
                        )
                    } else {
                        min_i(beta as int, v) <= m
                    },
                    max_i(alpha as int, handler.eval_min() as int) < m < handler.eval_max()
                        ==> m == line_eval(handler, pos, d, md, pv@),
                decreases moves.len() - i,
            {
                let mv = moves[i];
                let ghost cv = negamax(handler, pos.play_spec(mv), d - 1, md);
                proof {
                    assert(pos.move_ok(handler.moves_spec(pos)[i as int]));
                    lemma_negamax_in_range(handler, pos.play_spec(mv), d - 1, md);
                }
                let child = pos.play_move(mv);
                let bound = if m > alpha {
                    m
                } else {
                    alpha
                };
                let probe = self.pvs(
                    handler,
                    child,
                    depth - 1,
                    max_depth,
                    -bound - eps,
                    -bound,
                );
                let t = -probe.0;
                if t > m {
                    let tr = if t < beta {
                        t
                    } else {
                        beta
                    };
                    let (r2, mut line2) = self.pvs(
                        handler,
                        child,
                        depth - 1,
                        max_depth,
                        -beta,
                        -tr + eps,
                    );
                    let cand = -r2;
                    let ghost line2_before = line2@;
                    line2[max_depth - depth] = Some(mv);
                    proof {
                        lemma_line_eval_frame(handler, child, d - 1, md, line2_before, line2@);
                    }
                    if cand > m {
                        m = cand;
                        pv = line2;
                    }
                }
                if m >= beta {
                    return (m, pv);
                }
                i = i + 1;
            }
        }
        proof {
            if m >= handler.eval_max() {
                assert(v <= max_i(alpha as int, v));
            }
        }
        (m, pv)
    }

    /// Scout: the first child is searched in full; every later child is
    /// first put to the boolean feasibility test with the negated running
    /// best as threshold, and only a child the test cannot refute is
    /// re-searched in full.  The result is always the exact game value and
    /// is realized by the returned line.
    #[verifier::loop_isolation(false)]
    pub fn scout<P: GamePosition, H: GameHandler<P>>(
        &mut self,
        handler: &H,
        pos: P,
        depth: usize,
        max_depth: usize,
    ) -> (r: EvalAndPV<P>)
        requires
            handler.wf(),
            depth <= max_depth,
            handler.depth_ok(max_depth as int),
        ensures
            r.1@.len() == max_depth,
            handler.eval_min() <= r.0 <= handler.eval_max(),
            r.0 == negamax(handler, pos, depth as int, max_depth as int),
            r.0 == line_eval(handler, pos, depth as int, max_depth as int, r.1@),
            is_leaf(handler, pos, depth as int) ==> {
                &&& all_none(r.1@)
                &&& final(self).count() == next_count(old(self).count())
            },
        decreases depth,
    {
        let ghost d = depth as int;
        let ghost md = max_depth as int;
        let ghost v = negamax(handler, pos, d, md);
        proof {
            handler.wf_facts();
            lemma_negamax_in_range(handler, pos, d, md);
        }
        if depth == 0 {
            self.increment_leaf_count();
            return (handler.evaluate(pos, depth, max_depth), none_line(max_depth));
        }
        let moves = handler.get_legal_moves(pos);
        if moves.len() == 0 {
            self.increment_leaf_count();
            return (handler.evaluate(pos, depth, max_depth), none_line(max_depth));
        }
        let first = moves[0];
        proof {
            assert(pos.move_ok(handler.moves_spec(pos)[0]));
            lemma_negamax_in_range(handler, pos.play_spec(first), d - 1, md);
        }
        let first_child = pos.play_move(first);
        let (m0, mut line) = self.scout(handler, first_child, depth - 1, max_depth);
        let mut m = -m0;
        let ghost first_line = line@;
        line[max_depth - depth] = Some(first);
        proof {
            lemma_line_eval_frame(handler, first_child, d - 1, md, first_line, line@);
        }
        let mut pv = line;
        let mut i: usize = 1;
        while i < moves.len()
            invariant
                1 <= i <= moves.len(),
                handler.eval_min() <= m <= handler.eval_max(),
                pv@.len() == max_depth,
                if i < moves.len() {
                    v == max_i(m as int, best_from(handler, pos, d, md, i as int))
                } else {
                    v == m
                },
                m == line_eval(handler, pos, d, md, pv@),
            decreases moves.len() - i,
        {
            let mv = moves[i];
            let ghost cv = negamax(handler, pos.play_spec(mv), d - 1, md);
            proof {
                assert(pos.move_ok(handler.moves_spec(pos)[i as int]));
                lemma_negamax_in_range(handler, pos.play_spec(mv), d - 1, md);
            }
            let child = pos.play_move(mv);
            if !self.test(handler, child, depth - 1, max_depth, -m, false) {
                let (m2, mut line2) = self.scout(handler, child, depth - 1, max_depth);
                let ghost line_before = line2@;
                line2[max_depth - depth] = Some(mv);
                proof {
                    lemma_line_eval_frame(handler, child, d - 1, md, line_before, line2@);
                }
                m = -m2;
                pv = line2;
            }
            i = i + 1;
        }
        (m, pv)
    }

    /// The boolean feasibility test behind scout: decides whether the game
    /// value of `pos` reaches the threshold `v` — at least `v` when `op`
    /// holds, strictly above `v` otherwise.  An internal node holds the
    /// threshold exactly when some child's test with negated threshold and
    /// inverted polarity fails to refute it.
    #[verifier::loop_isolation(false)]
    pub fn test<P: GamePosition, H: GameHandler<P>>(
        &mut self,
        handler: &H,
        pos: P,
        depth: usize,
        max_depth: usize,
        v: i64,
        op: bool,
    ) -> (r: bool)
        requires
            handler.wf(),
            depth <= max_depth,
            handler.depth_ok(max_depth as int),
            handler.eval_min() <= v <= handler.eval_max(),
        ensures
            r == if op {
                negamax(handler, pos, depth as int, max_depth as int) >= v
            } else {
                negamax(handler, pos, depth as int, max_depth as int) > v
            },
            is_leaf(handler, pos, depth as int)
                ==> final(self).count() == next_count(old(self).count()),
        decreases depth,
    {
        let ghost d = depth as int;
        let ghost md = max_depth as int;
        proof {
            handler.wf_facts();
        }
        if depth == 0 {
            self.increment_leaf_count();
            let e = handler.evaluate(pos, depth, max_depth);
            return if op {
                e >= v
            } else {
                e > v
            };
        }
        let moves = handler.get_legal_moves(pos);
        if moves.len() == 0 {
            self.increment_leaf_count();
            let e = handler.evaluate(pos, depth, max_depth);
            return if op {
                e >= v
            } else {
                e > v
            };
        }
        let mut i: usize = 0;
        while i < moves.len()
            invariant
                i <= moves.len(),
                forall|j: int| 0 <= j < i ==> if op {
                    -negamax(
                        handler,
                        pos.play_spec(#[trigger] handler.moves_spec(pos)[j]),
                        d - 1,
                        md,
                    ) < v
                } else {
                    -negamax(
                        handler,
                        pos.play_spec(#[trigger] handler.moves_spec(pos)[j]),
                        d - 1,
                        md,
                    ) <= v
                },
            decreases moves.len() - i,
        {
            let mv = moves[i];
            proof {
                assert(pos.move_ok(handler.moves_spec(pos)[i as int]));
            }
            if !self.test(handler, pos.play_move(mv), depth - 1, max_depth, -v, !op) {
                proof {
                    lemma_best_from_ge(handler, pos, d, md, 0, i as int);
                }
                return true;
            }
            i = i + 1;
        }
        proof {
            if op {
                lemma_best_from_ub(handler, pos, d, md, 0, v - 1);
            } else {
                lemma_best_from_ub(handler, pos, d, md, 0, v as int);
            }
        }
        false
    }
}

} // verus!
