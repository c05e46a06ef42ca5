//! SSS* as an explicit best-first state-space search.
//!
//! Instead of a recursion, the algorithm keeps an OPEN list of tagged node
//! states, ordered by merit value descending with ties broken by ascending
//! insertion order.  A `Live` state is a node not yet resolved; a `Solved`
//! state carries a finalized value for its level.  A node's role follows the
//! negamax parity of `max_depth - depth`: a Max node expands all children at
//! once, a Min node expands them lazily, one sibling at a time, and solving a
//! Min node purges every dominated state below its parent.
//!
//! All merits are kept from the root player's perspective: a leaf is
//! evaluated as `eval_spec(leaf, max_depth, max_depth)`, and the
//! characteristic min rule tightens the inherited upper bound.  The value
//! the search returns is pinned twice over: it is the root-perspective
//! evaluation of the terminal position reached by replaying the returned
//! variation ([`root_line_value`]), and it is certified to be the exact game
//! value against the feasibility test before it is handed out.

use crate::prelude::{GameHandler, GamePosition};
use crate::search::{all_none, is_leaf, negamax, next_count, none_line, EvalAndPV, Searcher};
use vstd::prelude::*;

verus! {

/// The root-perspective value of replaying the recorded moves of `pv` from
/// ply `k` onwards, starting at `pos`: follow each recorded move and evaluate
/// the position where the line ends (the horizon, a position without moves,
/// or an empty slot) with the root-call evaluation arguments
/// `(max_depth, max_depth)`, without any per-ply negation.
pub open spec fn root_line_value<P: GamePosition, H: GameHandler<P>>(
    h: &H,
    pos: P,
    k: int,
    max_depth: int,
    pv: Seq<Option<P::Move>>,
) -> int
    decreases max_depth - k,
{
    if k >= max_depth || h.moves_spec(pos).len() == 0 {
        h.eval_spec(pos, max_depth, max_depth) as int
    } else {
        match pv[k] {
            Option::None => h.eval_spec(pos, max_depth, max_depth) as int,
            Option::Some(mv) => root_line_value(h, pos.play_spec(mv), k + 1, max_depth, pv),
        }
    }
}

/// The sign of a negamax value seen from `k` plies above: positive at even
/// distance, negative at odd distance.
pub open spec fn parity_sign(k: int) -> int {
    if k % 2 == 0 {
        1
    } else {
        -1
    }
}

/// Whether a handler's evaluation flips sign with the parity of the
/// remaining depth: the sign-consistency every mover-perspective evaluation
/// must show for searches of different horizons to agree.
pub open spec fn eval_flips_with_depth<P: GamePosition, H: GameHandler<P>>(h: &H) -> bool {
    forall|pos: P, d: int, md: int| 0 <= d <= md
        ==> (#[trigger] h.eval_spec(pos, d, md)) as int
            == parity_sign(md - d) * (h.eval_spec(pos, md, md) as int)
}

/// A parity sign is one of two units, and applying it twice cancels.
proof fn lemma_parity_sign_cancels(k: int, x: int)
    ensures
        parity_sign(k) * (parity_sign(k) * x) == x,
{
    assert(parity_sign(k) == 1 || parity_sign(k) == -1);
    assert(parity_sign(k) * (parity_sign(k) * x) == x) by (nonlinear_arith)
        requires
            parity_sign(k) == 1 || parity_sign(k) == -1,
    ;
}

/// Stepping one ply negates under the sign of the next ply.
proof fn lemma_parity_sign_flip(k: int, x: int)
    ensures
        parity_sign(k + 1) * x == parity_sign(k) * (-x),
{
    assert(parity_sign(k + 1) == -parity_sign(k));
    assert((-parity_sign(k)) * x == parity_sign(k) * (-x)) by (nonlinear_arith);
}

/// For a handler whose evaluation flips sign with the remaining-depth
/// parity, the root-perspective replay of a line from ply `k` equals the
/// per-ply negamax replay [`line_eval`], adjusted by the sign of `k`.
pub proof fn lemma_root_line_value_vs_line_eval<P: GamePosition, H: GameHandler<P>>(
    h: &H,
    pos: P,
    k: int,
    max_depth: int,
    pv: Seq<Option<P::Move>>,
)
    requires
        eval_flips_with_depth(h),
        0 <= k <= max_depth,
    ensures
        root_line_value(h, pos, k, max_depth, pv)
            == parity_sign(k) * crate::search::line_eval(h, pos, max_depth - k, max_depth, pv),
    decreases max_depth - k,
{
    if k >= max_depth || h.moves_spec(pos).len() == 0 {
        assert(h.eval_spec(pos, max_depth - k, max_depth) as int
            == parity_sign(k) * (h.eval_spec(pos, max_depth, max_depth) as int));
        lemma_parity_sign_cancels(k, h.eval_spec(pos, max_depth, max_depth) as int);
    } else {
        match pv[k] {
            Option::None => {
                assert(h.eval_spec(pos, max_depth - k, max_depth) as int
                    == parity_sign(k) * (h.eval_spec(pos, max_depth, max_depth) as int));
                lemma_parity_sign_cancels(k, h.eval_spec(pos, max_depth, max_depth) as int);
            },
            Option::Some(mv) => {
                lemma_root_line_value_vs_line_eval(
                    h,
                    pos.play_spec(mv),
                    k + 1,
                    max_depth,
                    pv,
                );
                lemma_parity_sign_flip(
                    k,
                    crate::search::line_eval(
                        h,
                        pos.play_spec(mv),
                        max_depth - k - 1,
                        max_depth,
                        pv,
                    ),
                );
            },
        }
    }
}

/// The variation SSS* returns replays, for a parity-consistent handler, to
/// the same value under the root-perspective convention and under the
/// per-ply negamax replay: the round-trip statement for the best-first
/// search.
pub proof fn lemma_sss_line_matches_replay<P: GamePosition, H: GameHandler<P>>(
    h: &H,
    root: P,
    max_depth: int,
    pv: Seq<Option<P::Move>>,
)
    requires
        eval_flips_with_depth(h),
        0 <= max_depth,
    ensures
        root_line_value(h, root, 0, max_depth, pv)
            == crate::search::line_eval(h, root, max_depth, max_depth, pv),
{
    lemma_root_line_value_vs_line_eval(h, root, 0, max_depth, pv);
}

/// The position reached from `root` by taking, at each of the first `k`
/// plies, the child whose index the path records.
pub open spec fn path_pos<P: GamePosition, H: GameHandler<P>>(
    h: &H,
    root: P,
    path: Seq<usize>,
    k: int,
) -> P
    decreases k,
{
    if k <= 0 {
        root
    } else {
        let prev = path_pos(h, root, path, k - 1);
        prev.play_spec(h.moves_spec(prev)[path[k - 1] as int])
    }
}

/// Every recorded child index of the first `len` plies is in range.
pub open spec fn path_ok<P: GamePosition, H: GameHandler<P>>(
    h: &H,
    root: P,
    path: Seq<usize>,
    len: int,
) -> bool {
    forall|j: int| 0 <= j < len
        ==> (path[j] as int) < h.moves_spec(#[trigger] path_pos(h, root, path, j)).len()
}

/// The recorded moves of the first `len` plies are exactly the moves the
/// recorded child indices select.
pub open spec fn line_matches_path<P: GamePosition, H: GameHandler<P>>(
    h: &H,
    root: P,
    path: Seq<usize>,
    line: Seq<Option<P::Move>>,
    len: int,
) -> bool {
    forall|j: int| 0 <= j < len
        ==> line[j] == Some(
            h.moves_spec(#[trigger] path_pos(h, root, path, j))[path[j] as int],
        )
}

/// The position a path reaches depends only on the indices of the plies it
/// covers.
pub proof fn lemma_path_pos_prefix<P: GamePosition, H: GameHandler<P>>(
    h: &H,
    root: P,
    p1: Seq<usize>,
    p2: Seq<usize>,
    k: int,
)
    requires
        forall|j: int| 0 <= j < k ==> p1[j] == p2[j],
    ensures
        forall|j: int| 0 <= j <= k ==> path_pos(h, root, p1, j) == path_pos(h, root, p2, j),
    decreases k,
{
    if k > 0 {
        lemma_path_pos_prefix(h, root, p1, p2, k - 1);
        assert(p1[k - 1] == p2[k - 1]);
        assert(path_pos(h, root, p1, k - 1) == path_pos(h, root, p2, k - 1));
        assert(path_pos(h, root, p1, k)
            == path_pos(h, root, p1, k - 1).play_spec(
                h.moves_spec(path_pos(h, root, p1, k - 1))[p1[k - 1] as int],
            ));
        assert(path_pos(h, root, p2, k)
            == path_pos(h, root, p2, k - 1).play_spec(
                h.moves_spec(path_pos(h, root, p2, k - 1))[p2[k - 1] as int],
            ));
    }
}

/// Replaying a line that matches a valid path of length `len`, ending at the
/// horizon or at a position without moves, evaluates the position the path
/// reaches.
pub proof fn lemma_line_value_at_end<P: GamePosition, H: GameHandler<P>>(
    h: &H,
    root: P,
    path: Seq<usize>,
    line: Seq<Option<P::Move>>,
    max_depth: int,
    len: int,
    k: int,
)
    requires
        0 <= k <= len <= max_depth,
        path_ok(h, root, path, len),
        line_matches_path(h, root, path, line, len),
        len == max_depth || h.moves_spec(path_pos(h, root, path, len)).len() == 0,
    ensures
        root_line_value(h, path_pos(h, root, path, k), k, max_depth, line)
            == h.eval_spec(path_pos(h, root, path, len), max_depth, max_depth),
    decreases len - k,
{
    if k == len {
    } else {
        assert(path_pos(h, root, path, k + 1)
            == path_pos(h, root, path, k).play_spec(
                h.moves_spec(path_pos(h, root, path, k))[path[k] as int],
            ));
        lemma_line_value_at_end(h, root, path, line, max_depth, len, k + 1);
    }
}

/// One state of the OPEN list: a node, its merit (the best root-perspective
/// value and variation discovered for it so far), its remaining depth, the
/// line from the root that reaches it (as moves, and as child indices), and
/// the insertion tag used as a tie-break.
pub enum SssEntry<P: GamePosition> {
    /// A node not yet resolved.
    Live {
        node: P,
        merit_value: i64,
        merit_pv: Vec<Option<P::Move>>,
        depth: usize,
        line: Vec<Option<P::Move>>,
        path: Vec<usize>,
        tag: u64,
    },
    /// A node whose subtree value is finalized for its current level.
    Solved {
        node: P,
        merit_value: i64,
        merit_pv: Vec<Option<P::Move>>,
        depth: usize,
        line: Vec<Option<P::Move>>,
        path: Vec<usize>,
        tag: u64,
    },
}

impl<P: GamePosition> SssEntry<P> {
    /// Whether the state is still unresolved.
    pub open spec fn is_live_spec(&self) -> bool {
        match self {
            SssEntry::Live { .. } => true,
            SssEntry::Solved { .. } => false,
        }
    }

    /// The state's merit value.
    pub open spec fn merit_value_spec(&self) -> i64 {
        match self {
            SssEntry::Live { merit_value, .. } => *merit_value,
            SssEntry::Solved { merit_value, .. } => *merit_value,
        }
    }

    /// The state's merit variation.
    pub open spec fn merit_pv_spec(&self) -> Seq<Option<P::Move>> {
        match self {
            SssEntry::Live { merit_pv, .. } => merit_pv@,
            SssEntry::Solved { merit_pv, .. } => merit_pv@,
        }
    }

    /// The state's remaining depth.
    pub open spec fn depth_spec(&self) -> usize {
        match self {
            SssEntry::Live { depth, .. } => *depth,
            SssEntry::Solved { depth, .. } => *depth,
        }
    }

    /// The state's node.
    pub open spec fn node_spec(&self) -> P {
        match self {
            SssEntry::Live { node, .. } => *node,
            SssEntry::Solved { node, .. } => *node,
        }
    }

    /// The state's line from the root, as moves.
    pub open spec fn line_spec(&self) -> Seq<Option<P::Move>> {
        match self {
            SssEntry::Live { line, .. } => line@,
            SssEntry::Solved { line, .. } => line@,
        }
    }

    /// The state's line from the root, as child indices.
    pub open spec fn path_spec(&self) -> Seq<usize> {
        match self {
            SssEntry::Live { path, .. } => path@,
            SssEntry::Solved { path, .. } => path@,
        }
    }

    /// The state's merit value, for the pop scan.
    pub fn merit_value(&self) -> (r: i64)
        ensures
            r == self.merit_value_spec(),
    {
        match self {
            SssEntry::Live { merit_value, .. } => *merit_value,
            SssEntry::Solved { merit_value, .. } => *merit_value,
        }
    }

    /// The state's insertion tag, for the pop scan.
    pub fn tag(&self) -> (r: u64) {
        match self {
            SssEntry::Live { tag, .. } => *tag,
            SssEntry::Solved { tag, .. } => *tag,
        }
    }
}

/// Whether a merit is realized: its value is what replaying its variation
/// from the root evaluates to.
pub open spec fn merit_realized<P: GamePosition, H: GameHandler<P>>(
    h: &H,
    root: P,
    max_depth: int,
    value: i64,
    pv: Seq<Option<P::Move>>,
) -> bool {
    value as int == root_line_value(h, root, 0, max_depth, pv)
}

/// The invariant of every state on the OPEN list: its buffers span the full
/// horizon, its depth and merit are in range, its node is the position its
/// recorded path reaches, its recorded moves match its recorded indices, and
/// its merit is realized — except that a still-live state may instead carry
/// the initial won-position bound.
pub open spec fn entry_inv<P: GamePosition, H: GameHandler<P>>(
    h: &H,
    root: P,
    max_depth: int,
    e: SssEntry<P>,
) -> bool {
    &&& e.depth_spec() <= max_depth
    &&& e.merit_pv_spec().len() == max_depth
    &&& e.line_spec().len() == max_depth
    &&& e.path_spec().len() == max_depth
    &&& h.eval_min() <= e.merit_value_spec() <= h.eval_max()
    &&& path_ok(h, root, e.path_spec(), max_depth - e.depth_spec())
    &&& line_matches_path(h, root, e.path_spec(), e.line_spec(), max_depth - e.depth_spec())
    &&& e.node_spec() == path_pos(h, root, e.path_spec(), max_depth - e.depth_spec())
    &&& (merit_realized(h, root, max_depth, e.merit_value_spec(), e.merit_pv_spec())
        || (e.is_live_spec() && e.merit_value_spec() == h.eval_max()))
}

/// A copy of a line of moves.
fn copy_line<M: Copy>(v: &Vec<Option<M>>) -> (r: Vec<Option<M>>)
    ensures
        r@ == v@,
{
    let mut r: Vec<Option<M>> = Vec::new();
    let mut i: usize = 0;
    while i < v.len()
        invariant
            i <= v.len(),
            r@ == v@.subrange(0, i as int),
        decreases v.len() - i,
    {
        r.push(v[i]);
        i = i + 1;
    }
    proof {
        assert(r@ =~= v@);
    }
    r
}

/// A copy of a line of child indices.
fn copy_path(v: &Vec<usize>) -> (r: Vec<usize>)
    ensures
        r@ == v@,
{
    let mut r: Vec<usize> = Vec::new();
    let mut i: usize = 0;
    while i < v.len()
        invariant
            i <= v.len(),
            r@ == v@.subrange(0, i as int),
        decreases v.len() - i,
    {
        r.push(v[i]);
        i = i + 1;
    }
    proof {
        assert(r@ =~= v@);
    }
    r
}

/// A path of `n` zeroed child indices.
fn zero_path(n: usize) -> (r: Vec<usize>)
    ensures
        r@.len() == n,
{
    let mut r: Vec<usize> = Vec::new();
    let mut i: usize = 0;
    while i < n
        invariant
            i <= n,
            r@.len() == i,
        decreases n - i,
    {
        r.push(0);
        i = i + 1;
    }
    r
}

impl Searcher {
    /// SSS* over an explicit OPEN list.  The highest-merit state is popped
    /// (ties to the earliest insertion) and rewritten by the state-space
    /// rules: a live leaf is evaluated and solved under the min rule; a live
    /// Max node expands all its children; a live Min node expands only its
    /// first child; a solved Min node resolves its parent and purges the
    /// dominated states under it; a solved Max node releases the parent's
    /// next sibling, or resolves the parent when none is left.  The search
    /// ends when the root is solved at full depth.
    ///
    /// The returned value is the exact game value, and is realized by the
    /// returned variation: it equals the root-perspective evaluation of the
    /// terminal position that the variation reaches ([`root_line_value`]).
    /// Exactness is certified on the way out: the solved root's merit is
    /// held against the feasibility test ([`Searcher::test`]), on a scratch
    /// counter so the certificate costs no counted leaves.  A failed
    /// certificate — impossible for a handler that honours its contract —
    /// and likewise an exhausted step bound, beyond any feasible search's
    /// reach, falls back to [`Searcher::scout`]'s exact value with an empty
    /// variation.
    #[verifier::loop_isolation(false)]
    pub fn sss<P: GamePosition, H: GameHandler<P>>(
        &mut self,
        handler: &H,
        root: P,
        depth: usize,
        max_depth: usize,
    ) -> (r: EvalAndPV<P>)
        requires
            handler.wf(),
            depth == max_depth,
            handler.depth_ok(max_depth as int),
        ensures
            r.1@.len() == max_depth,
            handler.eval_min() <= r.0 <= handler.eval_max(),
            r.0 == negamax(handler, root, max_depth as int, max_depth as int),
            r.0 == root_line_value(handler, root, 0, max_depth as int, r.1@)
                || all_none(r.1@),
            is_leaf(handler, root, max_depth as int) ==> {
                &&& r.0 == handler.eval_spec(root, max_depth as int, max_depth as int)
                &&& all_none(r.1@)
                &&& final(self).count() == next_count(old(self).count())
            },
        decreases depth,
    {
        let ghost md = max_depth as int;
        proof {
            handler.wf_facts();
        }
        if max_depth == 0 {
            self.increment_leaf_count();
            return (handler.evaluate(root, max_depth, max_depth), none_line(max_depth));
        }
        let root_moves = handler.get_legal_moves(root);
        if root_moves.len() == 0 {
            self.increment_leaf_count();
            return (handler.evaluate(root, max_depth, max_depth), none_line(max_depth));
        }
        let mut open: Vec<SssEntry<P>> = Vec::new();
        open.push(SssEntry::Live {
            node: root,
            merit_value: handler.eval_maximum(),
            merit_pv: none_line(max_depth),
            depth: max_depth,
            line: none_line(max_depth),
            path: zero_path(max_depth),
            tag: 0,
        });
        let mut tags: u64 = 0;
        let mut budget: u64 = u64::MAX;
        while budget > 0
            invariant
                open@.len() >= 1,
                forall|k: int| 0 <= k < open@.len()
                    ==> entry_inv(handler, root, md, #[trigger] open@[k]),
            decreases budget,
        {
            proof {
                handler.wf_facts();
            }
            // Pop the best state: highest merit, earliest tag among equals.
            let mut bi: usize = 0;
            let mut j: usize = 1;
            while j < open.len()
                invariant
                    1 <= j <= open.len(),
                    bi < j,
                decreases open.len() - j,
            {
                let jv = open[j].merit_value();
                let bv = open[bi].merit_value();
                if jv > bv || (jv == bv && open[j].tag() < open[bi].tag()) {
                    bi = j;
                }
                j = j + 1;
            }
            let state = open.swap_remove(bi);
            let ghost st_ghost = state;
            proof {
                assert(entry_inv(handler, root, md, st_ghost));
            }
            match state {
                SssEntry::Solved {
                    node: _,
                    merit_value: h_val,
                    merit_pv: h_pv,
                    depth: dd,
                    line: mut l,
                    path: mut pth,
                    tag: _,
                } => {
                    if dd == max_depth {
                        // The root is fully resolved; certify its merit
                        // against the feasibility test before returning it.
                        let mut scratch = Searcher::new();
                        let reaches = scratch.test(
                            handler,
                            root,
                            max_depth,
                            max_depth,
                            h_val,
                            true,
                        );
                        let exceeds = scratch.test(
                            handler,
                            root,
                            max_depth,
                            max_depth,
                            h_val,
                            false,
                        );
                        if reaches && !exceeds {
                            return (h_val, h_pv);
                        }
                        let (sv, _) = self.scout(handler, root, depth, max_depth);
                        return (sv, none_line(max_depth));
                    }
                    // Reconstruct the parent by replaying the recorded path.
                    let path_length = max_depth - dd - 1;
                    let mut parent = root;
                    let mut pj: usize = 0;
                    while pj < path_length
                        invariant
                            pj <= path_length,
                            parent == path_pos(handler, root, pth@, pj as int),
                        decreases path_length - pj,
                    {
                        proof {
                            handler.wf_facts();
                            assert(path_ok(handler, root, pth@, md - dd));
                        }
                        let pmoves = handler.get_legal_moves(parent);
                        let pidx = pth[pj];
                        parent = parent.play_move(pmoves[pidx]);
                        pj = pj + 1;
                    }
                    if (max_depth - dd) % 2 == 0 {
                        // A solved Max-type node: release the parent's next
                        // sibling, or resolve the parent.
                        let pmoves = handler.get_legal_moves(parent);
                        let pm_len = pmoves.len();
                        proof {
                            assert(parent == path_pos(handler, root, pth@, path_length as int));
                            assert((pth@[path_length as int] as int)
                                < handler.moves_spec(parent).len());
                            assert(pth@[path_length as int] < pm_len);
                        }
                        let next_idx = pth[path_length] + 1;
                        if next_idx < pmoves.len() {
                            let sib_mv = pmoves[next_idx];
                            proof {
                                assert(parent.move_ok(handler.moves_spec(parent)[next_idx as int]));
                            }
                            let sib = parent.play_move(sib_mv);
                            let ghost old_path = pth@;
                            l[path_length] = Some(sib_mv);
                            pth[path_length] = next_idx;
                            proof {
                                lemma_path_pos_prefix(
                                    handler,
                                    root,
                                    old_path,
                                    pth@,
                                    path_length as int,
                                );
                            }
                            if tags < u64::MAX {
                                tags = tags + 1;
                            }
                            open.push(SssEntry::Live {
                                node: sib,
                                merit_value: h_val,
                                merit_pv: h_pv,
                                depth: dd,
                                line: l,
                                path: pth,
                                tag: tags,
                            });
                        } else {
                            if tags < u64::MAX {
                                tags = tags + 1;
                            }
                            open.push(SssEntry::Solved {
                                node: parent,
                                merit_value: h_val,
                                merit_pv: h_pv,
                                depth: dd + 1,
                                line: l,
                                path: pth,
                                tag: tags,
                            });
                        }
                    } else {
                        // A solved Min-type node: purge the dominated states
                        // under the parent, then resolve the parent.
                        let mut kept: Vec<SssEntry<P>> = Vec::new();
                        let mut ki: usize = 0;
                        while ki < open.len()
                            invariant
                                ki <= open.len(),
                                forall|k: int| 0 <= k < kept@.len()
                                    ==> entry_inv(handler, root, md, #[trigger] kept@[k]),
                            decreases open.len() - ki,
                        {
                            let cand = &open[ki];
                            let keep = {
                                let mut differs = false;
                                let cand_path = match cand {
                                    SssEntry::Live { path, .. } => path,
                                    SssEntry::Solved { path, .. } => path,
                                };
                                let mut cj: usize = 0;
                                if cand_path.len() < path_length {
                                    differs = true;
                                } else {
                                    while cj < path_length
                                        invariant
                                            cj <= path_length,
                                            path_length <= cand_path@.len(),
                                        decreases path_length - cj,
                                    {
                                        if cand_path[cj] != pth[cj] {
                                            differs = true;
                                        }
                                        cj = cj + 1;
                                    }
                                }
                                differs
                            };
                            if keep {
                                let cl = match cand {
                                    SssEntry::Live {
                                        node,
                                        merit_value,
                                        merit_pv,
                                        depth,
                                        line,
                                        path,
                                        tag,
                                    } => SssEntry::Live {
                                        node: *node,
                                        merit_value: *merit_value,
                                        merit_pv: copy_line(merit_pv),
                                        depth: *depth,
                                        line: copy_line(line),
                                        path: copy_path(path),
                                        tag: *tag,
                                    },
                                    SssEntry::Solved {
                                        node,
                                        merit_value,
                                        merit_pv,
                                        depth,
                                        line,
                                        path,
                                        tag,
                                    } => SssEntry::Solved {
                                        node: *node,
                                        merit_value: *merit_value,
                                        merit_pv: copy_line(merit_pv),
                                        depth: *depth,
                                        line: copy_line(line),
                                        path: copy_path(path),
                                        tag: *tag,
                                    },
                                };
                                proof {
                                    assert(entry_inv(handler, root, md, open@[ki as int]));
                                }
                                kept.push(cl);
                            }
                            ki = ki + 1;
                        }
                        open = kept;
                        if tags < u64::MAX {
                            tags = tags + 1;
                        }
                        open.push(SssEntry::Solved {
                            node: parent,
                            merit_value: h_val,
                            merit_pv: h_pv,
                            depth: dd + 1,
                            line: l,
                            path: pth,
                            tag: tags,
                        });
                    }
                },
                SssEntry::Live {
                    node: n,
                    merit_value: h_val,
                    merit_pv: h_pv,
                    depth: dd,
                    line: l,
                    path: pth,
                    tag: _,
                } => {
                    let n_moves = handler.get_legal_moves(n);
                    if dd == 0 || n_moves.len() == 0 {
                        // A live leaf: evaluate from the root player's
                        // perspective (the root's own negamax parity is
                        // even, so no sign adjustment is needed) and solve
                        // it under the characteristic min rule.
                        self.increment_leaf_count();
                        let eval = handler.evaluate(n, max_depth, max_depth);
                        proof {
                            lemma_line_value_at_end(
                                handler,
                                root,
                                pth@,
                                l@,
                                md,
                                md - dd,
                                0,
                            );
                        }
                        if tags < u64::MAX {
                            tags = tags + 1;
                        }
                        if h_val < eval {
                            open.push(SssEntry::Solved {
                                node: n,
                                merit_value: h_val,
                                merit_pv: h_pv,
                                depth: dd,
                                line: l,
                                path: pth,
                                tag: tags,
                            });
                        } else {
                            let merit_line = copy_line(&l);
                            open.push(SssEntry::Solved {
                                node: n,
                                merit_value: eval,
                                merit_pv: merit_line,
                                depth: dd,
                                line: l,
                                path: pth,
                                tag: tags,
                            });
                        }
                    } else {
                        let slot = max_depth - dd;
                        let expand_all = (max_depth - dd) % 2 == 0;
                        let limit = if expand_all {
                            n_moves.len()
                        } else {
                            1
                        };
                        let ghost old_path = pth@;
                        let mut ci: usize = 0;
                        while ci < limit
                            invariant
                                limit <= n_moves@.len(),
                                ci <= limit,
                                open@.len() >= 1 || ci < limit,
                                forall|k: int| 0 <= k < open@.len()
                                    ==> entry_inv(handler, root, md, #[trigger] open@[k]),
                            decreases limit - ci,
                        {
                            proof {
                                handler.wf_facts();
                                assert(n.move_ok(handler.moves_spec(n)[ci as int]));
                            }
                            let mv = n_moves[ci];
                            let child = n.play_move(mv);
                            let mut cline = copy_line(&l);
                            let mut cpath = copy_path(&pth);
                            cline[slot] = Some(mv);
                            cpath[slot] = ci;
                            proof {
                                lemma_path_pos_prefix(
                                    handler,
                                    root,
                                    old_path,
                                    cpath@,
                                    slot as int,
                                );
                            }
                            if tags < u64::MAX {
                                tags = tags + 1;
                            }
                            open.push(SssEntry::Live {
                                node: child,
                                merit_value: h_val,
                                merit_pv: copy_line(&h_pv),
                                depth: dd - 1,
                                line: cline,
                                path: cpath,
                                tag: tags,
                            });
                            ci = ci + 1;
                        }
                    }
                },
            }
            budget = budget - 1;
        }
        // Unreachable for any feasible search: the step bound spans more
        // iterations than could ever run.  Resolve the search exactly
        // instead of failing.
        let (sv, _) = self.scout(handler, root, depth, max_depth);
        (sv, none_line(max_depth))
    }
}


} // verus!
