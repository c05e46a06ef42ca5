//! The two contracts through which the search engine sees a game.
//!
//! `GamePosition` describes an immutable game state: a start constructor and a
//! pure transition function.  `GameHandler` supplies what is computed about
//! states: legal-move generation and static evaluation, together with the
//! three evaluation sentinels.  Both are specified through spec functions, so
//! that every search algorithm can state its result as a function of the
//! abstract game tree alone.

use vstd::prelude::*;

verus! {

/// A node of a game tree: an immutable, copyable game state.
///
/// A state is never mutated in place: `play_move` produces the successor
/// state.  The transition is pure, which the contract pins down through the
/// spec function `play_spec`.
pub trait GamePosition: Sized + Copy {
    /// One ply's transition between states.
    type Move: Copy;

    /// Construction input for the start state.
    type Params;

    /// The moves on which `play_move` is defined.  Every move that the
    /// handler generates for a position must satisfy this (see
    /// `GameHandler::wf_facts`); on other moves the transition is undefined.
    spec fn move_ok(self, mv: Self::Move) -> bool;

    /// The successor state reached from `self` by `mv`.
    spec fn play_spec(self, mv: Self::Move) -> Self;

    /// The start state described by `params`.
    spec fn start_spec(params: Self::Params) -> Self;

    /// Constructs the start state.
    fn startpos(params: Self::Params) -> (pos: Self)
        ensures
            pos == Self::start_spec(params),
    ;

    /// Plays `mv` on `self`, producing the successor state.
    fn play_move(&self, mv: Self::Move) -> (next: Self)
        requires
            self.move_ok(mv),
        ensures
            next == self.play_spec(mv),
    ;
}

/// The computational services around a game: legal-move generation and
/// static evaluation, with the evaluation sentinels.
///
/// Evaluations are `i64` values from the perspective of the player to move.
/// `eval_min()` and `eval_max()` are the sentinels for irrecoverably lost and
/// won positions; `eval_eps()` is the smallest meaningful evaluation delta,
/// used by the algorithms to build null windows.  `wf_facts` is the proof
/// obligation every handler discharges: the sentinels are consistent
/// (`eval_min() == -eval_max()`), window arithmetic cannot overflow, every
/// evaluation lies between the sentinels, and every generated move is
/// playable.
pub trait GameHandler<P: GamePosition>: Sized {
    /// Construction input for the handler.
    type Params;

    /// The handler's invariant, established by `new` and preserved by every
    /// operation (none of them mutates the handler).
    spec fn wf(&self) -> bool;

    /// The evaluation of an irrecoverably lost position.
    spec fn eval_min(&self) -> i64;

    /// The evaluation of an irrecoverably won position.
    spec fn eval_max(&self) -> i64;

    /// The smallest meaningful evaluation delta.
    spec fn eval_eps(&self) -> i64;

    /// The search horizons for which `eval_spec` respects the sentinels.
    spec fn depth_ok(&self, max_depth: int) -> bool;

    /// The construction inputs that `new` accepts.
    spec fn params_ok(params: Self::Params) -> bool;

    /// The legal moves of `pos`, in the order in which they are generated.
    /// The order is fixed by this function, which makes move generation
    /// deterministic and so every search reproducible.
    spec fn moves_spec(&self, pos: P) -> Seq<P::Move>;

    /// The static evaluation of `pos`, from the perspective of the player to
    /// move, `depth` plies above the horizon of a `max_depth`-ply search.
    spec fn eval_spec(&self, pos: P, depth: int, max_depth: int) -> i64;

    /// The facts every well-formed handler guarantees.
    proof fn wf_facts(&self)
        requires
            self.wf(),
        ensures
            self.eval_min() == -self.eval_max(),
            0 <= self.eval_max(),
            0 < self.eval_eps(),
            self.eval_max() + self.eval_eps() <= i64::MAX,
            forall|pos: P, depth: int, max_depth: int|
                0 <= depth <= max_depth && self.depth_ok(max_depth)
                    ==> self.eval_min()
                        <= #[trigger] self.eval_spec(pos, depth, max_depth)
                        <= self.eval_max(),
            forall|pos: P, i: int|
                0 <= i < self.moves_spec(pos).len()
                    ==> pos.move_ok(#[trigger] self.moves_spec(pos)[i]),
    ;

    /// Constructs the handler.  Arbitrarily expensive precomputation is
    /// allowed here; the other operations must stay cheap.
    fn new(params: Self::Params) -> (h: Self)
        requires
            Self::params_ok(params),
        ensures
            h.wf(),
    ;

    /// The evaluation of an irrecoverably lost position, as a value.
    fn eval_minimum(&self) -> (r: i64)
        ensures
            r == self.eval_min(),
    ;

    /// The evaluation of an irrecoverably won position, as a value.
    fn eval_maximum(&self) -> (r: i64)
        ensures
            r == self.eval_max(),
    ;

    /// The smallest meaningful evaluation delta, as a value.
    fn eval_epsilon(&self) -> (r: i64)
        ensures
            r == self.eval_eps(),
    ;

    /// Generates the legal moves of `pos`, in their fixed generation order.
    fn get_legal_moves(&self, pos: P) -> (moves: Vec<P::Move>)
        requires
            self.wf(),
        ensures
            moves@ == self.moves_spec(pos),
    ;

    /// Statically evaluates `pos` for the player to move.  The search calls
    /// this only on positions that are leaves under the current horizon.
    fn evaluate(&self, pos: P, depth: usize, max_depth: usize) -> (r: i64)
        requires
            self.wf(),
            depth <= max_depth,
            self.depth_ok(max_depth as int),
        ensures
            r == self.eval_spec(pos, depth as int, max_depth as int),
    ;
}

} // verus!
