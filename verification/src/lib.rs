//! A generic engine for exact minimax evaluation of two-player, zero-sum,
//! turn-based, perfect-information game trees.
//!
//! Six classical search algorithms (branch-and-bound, alpha-beta, a refined
//! alpha-beta, principal-variation search, scout, and SSS*) operate uniformly
//! over any game given through two small contracts: a position type
//! ([`prelude::GamePosition`]) and a move/evaluation handler
//! ([`prelude::GameHandler`]).

pub mod games;
pub mod prelude;
pub mod search;
pub mod sss;
