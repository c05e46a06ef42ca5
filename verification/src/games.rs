//! Concrete games: consumers of the engine's two contracts.

pub mod chess;
pub mod hypothetical_tree;
pub mod rng;
pub mod stockman;
pub mod uniform_2b_wide;
pub mod ut3;
