//! A forest-fire cellular automaton: a grid of trees, fires and bare ground
//! that advances one synchronous step at a time.

mod forest;
pub mod laws;
mod model;
mod random;
mod state;

pub use forest::Forest;
pub use model::{is_offset, shifted, Adjacency, ForestModel, PROBABILITY_SCALE};
pub use state::{symbol_of, State};
