//! A bounded, non-wrapping Game-of-Life board: the grid with its neighbour
//! enumeration, mutation and iteration, the generation rule, and what a
//! simulation does on each event, each with a machine-checked contract over
//! the mathematical [`board::Board`].

pub mod board;
pub mod grid_graph;
pub mod laws;
pub mod life;
pub mod simulation;
pub mod text;

pub use grid_graph::{CellType, Gg, GgIterator, GgIteratorMut, IndexError};
