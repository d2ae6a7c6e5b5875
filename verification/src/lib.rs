//! Conway's Game of Life on a fixed-size rectangular grid, with the grid's
//! behaviour stated as contracts over a mathematical model and proved.

pub mod simulation;
