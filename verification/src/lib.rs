//! Conway's Game of Life on a torus.
//!
//! * [`grid`] holds the cells, [`life`] takes a grid from one generation to
//!   the next, and [`raster`] paints a grid into a grey-scale pixel buffer.
//! * [`simulation`] strings them together into the turns of a running
//!   simulation, set up from a [`config`].
//! * [`board`] and [`raster::Raster`] are the mathematical models that the
//!   contracts speak of, and [`patterns`] proves what the rule does to the
//!   boards that everyone knows.
//! * [`cell_array`], [`gray_canvas`] and [`rng`] are the three places where
//!   the library calls code that it takes on trust: the array that stores a
//!   grid, the image that stores a pixel buffer, and the random generator.

pub mod board;
pub mod cell_array;
pub mod config;
pub mod gray_canvas;
pub mod grid;
pub mod life;
pub mod patterns;
pub mod probability;
pub mod raster;
pub mod rng;
pub mod simulation;
