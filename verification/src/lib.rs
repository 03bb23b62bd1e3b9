//! Turns a height surface, optionally paired with a colour surface, into a
//! small set of square bricks that reproduce the height and colour of every
//! sample.
//!
//! A [`map::Grid`] holds the samples. [`quad::optimize`] lays a quadtree over
//! the grid and gives one [`brick::BrickRecord`] for every square of like
//! cells; [`util::bricks_to_save`] puts the bricks into a save. What holds of
//! the bricks of every grid is proved in [`laws`].

pub mod brick;
pub mod gamma;
pub mod laws;
pub mod map;
pub mod quad;
pub mod util;
