//! A lunar-lander simulation core on integer fixed-point arithmetic.
//!
//! Every physical quantity is an integer number of thousandths of its unit
//! (positions in thousandths of a terrain point, angles in thousandths of a
//! degree, masses in grams, times in milliseconds, forces in millinewtons),
//! so that every decision the simulation takes is exact and can be stated
//! and proved.

pub mod collision;
pub mod entity;
pub mod fixed;
pub mod game;
pub mod input;
pub mod noise_field;
pub mod physics;
pub mod profile;
mod rng;
pub mod session;
pub mod surface;
pub mod utils;
pub mod vector;
