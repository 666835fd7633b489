//! Evolutionary search for the layered banner design whose render comes
//! closest to a target image.
//!
//! Everything is computed over integers: a banner's fitness is the exact sum of
//! squared channel differences between its render and the target, selection
//! weights are fixed-point reciprocals of the distance, and probabilities are
//! ratios of integers.

pub mod banner;
pub mod crossover;
pub mod ga;
pub mod mutation;
pub mod palette;
pub mod population;
pub mod random;
pub mod rate;
pub mod raster;
pub mod selection;
pub mod texture_buffer;
pub mod weight;
