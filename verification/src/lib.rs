//! A falling-sand cellular automaton: a grid of particles that fall, drift
//! sideways and sink through water, and a brush that paints new material.
//!
//! The grid owns every particle record. A frame of the simulation visits the
//! slots column by column and moves each logical particle at most once; the
//! brush fills empty slots inside a window or along a dragged path.

pub mod brush;
pub mod camera;
pub mod cells;
pub mod census;
pub mod chance;
pub mod frame;
pub mod grid;
pub mod guard;
pub mod motion;
pub mod particle;
pub mod path;
pub mod simulation;

pub use grid::Grid;
pub use particle::{Particle, ParticleVariant};
