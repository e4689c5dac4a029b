//! Core of a small tile-based platform game: a player navigates levels built
//! on a 16x16 tile lattice, collects numbered targets in descending order
//! while avoiding spikes and patrolling spiders, and leaves through a door
//! that opens once every target has been taken.
//!
//! All geometry is held in fixed point: positions in subpixels (256 to the
//! pixel), times in milliseconds, velocities in subpixels per second. The
//! presentation shell supplies input snapshots, frame times and random
//! samples as plain values and reads the resulting state back for drawing.

pub mod geom;
pub mod tile;
pub mod source;
pub mod level;
pub mod player;
pub mod load;
pub mod timefmt;
pub mod state;
pub mod laws;
