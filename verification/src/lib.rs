//! A real-time arena simulation library: a fixed-timestep world of players
//! and score-awarding pickups, the growable instance-buffer bookkeeping that
//! feeds per-frame render batches, orthographic camera state, input routing,
//! and a small packet codec.
//!
//! All world geometry is held in fixed-point milli-units (thousandths of a
//! world unit) so that integration and collision arithmetic is exact.

pub mod buffer;
pub mod camera;
pub mod clock;
pub mod collision;
pub mod config;
pub mod fixed;
pub mod font;
pub mod game;
pub mod input;
pub mod net;
mod rng;
pub mod session;
