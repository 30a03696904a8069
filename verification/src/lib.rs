//! A fixed-capacity particle pool: burst emission on a repeating timer,
//! slot recycling, and per-frame interpolation of size, colour and position.
//!
//! All quantities are integers. Time is counted in ticks of one nanosecond;
//! sizes, colour channels, positions and velocities are fixed-point values at
//! a scale the host chooses.

pub mod clock;
pub mod frame;
pub mod headroom;
pub mod interp;
pub mod particle;
pub mod pool;
pub mod spawner;
