//! Simulation core of a small peer-to-peer first-person shooter.
//!
//! Positions and directions are fixed-point integers (see [`geometry::UNIT`]),
//! times are nanoseconds on a monotonic clock chosen by the caller. The
//! floating-point work (orientation from yaw/pitch, collision and ray queries
//! against the level) is done by the caller and handed in as plain values.
pub mod geometry;
pub mod history;
pub mod player;
pub mod protocol;
pub mod registry;
pub mod weapon;
