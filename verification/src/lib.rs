//! The rules of a free-fly camera.
//!
//! A free-fly camera keeps a position, a yaw and a pitch in degrees, and a
//! zoom (its field of view in degrees). Its arithmetic runs in single
//! precision and lives with the host program. What the camera decides lives
//! here: along which of its basis vectors a movement command travels and in
//! which sense, how far the pitch may tilt, and what the zoom becomes after a
//! turn of the scroll wheel. Single-precision values cross this boundary as
//! their IEEE 754 bit patterns.

pub mod binary32;
pub mod limits;
pub mod movement;

pub use movement::{Axis, CameraMovement};
