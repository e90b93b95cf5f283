//! Gauges for a live instrument cluster: decoding of bus message slots, the
//! registry that binds messages to gauges, the geometry of dials and text
//! readouts, and the frame scheduler that paces drawing and message polling.

pub mod config;
pub mod gauge;
pub mod geometry;
pub mod registry;
pub mod scalar;
pub mod scheduler;
pub mod single;
