//! The analytic beams of MWA tiles and SKA-Low stations, up to the arithmetic.
//!
//! An [`AnalyticBeam`] is asked for its response in one direction or in many. It refuses what it
//! cannot answer, works out which bowties or elements enter the response, in which order, where
//! they stand and with what delays and gains, and hands back a [`response::JonesTask`], which takes
//! floating-point arithmetic to work out and nothing else. For a GPU it finds the unique ones among
//! many tiles, lays out what the device is given, says which kernel to launch on what, and undoes the
//! de-duplication in what the device computes.
//!
//! Real numbers are [`double::Double`]s: bit patterns that are compared and handed on.

pub mod amps;
pub mod beam;
pub mod double;
pub mod error;
pub mod gpu;
pub mod laws;
pub mod lists;
pub mod response;
pub mod results;
pub mod rts;
pub mod stations;
pub mod table;

pub use beam::{AnalyticBeam, AnalyticType};
pub use error::AnalyticBeamError;
pub use gpu::AnalyticBeamGpu;
pub use stations::SkaConfig;
