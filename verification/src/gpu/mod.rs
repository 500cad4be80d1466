//! The host's side of the GPU beams.

pub mod beam_gpu;
pub mod cube;
pub mod launch;
pub mod laws;
pub mod mwa_rts;
pub mod results;
pub mod ska;

pub use beam_gpu::{AnalyticBeamGpu, AnalyticTypeInner, HostEvent, HostStep};
