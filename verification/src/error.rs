//! Why a response cannot be calculated.

use vstd::prelude::*;

use crate::double::Double;

verus! {

/// An error of the GPU.
#[derive(Debug)]
pub enum GpuError {
    /// A kernel failed.
    Kernel {
        msg: String,
        file: &'static str,
        line: u32,
    },
}

/// An error of the analytic beam code.
#[derive(Debug)]
pub enum AnalyticBeamError {
    /// A direction is below the horizon.
    BelowHorizon {
        /// The zenith angle of the direction, in radians.
        za: Double,
    },
    /// There is not one delay for each bowtie.
    IncorrectDelaysLength {
        got: usize,
        expected: usize,
    },
    /// There are neither one nor two gains for each bowtie.
    IncorrectAmpsLength {
        got: usize,
        expected1: usize,
        expected2: usize,
    },
    /// The rows of a table of delays do not hold one delay for each bowtie.
    IncorrectDelaysArrayColLength {
        rows: usize,
        num_delays: usize,
        expected: usize,
    },
    /// The GPU failed.
    Gpu(GpuError),
}

} // verus!
