use vstd::prelude::*;

verus! {

/// The failures that planning or running a convolution can report.
#[derive(Clone, Copy, Debug, PartialEq, Eq, Structural)]
pub enum ConvError {
    /// No compute-capable accelerator could be acquired.
    NoCompatibleDevice,
    /// A buffer would be empty or its size does not fit the address space.
    Allocation,
    /// The compute program could not be built.
    ShaderCompilation,
    /// The kernel does not fit strictly inside the image.
    InvalidDimensions,
    /// A buffer handle does not name a suitable buffer of this pipeline, or
    /// its size disagrees with the dimensions given for it.
    InvalidBuffer,
    /// The device failed while the results were read back.
    ComputeExecution,
}

} // verus!
