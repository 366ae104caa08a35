use vstd::prelude::*;

verus! {

/// The failures this library distinguishes.
///
/// The first three arise while the framebuffer is located and split up and
/// are fatal to the whole process; the last three arise on one send loop's
/// connection and are fatal to that loop alone.
#[derive(Clone, Copy, Debug, PartialEq, Eq, Structural)]
pub enum FbError {
    /// The shared region is shorter than the header and cell array need.
    RegionTooSmall,
    /// The header declares a grid width or height of zero.
    InvalidDimensions,
    /// The configured worker count is zero.
    NoWorkers,
    /// The initial connection to the sink could not be established.
    ConnectionFailed,
    /// A write to an established sink connection failed.
    SinkWriteFailed,
    /// A flush of an established sink connection failed.
    SinkFlushFailed,
}

impl FbError {
    /// The short description each variant carries.
    pub open spec fn spec_message(self) -> Seq<char> {
        match self {
            FbError::RegionTooSmall => "shared memory region is too small for the framebuffer"@,
            FbError::InvalidDimensions => "framebuffer width and height must both be non-zero"@,
            FbError::NoWorkers => "at least one drawing worker is required"@,
            FbError::ConnectionFailed => "failed to connect to the pixel sink"@,
            FbError::SinkWriteFailed => "failed to write to the pixel sink"@,
            FbError::SinkFlushFailed => "failed to flush to the pixel sink"@,
        }
    }

    /// A short human-readable description of the failure.
    pub fn message(&self) -> (s: &'static str)
        ensures
            s@ == self.spec_message(),
    {
        match self {
            FbError::RegionTooSmall => "shared memory region is too small for the framebuffer",
            FbError::InvalidDimensions => "framebuffer width and height must both be non-zero",
            FbError::NoWorkers => "at least one drawing worker is required",
            FbError::ConnectionFailed => "failed to connect to the pixel sink",
            FbError::SinkWriteFailed => "failed to write to the pixel sink",
            FbError::SinkFlushFailed => "failed to flush to the pixel sink",
        }
    }
}

} // verus!
