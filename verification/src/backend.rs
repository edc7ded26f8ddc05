//! Value types shared by the capture pipeline.

use vstd::prelude::*;

verus! {

/// How the compositor lays a frame out in its buffer.
#[derive(Debug, Copy, Clone, PartialEq, Eq, Structural)]
pub struct FrameFormat {
    /// The pixel layout, as the code that `wl_shm` gives it.
    pub format: u32,
    /// Width of the frame in pixels.
    pub width: u32,
    /// Height of the frame in pixels.
    pub height: u32,
    /// Bytes from the start of one row to the start of the next.
    pub stride: u32,
}

impl FrameFormat {
    /// The bytes that a buffer for this frame holds.
    pub open spec fn spec_byte_len(&self) -> int {
        self.stride as int * self.height as int
    }

    /// The bytes that a buffer for this frame holds: stride times height.
    pub fn byte_len(&self) -> (r: u64)
        ensures
            r == self.spec_byte_len(),
    {
        proof {
            assert(0 <= self.stride as int * self.height as int <= 0xffff_ffff * 0xffff_ffff)
                by (nonlinear_arith)
                requires
                    0 <= self.stride <= 0xffff_ffff,
                    0 <= self.height <= 0xffff_ffff,
            ;
        }
        (self.stride as u64) * (self.height as u64)
    }
}

/// Outcome of a frame copy, as reported by the compositor.
#[derive(Debug, Copy, Clone, PartialEq, Eq, Structural)]
pub enum FrameState {
    /// The compositor reported that the copy failed.
    Failed,
    /// The compositor reported that the frame is ready in the buffer.
    Finished,
}

/// A region to capture, in global logical coordinates.
#[derive(Debug, Copy, Clone, PartialEq, Eq, Structural)]
pub struct CaptureRegion {
    /// X coordinate of the area to capture.
    pub x_coordinate: i32,
    /// Y coordinate of the area to capture.
    pub y_coordinate: i32,
    /// Width of the capture area.
    pub width: i32,
    /// Height of the capture area.
    pub height: i32,
}

/// Supported image encoding formats.
#[derive(Debug, Copy, Clone, PartialEq, Eq, Structural)]
pub enum EncodingFormat {
    /// Jpeg / jpg encoder.
    Jpg,
    /// Png encoder.
    Png,
    /// Ppm encoder.
    Ppm,
}

} // verus!
