//! From the outputs and the region to the capture requests, and from the
//! layouts that the compositor names to the buffers to allocate.

use vstd::prelude::*;
use crate::backend::{CaptureRegion, FrameFormat};
use vstd::pervasive::unreached;
use crate::geometry::{bounding_box, hull, lemma_hull_is_minimal, overlap, rects_of, Rect};
use crate::output::OutputInfo;
use crate::session::{OutputFilter, WayshotState};

verus! {

/// A request to copy a part of an output into a frame.
#[derive(Debug, Copy, Clone, PartialEq, Eq, Structural)]
pub struct CaptureRequest {
    /// The number of the output, and of the frame that is requested.
    pub output: u32,
    /// 1 if the cursor is to be drawn into the frame, else 0.
    pub overlay_cursor: i32,
    /// Where the part starts, counted from the left edge of the output.
    pub x: i32,
    /// Where the part starts, counted from the upper edge of the output.
    pub y: i32,
    /// Width of the part.
    pub width: i32,
    /// Height of the part.
    pub height: i32,
}

/// The requests to send, one for each output that takes part, and the
/// rectangle that the composed picture covers in the global space.
#[derive(Debug, Clone, PartialEq, Eq)]
pub struct CapturePlan {
    pub requests: Vec<CaptureRequest>,
    pub canvas: CaptureRegion,
}

/// Why no capture can be requested.
#[derive(Debug, Copy, Clone, PartialEq, Eq, Structural)]
pub enum PlanError {
    /// The region shares no point with any output that is known in full.
    NoOverlap,
    /// A frame was requested before of an output that takes part.
    AlreadyRequested,
}

/// What to allocate for the frame of an output: shared memory of `size`
/// bytes, and in it a buffer of the given layout.
#[derive(Debug, Copy, Clone, PartialEq, Eq, Structural)]
pub struct BufferRequest {
    /// The number of the output.
    pub output: u32,
    /// Bytes of shared memory: stride times height.
    pub size: i32,
    /// Width of the buffer in pixels.
    pub width: i32,
    /// Height of the buffer in pixels.
    pub height: i32,
    /// Bytes from the start of one row to the start of the next.
    pub stride: i32,
    /// The pixel layout, as the code that `wl_shm` gives it.
    pub format: u32,
}

/// Why no buffer can be allocated for an output.
#[derive(Debug, Copy, Clone, PartialEq, Eq, Structural)]
pub enum BufferError {
    /// The compositor has not named a layout for the output's frame.
    MissingFormat(u32),
    /// The size of the output's frame is beyond what a pool can hold.
    TooLarge(u32),
}

/// A layout whose sizes can all be written as an `i32`, as the protocol
/// asks.
pub open spec fn fits_pool(format: FrameFormat) -> bool {
    &&& format.width <= i32::MAX
    &&& format.height <= i32::MAX
    &&& format.stride <= i32::MAX
    &&& format.spec_byte_len() <= i32::MAX
}

/// What to allocate for `output`, or why nothing can be.
pub open spec fn buffer_request_for(output: OutputInfo) -> Result<BufferRequest, BufferError> {
    match output.frame_format {
        None => Err(BufferError::MissingFormat(output.wl_output)),
        Some(format) => if fits_pool(format) {
            Ok(
                BufferRequest {
                    output: output.wl_output,
                    size: format.spec_byte_len() as i32,
                    width: format.width as i32,
                    height: format.height as i32,
                    stride: format.stride as i32,
                    format: format.format,
                },
            )
        } else {
            Err(BufferError::TooLarge(output.wl_output))
        },
    }
}

/// What to allocate for `output`, or why nothing can be.
pub fn buffer_request(output: &OutputInfo) -> (r: Result<BufferRequest, BufferError>)
    ensures
        r == buffer_request_for(*output),
{
    match output.frame_format {
        None => Err(BufferError::MissingFormat(output.wl_output)),
        Some(format) => {
            let size: u64 = format.byte_len();
            if format.width > 0x7fff_ffff || format.height > 0x7fff_ffff || format.stride
                > 0x7fff_ffff || size > 0x7fff_ffff {
                Err(BufferError::TooLarge(output.wl_output))
            } else {
                Ok(
                    BufferRequest {
                        output: output.wl_output,
                        size: size as i32,
                        width: format.width as i32,
                        height: format.height as i32,
                        stride: format.stride as i32,
                        format: format.format,
                    },
                )
            }
        },
    }
}

/// The outputs that take part in a capture of `region`: those whose name
/// and geometry are known and that share a point with the region.
pub open spec fn participants(outputs: Seq<OutputInfo>, region: CaptureRegion) -> Seq<OutputInfo> {
    OutputFilter::Region(region).kept(OutputFilter::Complete.kept(outputs))
}

/// What `output` and `region` have in common.
pub open spec fn overlap_rect(output: OutputInfo, region: CaptureRegion) -> Rect {
    output.dimensions@.intersect(region@)
}

/// What each of `outputs` has in common with `region`.
pub open spec fn overlap_rects(outputs: Seq<OutputInfo>, region: CaptureRegion) -> Seq<Rect> {
    Seq::new(outputs.len(), |i: int| overlap_rect(outputs[i], region))
}

/// The request for the part of `output` that lies in `region`, in the
/// coordinates of the output.
pub open spec fn request_for(
    output: OutputInfo,
    region: CaptureRegion,
    overlay_cursor: bool,
) -> CaptureRequest {
    let part = overlap_rect(output, region);
    CaptureRequest {
        output: output.wl_output,
        overlay_cursor: if overlay_cursor {
            1
        } else {
            0
        },
        x: (part.left - output.dimensions.x) as i32,
        y: (part.top - output.dimensions.y) as i32,
        width: part.width() as i32,
        height: part.height() as i32,
    }
}

/// The output once its frame has been requested, under its own number.
pub open spec fn requested(output: OutputInfo) -> OutputInfo {
    OutputInfo { frame: Some(output.wl_output), ..output }
}

/// Why no capture of `region` can be requested of these participants, or
/// `None` where it can.
pub open spec fn plan_error(outputs: Seq<OutputInfo>, region: CaptureRegion) -> Option<PlanError> {
    if outputs.len() == 0 {
        Some(PlanError::NoOverlap)
    } else if exists|i: int| 0 <= i < outputs.len() && (#[trigger] outputs[i]).frame is Some {
        Some(PlanError::AlreadyRequested)
    } else {
        None
    }
}

/// The picture lies within the region: the bounding box of what outputs
/// have in common with a region is enclosed by the region.
pub proof fn lemma_canvas_within_region(outputs: Seq<OutputInfo>, region: CaptureRegion)
    requires
        outputs.len() > 0,
        forall|i: int|
            0 <= i < outputs.len() ==> overlap_rect(#[trigger] outputs[i], region).is_nonempty(),
    ensures
        region@.encloses(hull(overlap_rects(outputs, region))),
        hull(overlap_rects(outputs, region)).width() <= region.width,
        hull(overlap_rects(outputs, region)).height() <= region.height,
{
    let rects = overlap_rects(outputs, region);
    assert forall|i: int| 0 <= i < rects.len() implies region@.encloses(#[trigger] rects[i]) by {}
    lemma_hull_is_minimal(rects, region@);
}

impl WayshotState {
    /// Selects the outputs that take part in a capture of `region` and
    /// drops the others. Where a capture can be requested, notes of each
    /// participant that its frame is requested, and gives the requests
    /// and the rectangle of the picture. Else the participants stay as
    /// they are and nothing is to be requested.
    pub fn plan_capture(&mut self, region: &CaptureRegion, overlay_cursor: bool) -> (r: Result<
        CapturePlan,
        PlanError,
    >)
        ensures
            old(self).wf() ==> final(self).wf(),
            final(self).formats == old(self).formats,
            final(self).shm == old(self).shm,
            final(self).screencopy == old(self).screencopy,
            final(self).xdg_output == old(self).xdg_output,
            match plan_error(participants(old(self).outputs@, *region), *region) {
                Some(e) => r == Err::<CapturePlan, PlanError>(e) && final(self).outputs@
                    == participants(old(self).outputs@, *region),
                None => r is Ok && final(self).outputs@ == participants(
                    old(self).outputs@,
                    *region,
                ).map_values(|o: OutputInfo| requested(o)) && r.unwrap().requests@ == participants(
                    old(self).outputs@,
                    *region,
                ).map_values(|o: OutputInfo| request_for(o, *region, overlay_cursor))
                    && r.unwrap().canvas@ == hull(
                    overlap_rects(participants(old(self).outputs@, *region), *region),
                ),
            },
    {
        self.filter(&OutputFilter::Complete);
        let ghost complete = self.outputs@;
        self.filter(&OutputFilter::Region(*region));
        let ghost chosen = self.outputs@;
        proof {
            assert forall|k: int| 0 <= k < chosen.len() implies (#[trigger] chosen[k]).wl_ready by {
                assert(complete.contains(chosen[k]));
            }
        }
        let n: usize = self.outputs.len();
        if n == 0 {
            return Err(PlanError::NoOverlap);
        }
        let cursor: i32 = if overlay_cursor {
            1
        } else {
            0
        };
        let mut regions: Vec<CaptureRegion> = Vec::new();
        let mut requests: Vec<CaptureRequest> = Vec::new();
        let mut i: usize = 0;
        while i < n
            invariant
                i <= n,
                n == chosen.len(),
                self.outputs@ == chosen,
                old(self).wf() ==> self.wf(),
                self.formats == old(self).formats,
                self.shm == old(self).shm,
                self.screencopy == old(self).screencopy,
                self.xdg_output == old(self).xdg_output,
                chosen == participants(old(self).outputs@, *region),
                cursor == (if overlay_cursor {
                    1i32
                } else {
                    0i32
                }),
                forall|k: int|
                    0 <= k < chosen.len() ==> OutputFilter::Region(*region).spec_matches(
                        &#[trigger] chosen[k],
                    ),
                regions@.len() == i,
                requests@.len() == i,
                forall|k: int| 0 <= k < i ==> (#[trigger] chosen[k]).frame is None,
                forall|k: int| 0 <= k < i ==> (#[trigger] regions@[k])@ == overlap_rect(chosen[k], *region),
                forall|k: int|
                    0 <= k < i ==> #[trigger] requests@[k] == request_for(
                        chosen[k],
                        *region,
                        overlay_cursor,
                    ),
            decreases n - i,
        {
            if self.outputs[i].frame.is_some() {
                return Err(PlanError::AlreadyRequested);
            }
            let dimensions = self.outputs[i].dimensions;
            let part = overlap(&dimensions, region).unwrap();
            requests.push(
                CaptureRequest {
                    output: self.outputs[i].wl_output,
                    overlay_cursor: cursor,
                    x: part.x_coordinate - dimensions.x,
                    y: part.y_coordinate - dimensions.y,
                    width: part.width,
                    height: part.height,
                },
            );
            regions.push(part);
            i = i + 1;
        }
        proof {
            assert(rects_of(regions@) =~= overlap_rects(chosen, *region));
        }
        proof {
            lemma_canvas_within_region(chosen, *region);
        }
        let canvas = match bounding_box(&regions) {
            Ok(canvas) => canvas,
            Err(_) => unreached(),
        };
        let mut j: usize = 0;
        while j < n
            invariant
                j <= n,
                n == chosen.len(),
                self.outputs@.len() == n,
                self.formats == old(self).formats,
                self.shm == old(self).shm,
                self.screencopy == old(self).screencopy,
                self.xdg_output == old(self).xdg_output,
                old(self).wf() ==> forall|k: int| 0 <= k < n ==> (#[trigger] chosen[k]).wf(),
                forall|k: int| 0 <= k < n ==> (#[trigger] chosen[k]).wl_ready,
                forall|k: int| 0 <= k < n ==> (#[trigger] chosen[k]).xdg_ready,
                forall|k: int| 0 <= k < n ==> (#[trigger] chosen[k]).frame is None,
                forall|k: int| 0 <= k < j ==> #[trigger] self.outputs@[k] == requested(chosen[k]),
                forall|k: int| j <= k < n ==> #[trigger] self.outputs@[k] == chosen[k],
            decreases n - j,
        {
            let id: u32 = self.outputs[j].wl_output;
            self.outputs[j].frame = Some(id);
            j = j + 1;
        }
        proof {
            assert(requests@ =~= chosen.map_values(
                |o: OutputInfo| request_for(o, *region, overlay_cursor),
            ));
        }
        Ok(CapturePlan { requests, canvas })
    }

    /// What to allocate for each output, in the order of the outputs, or
    /// the reason why nothing can be allocated for the first output for
    /// which that is so.
    pub fn buffer_requests(&self) -> (r: Result<Vec<BufferRequest>, BufferError>)
        ensures
            r is Ok <==> forall|i: int|
                0 <= i < self.outputs@.len() ==> buffer_request_for(#[trigger] self.outputs@[i])
                    is Ok,
            r is Ok ==> r.unwrap()@ == self.outputs@.map_values(
                |o: OutputInfo| buffer_request_for(o).unwrap(),
            ),
            r is Err ==> exists|i: int|
                0 <= i < self.outputs@.len() && buffer_request_for(#[trigger] self.outputs@[i])
                    == Err::<BufferRequest, BufferError>(r.unwrap_err()) && forall|j: int|
                    0 <= j < i ==> buffer_request_for(#[trigger] self.outputs@[j]) is Ok,
    {
        let mut requests: Vec<BufferRequest> = Vec::new();
        let mut i: usize = 0;
        while i < self.outputs.len()
            invariant
                i <= self.outputs@.len(),
                requests@.len() == i,
                forall|j: int|
                    0 <= j < i ==> buffer_request_for(#[trigger] self.outputs@[j]) == Ok::<
                        BufferRequest,
                        BufferError,
                    >(requests@[j]),
            decreases self.outputs@.len() - i,
        {
            match buffer_request(&self.outputs[i]) {
                Ok(request) => {
                    requests.push(request);
                },
                Err(e) => {
                    proof {
                        assert(buffer_request_for(self.outputs@[i as int]) == Err::<
                            BufferRequest,
                            BufferError,
                        >(e));
                    }
                    return Err(e);
                },
            }
            i = i + 1;
        }
        proof {
            assert(requests@ =~= self.outputs@.map_values(
                |o: OutputInfo| buffer_request_for(o).unwrap(),
            ));
        }
        Ok(requests)
    }

    /// Notes the memory that was bound to the buffer of the output at
    /// `index`. Refused, with the session unchanged, where there is no
    /// such output or the output refuses it.
    pub fn bind_buffer(&mut self, index: usize, mem_fd: i32) -> (accepted: bool)
        ensures
            old(self).wf() ==> final(self).wf(),
            final(self).formats == old(self).formats,
            final(self).shm == old(self).shm,
            final(self).screencopy == old(self).screencopy,
            final(self).xdg_output == old(self).xdg_output,
            accepted == (index < old(self).outputs@.len() && old(self).outputs@[index as int].frame_format
                is Some && old(self).outputs@[index as int].mem_fd is None && old(
                self,
            ).outputs@[index as int].frame_state is None),
            accepted ==> final(self).outputs@ == old(self).outputs@.update(
                index as int,
                OutputInfo { mem_fd: Some(mem_fd), ..old(self).outputs@[index as int] },
            ),
            !accepted ==> final(self).outputs@ == old(self).outputs@,
    {
        if index >= self.outputs.len() {
            return false;
        }
        self.outputs[index].bind_buffer(mem_fd)
    }
}

} // verus!
