//! A capture from the first round to the picture: what is decided between
//! the rounds of events, and the conditions that end the run.

use vstd::prelude::*;
use crate::backend::{CaptureRegion, FrameState};
use crate::bitmap::Bitmap;
use crate::compose::{compose, is_composed, ComposeError};
use crate::convert::NormalizeError;
use crate::output::OutputInfo;
use crate::parse::{parse_geometry, parsed_geometry};
use crate::geometry::hull;
use crate::plan::{
    buffer_request_for, overlap_rects, participants, plan_error, request_for, requested,
    BufferError, BufferRequest, CapturePlan, PlanError,
};
use crate::session::{listed, MissingCapability, OutputFilter, WayshotState};

verus! {

/// What the user asked for.
#[derive(Debug, Clone, PartialEq, Eq)]
pub struct Options {
    /// List the outputs and capture nothing.
    pub list_outputs: bool,
    /// Capture the output of this name only.
    pub output: Option<String>,
    /// Capture this region only, given in its textual form.
    pub geometry: Option<String>,
    /// Draw the cursor into the picture.
    pub cursor: bool,
}

/// The classes of conditions that end a run.
#[derive(Debug, Copy, Clone, PartialEq, Eq, Structural)]
pub enum FatalClass {
    /// The compositor lacks a capability that the run needs.
    Capability,
    /// The region is malformed or lies on no output.
    Geometry,
    /// The capture of an output failed or went wrong.
    OutputFailure,
    /// A frame has a pixel layout that cannot be converted.
    UnsupportedFormat,
    /// A buffer or a bitmap cannot be had at the size that is needed.
    ResourceExhaustion,
}

/// A condition that ends the run.
#[derive(Debug, Copy, Clone, PartialEq, Eq, Structural)]
pub enum Fatal {
    /// A capability is missing.
    Capability(MissingCapability),
    /// The text of the region is empty.
    EmptyGeometry,
    /// The text of the region has neither of its forms.
    MalformedGeometry,
    /// No capture can be requested.
    Plan(PlanError),
    /// No buffer can be allocated for a frame.
    Buffer(BufferError),
    /// Shared memory could not be had or mapped; the number says why.
    SharedMemory(i32),
    /// The frames cannot be composed.
    Compose(ComposeError),
}

impl Fatal {
    /// The class of the condition.
    pub open spec fn spec_class(self) -> FatalClass {
        match self {
            Fatal::Capability(_) => FatalClass::Capability,
            Fatal::EmptyGeometry => FatalClass::Geometry,
            Fatal::MalformedGeometry => FatalClass::Geometry,
            Fatal::Plan(PlanError::NoOverlap) => FatalClass::Geometry,
            Fatal::Plan(PlanError::AlreadyRequested) => FatalClass::OutputFailure,
            Fatal::Buffer(BufferError::MissingFormat(_)) => FatalClass::OutputFailure,
            Fatal::Buffer(BufferError::TooLarge(_)) => FatalClass::ResourceExhaustion,
            Fatal::SharedMemory(_) => FatalClass::ResourceExhaustion,
            Fatal::Compose(e) => match e {
                ComposeError::NoOutputs => FatalClass::Geometry,
                ComposeError::NoOverlap => FatalClass::Geometry,
                ComposeError::BufferCount => FatalClass::OutputFailure,
                ComposeError::Unfinished => FatalClass::OutputFailure,
                ComposeError::FrameFailed => FatalClass::OutputFailure,
                ComposeError::MissingFormat => FatalClass::OutputFailure,
                ComposeError::Normalize(NormalizeError::UnsupportedFormat(_)) => FatalClass::UnsupportedFormat,
                ComposeError::Normalize(_) => FatalClass::OutputFailure,
                ComposeError::CanvasTooLarge => FatalClass::ResourceExhaustion,
                ComposeError::CannotResize => FatalClass::ResourceExhaustion,
            },
        }
    }

    /// The class of the condition.
    #[verifier::when_used_as_spec(spec_class)]
    pub fn class(self) -> (r: FatalClass)
        ensures
            r == self.spec_class(),
    {
        match self {
            Fatal::Capability(_) => FatalClass::Capability,
            Fatal::EmptyGeometry => FatalClass::Geometry,
            Fatal::MalformedGeometry => FatalClass::Geometry,
            Fatal::Plan(PlanError::NoOverlap) => FatalClass::Geometry,
            Fatal::Plan(PlanError::AlreadyRequested) => FatalClass::OutputFailure,
            Fatal::Buffer(BufferError::MissingFormat(_)) => FatalClass::OutputFailure,
            Fatal::Buffer(BufferError::TooLarge(_)) => FatalClass::ResourceExhaustion,
            Fatal::SharedMemory(_) => FatalClass::ResourceExhaustion,
            Fatal::Compose(e) => match e {
                ComposeError::NoOutputs => FatalClass::Geometry,
                ComposeError::NoOverlap => FatalClass::Geometry,
                ComposeError::BufferCount => FatalClass::OutputFailure,
                ComposeError::Unfinished => FatalClass::OutputFailure,
                ComposeError::FrameFailed => FatalClass::OutputFailure,
                ComposeError::MissingFormat => FatalClass::OutputFailure,
                ComposeError::Normalize(NormalizeError::UnsupportedFormat(_)) => FatalClass::UnsupportedFormat,
                ComposeError::Normalize(_) => FatalClass::OutputFailure,
                ComposeError::CanvasTooLarge => FatalClass::ResourceExhaustion,
                ComposeError::CannotResize => FatalClass::ResourceExhaustion,
            },
        }
    }
}

/// The region to capture: all outputs where no text is given, else what
/// the text writes.
pub open spec fn region_for(geometry: Option<Seq<char>>) -> Result<CaptureRegion, Fatal> {
    match geometry {
        None => Ok(
            CaptureRegion {
                x_coordinate: (i32::MIN / 2) as i32,
                y_coordinate: (i32::MIN / 2) as i32,
                width: i32::MAX,
                height: i32::MAX,
            },
        ),
        Some(text) => if text.len() == 0 {
            Err(Fatal::EmptyGeometry)
        } else {
            match parsed_geometry(text) {
                None => Err(Fatal::MalformedGeometry),
                Some(region) => Ok(region),
            }
        },
    }
}

/// The text of an option, if it is given.
pub open spec fn text_of(option: Option<String>) -> Option<Seq<char>> {
    match option {
        None => None,
        Some(text) => Some(text@),
    }
}

/// The region to capture: all outputs where no text is given, else what
/// the text writes.
pub fn region_of(geometry: &Option<String>) -> (r: Result<CaptureRegion, Fatal>)
    ensures
        r == region_for(text_of(*geometry)),
{
    match geometry {
        None => Ok(CaptureRegion::unbounded()),
        Some(text) => {
            if text.as_str().is_empty() {
                return Err(Fatal::EmptyGeometry);
            }
            match parse_geometry(text.as_str()) {
                None => Err(Fatal::MalformedGeometry),
                Some(region) => Ok(region),
            }
        },
    }
}

/// What is to be done once names and geometry are known.
#[derive(Debug, Clone, PartialEq, Eq)]
pub enum Selection {
    /// Report the name of each output; `None` stands for an output that
    /// has not reported its name.
    List(Vec<Option<String>>),
    /// Send the requests of the plan, which captures the region.
    Capture { region: CaptureRegion, plan: CapturePlan },
}

/// The outputs that are left once the output that the user named, if any,
/// has been singled out.
pub open spec fn named_outputs(outputs: Seq<OutputInfo>, name: Option<String>) -> Seq<OutputInfo> {
    match name {
        None => outputs,
        Some(name) => OutputFilter::Name(name).kept(outputs),
    }
}

impl WayshotState {
    /// After the first round: the run goes on only if the compositor has
    /// every capability that it needs.
    pub fn after_discovery(&self) -> (r: Result<(), Fatal>)
        ensures
            r == (if self.shm is None {
                Err::<(), Fatal>(Fatal::Capability(MissingCapability::Shm))
            } else if self.screencopy is None {
                Err::<(), Fatal>(Fatal::Capability(MissingCapability::Screencopy))
            } else {
                Ok::<(), Fatal>(())
            }),
    {
        match self.check_capabilities() {
            Ok(()) => Ok(()),
            Err(missing) => Err(Fatal::Capability(missing)),
        }
    }

    /// After the second round: lists the outputs, or selects those that
    /// take part and plans their capture. Where the user named an output
    /// the others are dropped first. A region that is malformed or lies
    /// on no output ends the run, and then there is no plan and nothing
    /// to request.
    pub fn select(&mut self, options: &Options) -> (r: Result<Selection, Fatal>)
        ensures
            old(self).wf() ==> final(self).wf(),
            final(self).formats == old(self).formats,
            final(self).shm == old(self).shm,
            final(self).screencopy == old(self).screencopy,
            final(self).xdg_output == old(self).xdg_output,
            options.list_outputs ==> final(self).outputs@ == old(self).outputs@ && (
            r matches Ok(Selection::List(names)) && names@ == listed(old(self).outputs@)),
            !options.list_outputs ==> match region_for(text_of(options.geometry)) {
                Err(fatal) => r == Err::<Selection, Fatal>(fatal) && final(self).outputs@
                    == named_outputs(old(self).outputs@, options.output),
                Ok(region) => match plan_error(
                    participants(named_outputs(old(self).outputs@, options.output), region),
                    region,
                ) {
                    Some(e) => r == Err::<Selection, Fatal>(Fatal::Plan(e)) && final(self).outputs@
                        == participants(named_outputs(old(self).outputs@, options.output), region),
                    None => r matches Ok(Selection::Capture { region: chosen, plan }) && chosen
                        == region && final(self).outputs@ == participants(
                        named_outputs(old(self).outputs@, options.output),
                        region,
                    ).map_values(|o: OutputInfo| requested(o)) && plan.requests@ == participants(
                        named_outputs(old(self).outputs@, options.output),
                        region,
                    ).map_values(|o: OutputInfo| request_for(o, region, options.cursor))
                        && plan.canvas@ == hull(
                        overlap_rects(
                            participants(named_outputs(old(self).outputs@, options.output), region),
                            region,
                        ),
                    ),
                },
            },
    {
        if options.list_outputs {
            return Ok(Selection::List(self.list_outputs()));
        }
        match &options.output {
            None => {},
            Some(name) => {
                self.filter(&OutputFilter::Name(name.clone()));
            },
        }
        let region = match region_of(&options.geometry) {
            Err(fatal) => {
                return Err(fatal);
            },
            Ok(region) => region,
        };
        match self.plan_capture(&region, options.cursor) {
            Err(e) => Err(Fatal::Plan(e)),
            Ok(plan) => Ok(Selection::Capture { region, plan }),
        }
    }

    /// After the third round: what to allocate for each output, in the
    /// order of the outputs. An output whose frame has no layout yet, or
    /// one too large for a pool, ends the run; of several, the first does.
    pub fn after_formats(&self) -> (r: Result<Vec<BufferRequest>, Fatal>)
        ensures
            r is Ok <==> forall|i: int|
                0 <= i < self.outputs@.len() ==> buffer_request_for(#[trigger] self.outputs@[i])
                    is Ok,
            r is Ok ==> r.unwrap()@ == self.outputs@.map_values(
                |o: OutputInfo| buffer_request_for(o).unwrap(),
            ),
            r matches Err(fatal) ==> exists|i: int|
                0 <= i < self.outputs@.len() && buffer_request_for(#[trigger] self.outputs@[i])
                    is Err && fatal == Fatal::Buffer(buffer_request_for(self.outputs@[i]).unwrap_err())
                    && forall|j: int|
                    0 <= j < i ==> buffer_request_for(#[trigger] self.outputs@[j]) is Ok,
    {
        match self.buffer_requests() {
            Ok(requests) => Ok(requests),
            Err(e) => Err(Fatal::Buffer(e)),
        }
    }

    /// The capture of some output has failed.
    pub open spec fn any_failed(&self) -> bool {
        exists|i: int|
            0 <= i < self.outputs@.len() && (#[trigger] self.outputs@[i]).frame_state == Some(
                FrameState::Failed,
            )
    }

    /// After each later round: `Ok(false)` while the capture of some
    /// output has not ended, so that another round is due. Once all have
    /// ended, `Ok(true)` if none has failed; one failure ends the run.
    pub fn after_round(&self) -> (r: Result<bool, Fatal>)
        ensures
            r == (if !self.all_terminal() {
                Ok::<bool, Fatal>(false)
            } else if self.any_failed() {
                Err::<bool, Fatal>(Fatal::Compose(ComposeError::FrameFailed))
            } else {
                Ok::<bool, Fatal>(true)
            }),
    {
        if !self.all_terminal() {
            return Ok(false);
        }
        let mut i: usize = 0;
        while i < self.outputs.len()
            invariant
                i <= self.outputs@.len(),
                self.all_terminal(),
                forall|k: int|
                    0 <= k < i ==> (#[trigger] self.outputs@[k]).frame_state != Some(
                        FrameState::Failed,
                    ),
            decreases self.outputs@.len() - i,
        {
            match self.outputs[i].frame_state {
                Some(FrameState::Failed) => {
                    return Err(Fatal::Compose(ComposeError::FrameFailed));
                },
                _ => {},
            }
            i = i + 1;
        }
        Ok(true)
    }

    /// At the end: the picture of `region`, composed of the frames in
    /// `buffers`, one for each output in the order of the outputs.
    pub fn finish(&self, region: &CaptureRegion, buffers: &Vec<Vec<u8>>) -> (r: Result<
        Bitmap,
        Fatal,
    >)
        ensures
            match r {
                Ok(canvas) => is_composed(
                    self.outputs@,
                    *region,
                    buffers@,
                    Ok::<Bitmap, ComposeError>(canvas),
                ),
                Err(fatal) => exists|e: ComposeError|
                    fatal == Fatal::Compose(e) && is_composed(
                        self.outputs@,
                        *region,
                        buffers@,
                        Err::<Bitmap, ComposeError>(e),
                    ),
            },
    {
        match compose(&self.outputs, region, buffers) {
            Ok(canvas) => Ok(canvas),
            Err(e) => Err(Fatal::Compose(e)),
        }
    }
}

} // verus!
