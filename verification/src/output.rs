//! Outputs known to the compositor, where they sit in the global space,
//! and how far the capture of each has come.

use vstd::prelude::*;
use crate::backend::{FrameFormat, FrameState};

verus! {

/// Logical position and size of an output.
#[derive(Debug, Copy, Clone, PartialEq, Eq, Structural)]
pub struct OutputPositioning {
    pub x: i32,
    pub y: i32,
    pub width: i32,
    pub height: i32,
}

impl Default for OutputPositioning {
    fn default() -> (r: Self)
        ensures
            r == (OutputPositioning { x: 0, y: 0, width: 0, height: 0 }),
    {
        OutputPositioning { x: 0, y: 0, width: 0, height: 0 }
    }
}

/// What the compositor says of an output itself.
#[derive(Debug, Clone, PartialEq, Eq)]
pub enum OutputEvent {
    /// The name of the output.
    Name(String),
    /// All properties of the output have been sent.
    Done,
    /// Anything else: mode, scale, physical geometry, description.
    Other,
}

/// What the compositor says of the logical geometry of an output.
#[derive(Debug, Copy, Clone, PartialEq, Eq, Structural)]
pub enum XdgOutputEvent {
    /// Where the output starts in the global space.
    LogicalPosition { x: i32, y: i32 },
    /// The size of the output in the global space.
    LogicalSize { width: i32, height: i32 },
    /// What was sent since the last `Done` belongs together.
    Done,
    /// Anything else: name, description.
    Other,
}

/// What the compositor says of a frame that it was asked to copy.
#[derive(Debug, Copy, Clone, PartialEq, Eq, Structural)]
pub enum FrameEvent {
    /// The layout of the buffer that the frame needs.
    Buffer { format: u32, width: u32, height: u32, stride: u32 },
    /// Flags of the frame.
    Flags,
    /// The frame has been copied into the buffer.
    Ready,
    /// The frame could not be copied.
    Failed,
    /// A damaged region of the frame.
    Damage,
    /// Parameters for a buffer of another kind.
    LinuxDmabuf,
    /// All kinds of buffer have been named.
    BufferDone,
}

/// One output and the state of its capture.
#[derive(Debug, Clone, PartialEq, Eq)]
pub struct OutputInfo {
    /// The number under which the compositor announced the output.
    pub wl_output: u32,
    /// The number of the object that reports the logical geometry.
    pub xdg_output: Option<u32>,
    /// The name of the output; empty until it is known.
    pub name: String,
    /// Position and size, valid once `xdg_ready` is set.
    pub dimensions: OutputPositioning,
    /// Position and size have been reported in full.
    pub xdg_ready: bool,
    /// The name has been reported.
    pub wl_ready: bool,
    /// The number of the frame that was requested, if one was.
    pub frame: Option<u32>,
    /// How the capture ended, once it has.
    pub frame_state: Option<FrameState>,
    /// The layout of the frame's buffer, once the compositor has named it.
    pub frame_format: Option<FrameFormat>,
    /// The descriptor of the memory behind the frame's buffer.
    pub mem_fd: Option<i32>,
    /// A position that was reported and waits for `Done`.
    pub pending_position: Option<(i32, i32)>,
    /// A size that was reported and waits for `Done`.
    pub pending_size: Option<(i32, i32)>,
}

/// How far the capture of an output has come. Name and geometry may come
/// in either order; the other stages follow one another.
#[derive(Debug, Copy, Clone, PartialEq, Eq, Structural)]
pub enum CaptureStage {
    /// Neither name nor geometry is known.
    Discovered,
    /// One of name and geometry is known.
    PartlyKnown,
    /// Name and geometry are known.
    Known,
    /// A frame has been requested.
    CaptureRequested,
    /// The layout of the frame's buffer is known.
    FormatKnown,
    /// The capture has finished or failed.
    Terminal,
}

impl CaptureStage {
    /// The place of the stage in the order of stages.
    pub open spec fn ordinal(self) -> nat {
        match self {
            CaptureStage::Discovered => 0,
            CaptureStage::PartlyKnown => 1,
            CaptureStage::Known => 2,
            CaptureStage::CaptureRequested => 3,
            CaptureStage::FormatKnown => 4,
            CaptureStage::Terminal => 5,
        }
    }
}

impl OutputInfo {
    /// The stages hang together: a capture is requested only of an output
    /// whose name and geometry are known, a layout is known only of a
    /// requested frame, memory is bound only for a known layout, and a
    /// capture finishes only into bound memory.
    pub open spec fn wf(&self) -> bool {
        &&& self.frame is Some ==> self.wl_ready && self.xdg_ready
        &&& self.frame_format is Some ==> self.frame is Some
        &&& self.mem_fd is Some ==> self.frame_format is Some
        &&& self.frame_state is Some ==> self.frame is Some
        &&& self.frame_state == Some(FrameState::Finished) ==> self.mem_fd is Some
    }

    /// The stage that the output is at.
    pub open spec fn spec_stage(&self) -> CaptureStage {
        if self.frame_state is Some {
            CaptureStage::Terminal
        } else if self.frame_format is Some {
            CaptureStage::FormatKnown
        } else if self.frame is Some {
            CaptureStage::CaptureRequested
        } else if self.wl_ready && self.xdg_ready {
            CaptureStage::Known
        } else if self.wl_ready || self.xdg_ready {
            CaptureStage::PartlyKnown
        } else {
            CaptureStage::Discovered
        }
    }

    /// The capture has finished or failed.
    pub open spec fn spec_is_terminal(&self) -> bool {
        self.frame_state is Some
    }

    /// Name and geometry are known.
    pub open spec fn spec_is_usable(&self) -> bool {
        self.wl_ready && self.xdg_ready
    }

    /// The output is as it is first seen, under the given numbers: nothing
    /// is known of it and nothing has been requested.
    pub open spec fn is_fresh(&self, wl_output: u32, xdg_output: Option<u32>) -> bool {
        &&& self.wl_output == wl_output
        &&& self.xdg_output == xdg_output
        &&& self.name@ == Seq::<char>::empty()
        &&& self.dimensions == (OutputPositioning { x: 0, y: 0, width: 0, height: 0 })
        &&& !self.xdg_ready
        &&& !self.wl_ready
        &&& self.frame is None
        &&& self.frame_state is None
        &&& self.frame_format is None
        &&& self.mem_fd is None
        &&& self.pending_position is None
        &&& self.pending_size is None
    }

    /// The output as it is first seen: nothing known, nothing requested.
    pub fn new(wl_output: u32, xdg_output: Option<u32>) -> (r: OutputInfo)
        ensures
            r.wf(),
            r.spec_stage() == CaptureStage::Discovered,
            r.is_fresh(wl_output, xdg_output),
    {
        OutputInfo {
            wl_output,
            xdg_output,
            name: String::new(),
            dimensions: OutputPositioning { x: 0, y: 0, width: 0, height: 0 },
            xdg_ready: false,
            wl_ready: false,
            frame: None,
            frame_state: None,
            frame_format: None,
            mem_fd: None,
            pending_position: None,
            pending_size: None,
        }
    }

    /// The stage that the output is at.
    #[verifier::when_used_as_spec(spec_stage)]
    pub fn stage(&self) -> (r: CaptureStage)
        ensures
            r == self.spec_stage(),
    {
        if self.frame_state.is_some() {
            CaptureStage::Terminal
        } else if self.frame_format.is_some() {
            CaptureStage::FormatKnown
        } else if self.frame.is_some() {
            CaptureStage::CaptureRequested
        } else if self.wl_ready && self.xdg_ready {
            CaptureStage::Known
        } else if self.wl_ready || self.xdg_ready {
            CaptureStage::PartlyKnown
        } else {
            CaptureStage::Discovered
        }
    }

    /// The capture has finished or failed.
    #[verifier::when_used_as_spec(spec_is_terminal)]
    pub fn is_terminal(&self) -> (r: bool)
        ensures
            r == self.spec_is_terminal(),
    {
        self.frame_state.is_some()
    }

    /// Name and geometry are known.
    #[verifier::when_used_as_spec(spec_is_usable)]
    pub fn is_usable(&self) -> (r: bool)
        ensures
            r == self.spec_is_usable(),
    {
        self.wl_ready && self.xdg_ready
    }

    /// The output after an event of the output itself. The first name
    /// that is reported is kept; everything else leaves the output as it
    /// is.
    pub open spec fn after_output_event(self, event: OutputEvent) -> OutputInfo {
        match event {
            OutputEvent::Name(name) => if self.wl_ready {
                self
            } else {
                OutputInfo { name, wl_ready: true, ..self }
            },
            _ => self,
        }
    }

    /// The output after an event of its logical geometry. Position and
    /// size wait until `Done`. `Done` takes over what waits, if the
    /// geometry is then known in full: both wait, or the geometry was
    /// known before. Nothing but the geometry changes.
    pub open spec fn after_xdg_event(self, event: XdgOutputEvent) -> OutputInfo {
        match event {
            XdgOutputEvent::LogicalPosition { x, y } => OutputInfo {
                pending_position: Some((x, y)),
                ..self
            },
            XdgOutputEvent::LogicalSize { width, height } => OutputInfo {
                pending_size: Some((width, height)),
                ..self
            },
            XdgOutputEvent::Done => if self.xdg_ready || (self.pending_position is Some
                && self.pending_size is Some) {
                OutputInfo {
                    dimensions: OutputPositioning {
                        x: match self.pending_position {
                            Some(p) => p.0,
                            None => self.dimensions.x,
                        },
                        y: match self.pending_position {
                            Some(p) => p.1,
                            None => self.dimensions.y,
                        },
                        width: match self.pending_size {
                            Some(s) => s.0,
                            None => self.dimensions.width,
                        },
                        height: match self.pending_size {
                            Some(s) => s.1,
                            None => self.dimensions.height,
                        },
                    },
                    xdg_ready: true,
                    pending_position: None,
                    pending_size: None,
                    ..self
                }
            } else {
                self
            },
            XdgOutputEvent::Other => self,
        }
    }

    /// The output after an event of its frame. While a frame is requested
    /// and the capture has not ended, each layout that is reported takes
    /// the place of the one before, `Ready` ends the capture if memory is
    /// bound, and `Failed` ends it. Without a requested frame, and after
    /// the end, nothing changes.
    pub open spec fn after_frame_event(self, event: FrameEvent) -> OutputInfo {
        if self.frame is None || self.frame_state is Some {
            self
        } else {
            match event {
                FrameEvent::Buffer { format, width, height, stride } => OutputInfo {
                    frame_format: Some(FrameFormat { format, width, height, stride }),
                    ..self
                },
                FrameEvent::Ready => if self.mem_fd is Some {
                    OutputInfo { frame_state: Some(FrameState::Finished), ..self }
                } else {
                    self
                },
                FrameEvent::Failed => OutputInfo { frame_state: Some(FrameState::Failed), ..self },
                _ => self,
            }
        }
    }

    /// Takes in an event of the output itself.
    pub fn apply_output_event(&mut self, event: OutputEvent)
        ensures
            *final(self) == old(self).after_output_event(event),
            old(self).wf() ==> final(self).wf(),
            final(self).stage().ordinal() >= old(self).stage().ordinal(),
    {
        match event {
            OutputEvent::Name(name) => {
                if !self.wl_ready {
                    self.name = name;
                    self.wl_ready = true;
                }
            },
            _ => {},
        }
    }

    /// Takes in an event of the logical geometry.
    pub fn apply_xdg_event(&mut self, event: XdgOutputEvent)
        ensures
            *final(self) == old(self).after_xdg_event(event),
            old(self).wf() ==> final(self).wf(),
            final(self).stage().ordinal() >= old(self).stage().ordinal(),
    {
        match event {
            XdgOutputEvent::LogicalPosition { x, y } => {
                self.pending_position = Some((x, y));
            },
            XdgOutputEvent::LogicalSize { width, height } => {
                self.pending_size = Some((width, height));
            },
            XdgOutputEvent::Done => {
                if self.xdg_ready || (self.pending_position.is_some()
                    && self.pending_size.is_some()) {
                    match self.pending_position {
                        Some(p) => {
                            self.dimensions.x = p.0;
                            self.dimensions.y = p.1;
                        },
                        None => {},
                    }
                    match self.pending_size {
                        Some(s) => {
                            self.dimensions.width = s.0;
                            self.dimensions.height = s.1;
                        },
                        None => {},
                    }
                    self.xdg_ready = true;
                    self.pending_position = None;
                    self.pending_size = None;
                }
            },
            XdgOutputEvent::Other => {},
        }
    }

    /// Takes in an event of the frame.
    pub fn apply_frame_event(&mut self, event: FrameEvent)
        ensures
            *final(self) == old(self).after_frame_event(event),
            old(self).wf() ==> final(self).wf(),
            final(self).stage().ordinal() >= old(self).stage().ordinal(),
    {
        if self.frame.is_none() || self.frame_state.is_some() {
            return ;
        }
        match event {
            FrameEvent::Buffer { format, width, height, stride } => {
                self.frame_format = Some(FrameFormat { format, width, height, stride });
            },
            FrameEvent::Ready => {
                if self.mem_fd.is_some() {
                    self.frame_state = Some(FrameState::Finished);
                }
            },
            FrameEvent::Failed => {
                self.frame_state = Some(FrameState::Failed);
            },
            _ => {},
        }
    }

    /// Notes that `frame` was requested of the output. Refused, with the
    /// output unchanged, unless name and geometry are known and no frame
    /// was requested before.
    pub fn request_capture(&mut self, frame: u32) -> (accepted: bool)
        ensures
            accepted == (old(self).spec_is_usable() && old(self).frame is None),
            accepted ==> *final(self) == (OutputInfo { frame: Some(frame), ..*old(self) }),
            !accepted ==> *final(self) == *old(self),
            old(self).wf() ==> final(self).wf(),
            final(self).stage().ordinal() >= old(self).stage().ordinal(),
    {
        if self.wl_ready && self.xdg_ready && self.frame.is_none() {
            self.frame = Some(frame);
            true
        } else {
            false
        }
    }

    /// Notes the memory that was bound to the frame's buffer. Refused,
    /// with the output unchanged, unless the layout is known, no memory
    /// is bound yet, and the capture has not ended.
    pub fn bind_buffer(&mut self, mem_fd: i32) -> (accepted: bool)
        ensures
            accepted == (old(self).frame_format is Some && old(self).mem_fd is None && old(
                self,
            ).frame_state is None),
            accepted ==> *final(self) == (OutputInfo { mem_fd: Some(mem_fd), ..*old(self) }),
            !accepted ==> *final(self) == *old(self),
            old(self).wf() ==> final(self).wf(),
            final(self).stage().ordinal() >= old(self).stage().ordinal(),
    {
        if self.frame_format.is_some() && self.mem_fd.is_none() && self.frame_state.is_none() {
            self.mem_fd = Some(mem_fd);
            true
        } else {
            false
        }
    }
}

/// No event of the output itself moves a well-formed output back: it
/// stays well-formed, its stage does not fall, and once the capture has
/// ended the output stays as it is.
pub proof fn lemma_output_event_advances(before: OutputInfo, event: OutputEvent)
    requires
        before.wf(),
    ensures
        before.after_output_event(event).wf(),
        before.after_output_event(event).stage().ordinal() >= before.stage().ordinal(),
        before.is_terminal() ==> before.after_output_event(event) == before,
{
}

/// No event of the logical geometry moves a well-formed output back: it
/// stays well-formed and its stage does not fall. Such an event changes
/// the geometry and nothing else, so the frame, its layout, its memory
/// and the end of the capture stay as they are.
pub proof fn lemma_xdg_event_advances(before: OutputInfo, event: XdgOutputEvent)
    requires
        before.wf(),
    ensures
        before.after_xdg_event(event).wf(),
        before.after_xdg_event(event).stage().ordinal() >= before.stage().ordinal(),
        before.after_xdg_event(event) == (OutputInfo {
            dimensions: before.after_xdg_event(event).dimensions,
            xdg_ready: before.after_xdg_event(event).xdg_ready,
            pending_position: before.after_xdg_event(event).pending_position,
            pending_size: before.after_xdg_event(event).pending_size,
            ..before
        }),
        before.xdg_ready ==> before.after_xdg_event(event).xdg_ready,
        before.is_terminal() ==> before.after_xdg_event(event).frame_state == before.frame_state,
{
}

/// No event of the frame moves a well-formed output back: it stays
/// well-formed, its stage does not fall, and once the capture has ended
/// the output stays as it is.
pub proof fn lemma_frame_event_advances(before: OutputInfo, event: FrameEvent)
    requires
        before.wf(),
    ensures
        before.after_frame_event(event).wf(),
        before.after_frame_event(event).stage().ordinal() >= before.stage().ordinal(),
        before.is_terminal() ==> before.after_frame_event(event) == before,
{
}

} // verus!
