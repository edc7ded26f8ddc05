//! The capture session: which capabilities of the compositor are bound,
//! which outputs are known, and what each event does to them.

use vstd::prelude::*;
use crate::backend::CaptureRegion;
use crate::geometry::overlap;
use crate::output::{
    lemma_frame_event_advances, lemma_output_event_advances, lemma_xdg_event_advances, FrameEvent,
    OutputEvent, OutputInfo, XdgOutputEvent,
};

verus! {

/// What the session does with a global that the compositor announces.
#[derive(Debug, Copy, Clone, PartialEq, Eq, Structural)]
pub enum GlobalAction {
    /// Bind the factory of shared memory pools.
    BindShm,
    /// Bind the manager that copies frames.
    BindScreencopy,
    /// Bind the manager of logical geometry, and ask it for the geometry
    /// of every output that is known so far.
    BindXdgOutputManager,
    /// Bind the output; ask for its logical geometry too if the manager
    /// of logical geometry is bound already.
    BindOutput { with_geometry: bool },
    /// Leave the global alone.
    Ignore,
}

/// A capability that the session cannot work without.
#[derive(Debug, Copy, Clone, PartialEq, Eq, Structural)]
pub enum MissingCapability {
    /// The compositor has no factory of shared memory pools.
    Shm,
    /// The compositor has no manager that copies frames.
    Screencopy,
}

/// The state of a capture session.
#[derive(Debug, Clone, PartialEq, Eq)]
pub struct WayshotState {
    /// The pixel layouts that the compositor supports in shared memory.
    pub formats: Vec<u32>,
    /// The outputs, in the order in which they were announced.
    pub outputs: Vec<OutputInfo>,
    /// The global of the factory of shared memory pools, once bound.
    pub shm: Option<u32>,
    /// The global of the manager that copies frames, once bound.
    pub screencopy: Option<u32>,
    /// The global of the manager of logical geometry, once bound.
    pub xdg_output: Option<u32>,
}

/// Which outputs to keep.
#[derive(Debug, Clone, PartialEq, Eq)]
pub enum OutputFilter {
    /// Those whose name is known and is this one.
    Name(String),
    /// Those whose geometry is known and shares a point with this region.
    Region(CaptureRegion),
    /// Those whose name and geometry are both known.
    Complete,
}

impl OutputFilter {
    /// The filter keeps `output`.
    pub open spec fn spec_matches(&self, output: &OutputInfo) -> bool {
        match self {
            OutputFilter::Name(name) => output.wl_ready && output.name@ == name@,
            OutputFilter::Region(region) => output.xdg_ready && output.dimensions@.intersect(
                region@,
            ).is_nonempty(),
            OutputFilter::Complete => output.wl_ready && output.xdg_ready,
        }
    }

    /// The filter keeps `output`: its name is known and is the one asked
    /// for, or its geometry is known and shares a point with the region,
    /// or name and geometry are both known.
    #[verifier::when_used_as_spec(spec_matches)]
    pub fn matches(&self, output: &OutputInfo) -> (r: bool)
        ensures
            r == self.spec_matches(output),
    {
        match self {
            OutputFilter::Name(name) => output.wl_ready && output.name == *name,
            OutputFilter::Region(region) => output.xdg_ready && overlap(
                &output.dimensions,
                region,
            ).is_some(),
            OutputFilter::Complete => output.wl_ready && output.xdg_ready,
        }
    }

    /// The outputs that the filter keeps, in their order.
    pub open spec fn kept(&self, outputs: Seq<OutputInfo>) -> Seq<OutputInfo> {
        outputs.filter(|o: OutputInfo| self.spec_matches(&o))
    }
}

/// The lowest version of the output interface that reports names.
pub const OUTPUT_VERSION: u32 = 4;

/// The action for a global of the given interface and version, with the
/// manager of logical geometry bound or not.
pub open spec fn action_for(interface: Seq<char>, version: u32, has_manager: bool) -> GlobalAction {
    if interface == "wl_shm"@ {
        GlobalAction::BindShm
    } else if interface == "zwlr_screencopy_manager_v1"@ {
        GlobalAction::BindScreencopy
    } else if interface == "zxdg_output_manager_v1"@ {
        GlobalAction::BindXdgOutputManager
    } else if interface == "wl_output"@ && version >= OUTPUT_VERSION {
        GlobalAction::BindOutput { with_geometry: has_manager }
    } else {
        GlobalAction::Ignore
    }
}

/// `a` and `b` hold the same text.
fn same_text(a: &str, b: &str) -> (r: bool)
    ensures
        r == (a@ == b@),
{
    let left = a.to_owned();
    let right = b.to_owned();
    left == right
}

/// The name of each output, in the order of the outputs; `None` for an
/// output that has not reported its name.
pub open spec fn listed(outputs: Seq<OutputInfo>) -> Seq<Option<String>> {
    Seq::new(
        outputs.len(),
        |i: int|
            if outputs[i].wl_ready {
                Some(outputs[i].name)
            } else {
                None
            },
    )
}

/// The output with geometry asked for under its own number.
pub open spec fn with_geometry_asked(output: OutputInfo) -> OutputInfo {
    OutputInfo { xdg_output: Some(output.wl_output), ..output }
}

impl WayshotState {
    /// Every output is well-formed.
    pub open spec fn wf(&self) -> bool {
        forall|i: int| 0 <= i < self.outputs@.len() ==> (#[trigger] self.outputs@[i]).wf()
    }

    /// A session that has seen nothing yet.
    pub fn new() -> (r: WayshotState)
        ensures
            r.wf(),
            r.formats@.len() == 0,
            r.outputs@.len() == 0,
            r.shm is None,
            r.screencopy is None,
            r.xdg_output is None,
    {
        WayshotState {
            formats: Vec::new(),
            outputs: Vec::new(),
            shm: None,
            screencopy: None,
            xdg_output: None,
        }
    }

    /// Takes in the announcement of the global `name` and says what to do
    /// with it. The session notes the capability as bound, or the output
    /// as known, under that number.
    pub fn on_global(&mut self, name: u32, interface: &str, version: u32) -> (action: GlobalAction)
        ensures
            old(self).wf() ==> final(self).wf(),
            action == action_for(interface@, version, old(self).xdg_output is Some),
            final(self).formats == old(self).formats,
            final(self).shm == (if action == GlobalAction::BindShm {
                Some(name)
            } else {
                old(self).shm
            }),
            final(self).screencopy == (if action == GlobalAction::BindScreencopy {
                Some(name)
            } else {
                old(self).screencopy
            }),
            final(self).xdg_output == (if action == GlobalAction::BindXdgOutputManager {
                Some(name)
            } else {
                old(self).xdg_output
            }),
            match action {
                GlobalAction::BindXdgOutputManager => final(self).outputs@ == old(
                    self,
                ).outputs@.map_values(|o: OutputInfo| with_geometry_asked(o)),
                GlobalAction::BindOutput { with_geometry } => final(self).outputs@.len() == old(
                    self,
                ).outputs@.len() + 1 && final(self).outputs@.drop_last() == old(self).outputs@
                    && final(self).outputs@.last().is_fresh(
                    name,
                    if with_geometry {
                        Some(name)
                    } else {
                        None
                    },
                ),
                _ => final(self).outputs@ == old(self).outputs@,
            },
    {
        if same_text(interface, "wl_shm") {
            self.shm = Some(name);
            GlobalAction::BindShm
        } else if same_text(interface, "zwlr_screencopy_manager_v1") {
            self.screencopy = Some(name);
            GlobalAction::BindScreencopy
        } else if same_text(interface, "zxdg_output_manager_v1") {
            let n: usize = self.outputs.len();
            let mut i: usize = 0;
            while i < n
                invariant
                    i <= n,
                    n == old(self).outputs@.len(),
                    self.outputs@.len() == n,
                    self.formats == old(self).formats,
                    self.shm == old(self).shm,
                    self.screencopy == old(self).screencopy,
                    self.xdg_output == old(self).xdg_output,
                    forall|j: int|
                        0 <= j < i ==> #[trigger] self.outputs@[j] == with_geometry_asked(
                            old(self).outputs@[j],
                        ),
                    forall|j: int| i <= j < n ==> #[trigger] self.outputs@[j] == old(self).outputs@[j],
                decreases n - i,
            {
                let id: u32 = self.outputs[i].wl_output;
                self.outputs[i].xdg_output = Some(id);
                i = i + 1;
            }
            self.xdg_output = Some(name);
            proof {
                assert(self.outputs@ =~= old(self).outputs@.map_values(
                    |o: OutputInfo| with_geometry_asked(o),
                ));
            }
            GlobalAction::BindXdgOutputManager
        } else if same_text(interface, "wl_output") && version >= OUTPUT_VERSION {
            let with_geometry: bool = self.xdg_output.is_some();
            let xdg_output: Option<u32> = if with_geometry {
                Some(name)
            } else {
                None
            };
            self.outputs.push(OutputInfo::new(name, xdg_output));
            GlobalAction::BindOutput { with_geometry }
        } else {
            GlobalAction::Ignore
        }
    }

    /// Notes a pixel layout that the compositor supports in shared memory.
    pub fn on_shm_format(&mut self, format: u32)
        ensures
            final(self).formats@ == old(self).formats@.push(format),
            final(self).outputs == old(self).outputs,
            final(self).shm == old(self).shm,
            final(self).screencopy == old(self).screencopy,
            final(self).xdg_output == old(self).xdg_output,
    {
        self.formats.push(format);
    }

    /// Hands an event of the output itself to every output that goes by
    /// the number `wl_output`. The other outputs stay as they are.
    pub fn on_output_event(&mut self, wl_output: u32, event: OutputEvent)
        ensures
            old(self).wf() ==> final(self).wf(),
            final(self).formats == old(self).formats,
            final(self).shm == old(self).shm,
            final(self).screencopy == old(self).screencopy,
            final(self).xdg_output == old(self).xdg_output,
            final(self).outputs@.len() == old(self).outputs@.len(),
            forall|i: int|
                0 <= i < old(self).outputs@.len() ==> (#[trigger] final(self).outputs@[i]).stage().ordinal()
                    >= old(self).outputs@[i].stage().ordinal(),
            forall|i: int|
                0 <= i < old(self).outputs@.len() ==> #[trigger] final(self).outputs@[i] == (if old(
                    self,
                ).outputs@[i].wl_output == wl_output {
                    old(self).outputs@[i].after_output_event(event)
                } else {
                    old(self).outputs@[i]
                }),
    {
        let n: usize = self.outputs.len();
        let mut i: usize = 0;
        while i < n
            invariant
                i <= n,
                n == old(self).outputs@.len(),
                self.outputs@.len() == n,
                self.formats == old(self).formats,
                self.shm == old(self).shm,
                self.screencopy == old(self).screencopy,
                self.xdg_output == old(self).xdg_output,
                forall|j: int|
                    0 <= j < i ==> #[trigger] self.outputs@[j] == (if old(
                        self,
                    ).outputs@[j].wl_output == wl_output {
                        old(self).outputs@[j].after_output_event(event)
                    } else {
                        old(self).outputs@[j]
                    }),
                forall|j: int| i <= j < n ==> #[trigger] self.outputs@[j] == old(self).outputs@[j],
            decreases n - i,
        {
            if self.outputs[i].wl_output == wl_output {
                match &event {
                    OutputEvent::Name(name) => {
                        self.outputs[i].apply_output_event(OutputEvent::Name(name.clone()));
                    },
                    OutputEvent::Done => {
                        self.outputs[i].apply_output_event(OutputEvent::Done);
                    },
                    OutputEvent::Other => {
                        self.outputs[i].apply_output_event(OutputEvent::Other);
                    },
                }
            }
            i = i + 1;
        }
        proof {
            assert forall|j: int| 0 <= j < self.outputs@.len() && old(self).wf() implies (
            #[trigger] self.outputs@[j]).wf() by {
                lemma_output_event_advances(old(self).outputs@[j], event);
            }
        }
    }

    /// Hands an event of the logical geometry to every output whose
    /// geometry is reported under the number `xdg_output`.
    pub fn on_xdg_output_event(&mut self, xdg_output: u32, event: XdgOutputEvent)
        ensures
            old(self).wf() ==> final(self).wf(),
            final(self).formats == old(self).formats,
            final(self).shm == old(self).shm,
            final(self).screencopy == old(self).screencopy,
            final(self).xdg_output == old(self).xdg_output,
            final(self).outputs@.len() == old(self).outputs@.len(),
            forall|i: int|
                0 <= i < old(self).outputs@.len() ==> (#[trigger] final(self).outputs@[i]).stage().ordinal()
                    >= old(self).outputs@[i].stage().ordinal(),
            forall|i: int|
                0 <= i < old(self).outputs@.len() ==> #[trigger] final(self).outputs@[i] == (if old(
                    self,
                ).outputs@[i].xdg_output == Some(xdg_output) {
                    old(self).outputs@[i].after_xdg_event(event)
                } else {
                    old(self).outputs@[i]
                }),
    {
        let n: usize = self.outputs.len();
        let mut i: usize = 0;
        while i < n
            invariant
                i <= n,
                n == old(self).outputs@.len(),
                self.outputs@.len() == n,
                self.formats == old(self).formats,
                self.shm == old(self).shm,
                self.screencopy == old(self).screencopy,
                self.xdg_output == old(self).xdg_output,
                forall|j: int|
                    0 <= j < i ==> #[trigger] self.outputs@[j] == (if old(
                        self,
                    ).outputs@[j].xdg_output == Some(xdg_output) {
                        old(self).outputs@[j].after_xdg_event(event)
                    } else {
                        old(self).outputs@[j]
                    }),
                forall|j: int| i <= j < n ==> #[trigger] self.outputs@[j] == old(self).outputs@[j],
            decreases n - i,
        {
            let matches: bool = match self.outputs[i].xdg_output {
                Some(id) => id == xdg_output,
                None => false,
            };
            if matches {
                self.outputs[i].apply_xdg_event(event);
            }
            i = i + 1;
        }
        proof {
            assert forall|j: int| 0 <= j < self.outputs@.len() && old(self).wf() implies (
            #[trigger] self.outputs@[j]).wf() by {
                lemma_xdg_event_advances(old(self).outputs@[j], event);
            }
        }
    }

    /// Hands an event of a frame to every output of which the frame
    /// `frame` was requested.
    pub fn on_frame_event(&mut self, frame: u32, event: FrameEvent)
        ensures
            old(self).wf() ==> final(self).wf(),
            final(self).formats == old(self).formats,
            final(self).shm == old(self).shm,
            final(self).screencopy == old(self).screencopy,
            final(self).xdg_output == old(self).xdg_output,
            final(self).outputs@.len() == old(self).outputs@.len(),
            forall|i: int|
                0 <= i < old(self).outputs@.len() ==> (#[trigger] final(self).outputs@[i]).stage().ordinal()
                    >= old(self).outputs@[i].stage().ordinal(),
            forall|i: int|
                0 <= i < old(self).outputs@.len() ==> #[trigger] final(self).outputs@[i] == (if old(
                    self,
                ).outputs@[i].frame == Some(frame) {
                    old(self).outputs@[i].after_frame_event(event)
                } else {
                    old(self).outputs@[i]
                }),
    {
        let n: usize = self.outputs.len();
        let mut i: usize = 0;
        while i < n
            invariant
                i <= n,
                n == old(self).outputs@.len(),
                self.outputs@.len() == n,
                self.formats == old(self).formats,
                self.shm == old(self).shm,
                self.screencopy == old(self).screencopy,
                self.xdg_output == old(self).xdg_output,
                forall|j: int|
                    0 <= j < i ==> #[trigger] self.outputs@[j] == (if old(self).outputs@[j].frame
                        == Some(frame) {
                        old(self).outputs@[j].after_frame_event(event)
                    } else {
                        old(self).outputs@[j]
                    }),
                forall|j: int| i <= j < n ==> #[trigger] self.outputs@[j] == old(self).outputs@[j],
            decreases n - i,
        {
            let matches: bool = match self.outputs[i].frame {
                Some(id) => id == frame,
                None => false,
            };
            if matches {
                self.outputs[i].apply_frame_event(event);
            }
            i = i + 1;
        }
        proof {
            assert forall|j: int| 0 <= j < self.outputs@.len() && old(self).wf() implies (
            #[trigger] self.outputs@[j]).wf() by {
                lemma_frame_event_advances(old(self).outputs@[j], event);
            }
        }
    }

    /// Removes the outputs that `filter` does not keep. The others stay
    /// in their order.
    pub fn filter(&mut self, filter: &OutputFilter)
        ensures
            old(self).wf() ==> final(self).wf(),
            final(self).outputs@ == filter.kept(old(self).outputs@),
            forall|i: int|
                0 <= i < final(self).outputs@.len() ==> filter.spec_matches(
                    &#[trigger] final(self).outputs@[i],
                ),
            forall|i: int|
                0 <= i < final(self).outputs@.len() ==> old(self).outputs@.contains(
                    #[trigger] final(self).outputs@[i],
                ),
            final(self).formats == old(self).formats,
            final(self).shm == old(self).shm,
            final(self).screencopy == old(self).screencopy,
            final(self).xdg_output == old(self).xdg_output,
    {
        let ghost all = self.outputs@;
        let ghost pred = |o: OutputInfo| filter.spec_matches(&o);
        let mut i: usize = 0;
        let ghost mut seen: int = 0;
        proof {
            reveal(Seq::filter);
        }
        // Of the first `seen` outputs those that are kept stand in front,
        // up to `i`; the outputs after them are still to be looked at.
        while i < self.outputs.len()
            invariant
                i <= self.outputs@.len(),
                0 <= seen <= all.len(),
                all == old(self).outputs@,
                pred == (|o: OutputInfo| filter.spec_matches(&o)),
                self.outputs@.take(i as int) == all.take(seen).filter(pred),
                self.outputs@.skip(i as int) == all.skip(seen),
                self.formats == old(self).formats,
                self.shm == old(self).shm,
                self.screencopy == old(self).screencopy,
                self.xdg_output == old(self).xdg_output,
                old(self).wf() ==> forall|j: int| 0 <= j < i ==> (#[trigger] self.outputs@[j]).wf(),
            decreases self.outputs@.len() - i,
        {
            proof {
                reveal(Seq::filter);
                assert(all.skip(seen).len() == all.len() - seen);
                assert(all.skip(seen)[0] == all[seen]);
                assert(all.take(seen + 1).drop_last() =~= all.take(seen));
            }
            if filter.matches(&self.outputs[i]) {
                i = i + 1;
            } else {
                self.outputs.remove(i);
            }
            proof {
                assert(all.skip(seen + 1) =~= all.skip(seen).skip(1));
                seen = seen + 1;
            }
        }
        proof {
            assert(all.take(seen) =~= all);
            assert forall|k: int| 0 <= k < self.outputs@.len() implies filter.spec_matches(
                &#[trigger] self.outputs@[k],
            ) && all.contains(self.outputs@[k]) by {
                all.lemma_filter_pred(pred, k);
                all.lemma_filter_contains_rev(pred, self.outputs@[k]);
            }
        }
    }

    /// The name of each output, in the order of the outputs; `None` for
    /// an output that has not reported its name.
    pub fn list_outputs(&self) -> (names: Vec<Option<String>>)
        ensures
            names@ == listed(self.outputs@),
    {
        let mut names: Vec<Option<String>> = Vec::new();
        let mut i: usize = 0;
        while i < self.outputs.len()
            invariant
                i <= self.outputs@.len(),
                names@ == listed(self.outputs@.take(i as int)),
            decreases self.outputs@.len() - i,
        {
            if self.outputs[i].wl_ready {
                names.push(Some(self.outputs[i].name.clone()));
            } else {
                names.push(None);
            }
            i = i + 1;
            proof {
                assert(names@ =~= listed(self.outputs@.take(i as int)));
            }
        }
        proof {
            assert(self.outputs@.take(i as int) =~= self.outputs@);
        }
        names
    }

    /// The numbers of the outputs of which name or geometry is not known
    /// yet, in the order of the outputs. These take no part in a capture.
    pub fn incomplete_outputs(&self) -> (numbers: Vec<u32>)
        ensures
            numbers@ == self.outputs@.filter(|o: OutputInfo| !o.is_usable()).map_values(
                |o: OutputInfo| o.wl_output,
            ),
    {
        let ghost pred = |o: OutputInfo| !o.is_usable();
        let ghost number = |o: OutputInfo| o.wl_output;
        let mut numbers: Vec<u32> = Vec::new();
        let mut i: usize = 0;
        proof {
            reveal(Seq::filter);
        }
        while i < self.outputs.len()
            invariant
                i <= self.outputs@.len(),
                pred == (|o: OutputInfo| !o.is_usable()),
                number == (|o: OutputInfo| o.wl_output),
                numbers@ == self.outputs@.take(i as int).filter(pred).map_values(number),
            decreases self.outputs@.len() - i,
        {
            proof {
                reveal(Seq::filter);
                assert(self.outputs@.take(i + 1).drop_last() =~= self.outputs@.take(i as int));
            }
            if !self.outputs[i].is_usable() {
                numbers.push(self.outputs[i].wl_output);
            }
            i = i + 1;
            proof {
                assert(numbers@ =~= self.outputs@.take(i as int).filter(pred).map_values(number));
            }
        }
        proof {
            assert(self.outputs@.take(i as int) =~= self.outputs@);
        }
        numbers
    }

    /// The first capability that the session needs and the compositor
    /// did not announce, if there is one.
    pub fn check_capabilities(&self) -> (r: Result<(), MissingCapability>)
        ensures
            r == (if self.shm is None {
                Err::<(), MissingCapability>(MissingCapability::Shm)
            } else if self.screencopy is None {
                Err::<(), MissingCapability>(MissingCapability::Screencopy)
            } else {
                Ok::<(), MissingCapability>(())
            }),
    {
        if self.shm.is_none() {
            Err(MissingCapability::Shm)
        } else if self.screencopy.is_none() {
            Err(MissingCapability::Screencopy)
        } else {
            Ok(())
        }
    }

    /// The capture of every output has ended.
    pub open spec fn spec_all_terminal(&self) -> bool {
        forall|i: int| 0 <= i < self.outputs@.len() ==> (#[trigger] self.outputs@[i]).is_terminal()
    }

    /// The capture of every output has ended.
    #[verifier::when_used_as_spec(spec_all_terminal)]
    pub fn all_terminal(&self) -> (r: bool)
        ensures
            r == self.spec_all_terminal(),
    {
        let mut i: usize = 0;
        while i < self.outputs.len()
            invariant
                i <= self.outputs@.len(),
                forall|j: int| 0 <= j < i ==> (#[trigger] self.outputs@[j]).is_terminal(),
            decreases self.outputs@.len() - i,
        {
            if !self.outputs[i].is_terminal() {
                return false;
            }
            i = i + 1;
        }
        true
    }
}

} // verus!
