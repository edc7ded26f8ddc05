use wayshot::backend::{FrameFormat, FrameState};
use wayshot::output::{
    CaptureStage, FrameEvent, OutputEvent, OutputInfo, OutputPositioning, XdgOutputEvent,
};

fn ordinal(stage: CaptureStage) -> u32 {
    match stage {
        CaptureStage::Discovered => 0,
        CaptureStage::PartlyKnown => 1,
        CaptureStage::Known => 2,
        CaptureStage::CaptureRequested => 3,
        CaptureStage::FormatKnown => 4,
        CaptureStage::Terminal => 5,
    }
}

fn known_output() -> OutputInfo {
    let mut output = OutputInfo::new(7, Some(7));
    output.apply_output_event(OutputEvent::Name("DP-1".to_string()));
    output.apply_xdg_event(XdgOutputEvent::LogicalPosition { x: 10, y: 20 });
    output.apply_xdg_event(XdgOutputEvent::LogicalSize { width: 1920, height: 1080 });
    output.apply_xdg_event(XdgOutputEvent::Done);
    output
}

fn buffer_event() -> FrameEvent {
    FrameEvent::Buffer { format: 1, width: 1920, height: 1080, stride: 7680 }
}

#[test]
fn new_output_knows_nothing() {
    let output = OutputInfo::new(3, None);
    assert_eq!(output.wl_output, 3);
    assert_eq!(output.xdg_output, None);
    assert_eq!(output.name, "");
    assert_eq!(output.dimensions, OutputPositioning { x: 0, y: 0, width: 0, height: 0 });
    assert!(!output.wl_ready && !output.xdg_ready);
    assert_eq!(output.frame, None);
    assert_eq!(output.frame_state, None);
    assert_eq!(output.frame_format, None);
    assert_eq!(output.mem_fd, None);
    assert_eq!(output.stage(), CaptureStage::Discovered);
    assert!(!output.is_terminal());
    assert!(!output.is_usable());
}

#[test]
fn name_is_taken_once() {
    let mut output = OutputInfo::new(3, None);
    output.apply_output_event(OutputEvent::Done);
    assert!(!output.wl_ready);
    output.apply_output_event(OutputEvent::Other);
    assert_eq!(output.stage(), CaptureStage::Discovered);
    output.apply_output_event(OutputEvent::Name("eDP-1".to_string()));
    assert!(output.wl_ready);
    assert_eq!(output.name, "eDP-1");
    assert_eq!(output.stage(), CaptureStage::PartlyKnown);
    output.apply_output_event(OutputEvent::Name("other".to_string()));
    assert_eq!(output.name, "eDP-1");
}

#[test]
fn geometry_waits_for_done() {
    let mut output = OutputInfo::new(3, Some(3));
    output.apply_xdg_event(XdgOutputEvent::LogicalPosition { x: 10, y: 20 });
    assert_eq!(output.dimensions, OutputPositioning { x: 0, y: 0, width: 0, height: 0 });
    assert!(!output.xdg_ready);
    output.apply_xdg_event(XdgOutputEvent::LogicalSize { width: 800, height: 600 });
    assert_eq!(output.dimensions, OutputPositioning { x: 0, y: 0, width: 0, height: 0 });
    assert!(!output.xdg_ready);
    assert_eq!(output.stage(), CaptureStage::Discovered);
    output.apply_xdg_event(XdgOutputEvent::Done);
    assert_eq!(output.dimensions, OutputPositioning { x: 10, y: 20, width: 800, height: 600 });
    assert!(output.xdg_ready);
    assert_eq!(output.pending_position, None);
    assert_eq!(output.pending_size, None);
    assert_eq!(output.stage(), CaptureStage::PartlyKnown);
}

#[test]
fn done_without_both_parts_changes_nothing() {
    let mut output = OutputInfo::new(3, Some(3));
    output.apply_xdg_event(XdgOutputEvent::Done);
    assert!(!output.xdg_ready);
    output.apply_xdg_event(XdgOutputEvent::LogicalPosition { x: 10, y: 20 });
    output.apply_xdg_event(XdgOutputEvent::Done);
    assert!(!output.xdg_ready);
    assert_eq!(output.dimensions, OutputPositioning { x: 0, y: 0, width: 0, height: 0 });
    assert_eq!(output.pending_position, Some((10, 20)));
    output.apply_xdg_event(XdgOutputEvent::LogicalSize { width: 5, height: 6 });
    output.apply_xdg_event(XdgOutputEvent::Other);
    assert!(!output.xdg_ready);
    output.apply_xdg_event(XdgOutputEvent::Done);
    assert_eq!(output.dimensions, OutputPositioning { x: 10, y: 20, width: 5, height: 6 });
}

#[test]
fn known_geometry_takes_a_partial_update() {
    let mut output = known_output();
    output.apply_xdg_event(XdgOutputEvent::LogicalPosition { x: -5, y: 0 });
    assert_eq!(output.dimensions, OutputPositioning { x: 10, y: 20, width: 1920, height: 1080 });
    output.apply_xdg_event(XdgOutputEvent::Done);
    assert_eq!(output.dimensions, OutputPositioning { x: -5, y: 0, width: 1920, height: 1080 });
    assert!(output.xdg_ready);
    output.apply_xdg_event(XdgOutputEvent::LogicalSize { width: 1, height: 2 });
    output.apply_xdg_event(XdgOutputEvent::Done);
    assert_eq!(output.dimensions, OutputPositioning { x: -5, y: 0, width: 1, height: 2 });
}

#[test]
fn name_and_geometry_come_in_either_order() {
    let mut first = OutputInfo::new(1, Some(1));
    first.apply_xdg_event(XdgOutputEvent::LogicalPosition { x: 0, y: 0 });
    first.apply_xdg_event(XdgOutputEvent::LogicalSize { width: 1, height: 1 });
    first.apply_xdg_event(XdgOutputEvent::Done);
    assert_eq!(first.stage(), CaptureStage::PartlyKnown);
    first.apply_output_event(OutputEvent::Name("a".to_string()));
    assert_eq!(first.stage(), CaptureStage::Known);
    assert!(first.is_usable());
    assert_eq!(known_output().stage(), CaptureStage::Known);
}

#[test]
fn capture_is_requested_once() {
    let mut output = known_output();
    assert!(output.request_capture(11));
    assert_eq!(output.frame, Some(11));
    assert_eq!(output.stage(), CaptureStage::CaptureRequested);
    assert!(!output.request_capture(12));
    assert_eq!(output.frame, Some(11));
}

#[test]
fn capture_needs_name_and_geometry() {
    let mut nameless = OutputInfo::new(1, Some(1));
    nameless.apply_xdg_event(XdgOutputEvent::LogicalPosition { x: 0, y: 0 });
    nameless.apply_xdg_event(XdgOutputEvent::LogicalSize { width: 1, height: 1 });
    nameless.apply_xdg_event(XdgOutputEvent::Done);
    assert!(!nameless.request_capture(1));
    assert_eq!(nameless.frame, None);
    let mut placeless = OutputInfo::new(2, Some(2));
    placeless.apply_output_event(OutputEvent::Name("b".to_string()));
    assert!(!placeless.request_capture(2));
    assert_eq!(placeless.stage(), CaptureStage::PartlyKnown);
}

#[test]
fn geometry_is_taken_at_any_time() {
    let mut output = known_output();
    assert!(output.request_capture(7));
    output.apply_xdg_event(XdgOutputEvent::LogicalPosition { x: 99, y: 98 });
    output.apply_xdg_event(XdgOutputEvent::LogicalSize { width: 9, height: 8 });
    assert_eq!(output.dimensions, OutputPositioning { x: 10, y: 20, width: 1920, height: 1080 });
    output.apply_xdg_event(XdgOutputEvent::Done);
    assert_eq!(output.dimensions, OutputPositioning { x: 99, y: 98, width: 9, height: 8 });
    assert_eq!(output.frame, Some(7));
    assert_eq!(output.stage(), CaptureStage::CaptureRequested);
}

#[test]
fn geometry_events_change_the_geometry_only() {
    let mut output = known_output();
    output.request_capture(7);
    output.apply_frame_event(buffer_event());
    output.bind_buffer(5);
    let before = output.clone();
    output.apply_xdg_event(XdgOutputEvent::LogicalPosition { x: 1, y: 2 });
    output.apply_xdg_event(XdgOutputEvent::Done);
    assert_eq!(output.dimensions, OutputPositioning { x: 1, y: 2, width: 1920, height: 1080 });
    output.dimensions = before.dimensions;
    assert_eq!(output, before);
}

#[test]
fn frame_events_without_a_request_are_ignored() {
    let mut output = known_output();
    let before = output.clone();
    output.apply_frame_event(buffer_event());
    output.apply_frame_event(FrameEvent::Ready);
    output.apply_frame_event(FrameEvent::Failed);
    assert_eq!(output, before);
}

#[test]
fn layout_is_the_one_reported_last() {
    let mut output = known_output();
    output.request_capture(7);
    output.apply_frame_event(buffer_event());
    assert_eq!(
        output.frame_format,
        Some(FrameFormat { format: 1, width: 1920, height: 1080, stride: 7680 })
    );
    assert_eq!(output.stage(), CaptureStage::FormatKnown);
    output.apply_frame_event(FrameEvent::Buffer { format: 0, width: 1, height: 1, stride: 4 });
    assert_eq!(
        output.frame_format,
        Some(FrameFormat { format: 0, width: 1, height: 1, stride: 4 })
    );
    assert_eq!(output.frame_state, None);
    assert_eq!(output.stage(), CaptureStage::FormatKnown);
}

#[test]
fn layout_is_taken_with_memory_bound() {
    let mut output = known_output();
    output.request_capture(7);
    output.apply_frame_event(buffer_event());
    output.bind_buffer(5);
    output.apply_frame_event(FrameEvent::Buffer { format: 0, width: 2, height: 3, stride: 8 });
    assert_eq!(
        output.frame_format,
        Some(FrameFormat { format: 0, width: 2, height: 3, stride: 8 })
    );
    assert_eq!(output.mem_fd, Some(5));
    assert_eq!(output.frame_state, None);
}

#[test]
fn memory_is_bound_once_and_only_for_a_known_layout() {
    let mut output = known_output();
    assert!(!output.bind_buffer(5));
    output.request_capture(7);
    assert!(!output.bind_buffer(5));
    assert_eq!(output.mem_fd, None);
    output.apply_frame_event(buffer_event());
    assert!(output.bind_buffer(5));
    assert_eq!(output.mem_fd, Some(5));
    assert!(!output.bind_buffer(6));
    assert_eq!(output.mem_fd, Some(5));
    assert_eq!(output.stage(), CaptureStage::FormatKnown);
}

#[test]
fn ready_needs_bound_memory() {
    let mut output = known_output();
    output.request_capture(7);
    output.apply_frame_event(FrameEvent::Ready);
    assert_eq!(output.frame_state, None);
    output.apply_frame_event(buffer_event());
    output.apply_frame_event(FrameEvent::Ready);
    assert_eq!(output.frame_state, None);
    output.bind_buffer(5);
    output.apply_frame_event(FrameEvent::Ready);
    assert_eq!(output.frame_state, Some(FrameState::Finished));
    assert_eq!(output.stage(), CaptureStage::Terminal);
    assert!(output.is_terminal());
}

#[test]
fn failure_ends_the_capture_at_any_time_after_the_request() {
    let mut early = known_output();
    early.request_capture(7);
    early.apply_frame_event(FrameEvent::Failed);
    assert_eq!(early.frame_state, Some(FrameState::Failed));
    assert_eq!(early.stage(), CaptureStage::Terminal);
    let mut late = known_output();
    late.request_capture(7);
    late.apply_frame_event(buffer_event());
    late.bind_buffer(3);
    late.apply_frame_event(FrameEvent::Failed);
    assert_eq!(late.frame_state, Some(FrameState::Failed));
}

#[test]
fn other_frame_events_change_nothing() {
    let mut output = known_output();
    output.request_capture(7);
    output.apply_frame_event(buffer_event());
    let before = output.clone();
    output.apply_frame_event(FrameEvent::Flags);
    output.apply_frame_event(FrameEvent::Damage);
    output.apply_frame_event(FrameEvent::LinuxDmabuf);
    output.apply_frame_event(FrameEvent::BufferDone);
    assert_eq!(output, before);
}

#[test]
fn terminal_is_sticky() {
    for end in [FrameEvent::Ready, FrameEvent::Failed] {
        let mut output = known_output();
        output.request_capture(7);
        output.apply_frame_event(buffer_event());
        output.bind_buffer(5);
        output.apply_frame_event(end);
        assert!(output.is_terminal());
        let before = output.clone();
        output.apply_frame_event(FrameEvent::Ready);
        output.apply_frame_event(FrameEvent::Failed);
        output.apply_frame_event(FrameEvent::Buffer { format: 0, width: 1, height: 1, stride: 4 });
        output.apply_output_event(OutputEvent::Name("late".to_string()));
        assert!(!output.bind_buffer(9));
        assert!(!output.request_capture(9));
        assert_eq!(output, before);
        // The geometry may still move; the end of the capture stays.
        output.apply_xdg_event(XdgOutputEvent::LogicalPosition { x: 1, y: 1 });
        output.apply_xdg_event(XdgOutputEvent::Done);
        assert_eq!(output.frame_state, before.frame_state);
        assert_eq!(output.frame_format, before.frame_format);
        assert_eq!(output.mem_fd, before.mem_fd);
        assert!(output.is_terminal());
    }
}

#[test]
fn stage_never_falls() {
    let mut output = OutputInfo::new(7, Some(7));
    let mut last = ordinal(output.stage());
    let mut frame_events = vec![
        FrameEvent::Ready,
        buffer_event(),
        FrameEvent::Flags,
        FrameEvent::Ready,
        FrameEvent::Failed,
        buffer_event(),
    ];
    let xdg_events = vec![
        XdgOutputEvent::Done,
        XdgOutputEvent::LogicalSize { width: 3, height: 3 },
        XdgOutputEvent::Done,
        XdgOutputEvent::LogicalPosition { x: 1, y: 1 },
        XdgOutputEvent::Done,
        XdgOutputEvent::Other,
    ];
    for round in 0..4 {
        for event in xdg_events.iter() {
            output.apply_xdg_event(*event);
            assert!(ordinal(output.stage()) >= last);
            last = ordinal(output.stage());
        }
        output.apply_output_event(OutputEvent::Name("x".to_string()));
        assert!(ordinal(output.stage()) >= last);
        last = ordinal(output.stage());
        if round == 1 {
            assert!(output.request_capture(7));
        }
        if round == 2 {
            output.bind_buffer(4);
        }
        for event in frame_events.iter() {
            output.apply_frame_event(*event);
            assert!(ordinal(output.stage()) >= last);
            last = ordinal(output.stage());
        }
        frame_events.reverse();
    }
    assert_eq!(output.stage(), CaptureStage::Terminal);
}
