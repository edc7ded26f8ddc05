use wayshot::backend::CaptureRegion;
use wayshot::compose::ComposeError;
use wayshot::convert::NormalizeError;
use wayshot::output::{FrameEvent, OutputEvent, XdgOutputEvent};
use wayshot::plan::{BufferError, CaptureRequest, PlanError};
use wayshot::run::{region_of, Fatal, FatalClass, Options, Selection};
use wayshot::session::{MissingCapability, WayshotState};

fn region(x: i32, y: i32, width: i32, height: i32) -> CaptureRegion {
    CaptureRegion { x_coordinate: x, y_coordinate: y, width, height }
}

fn options() -> Options {
    Options { list_outputs: false, output: None, geometry: None, cursor: false }
}

fn announce(state: &mut WayshotState, id: u32, name: &str, at: (i32, i32), size: (i32, i32)) {
    state.on_global(id, "wl_output", 4);
    state.on_output_event(id, OutputEvent::Name(name.to_string()));
    state.on_xdg_output_event(id, XdgOutputEvent::LogicalPosition { x: at.0, y: at.1 });
    state.on_xdg_output_event(id, XdgOutputEvent::LogicalSize { width: size.0, height: size.1 });
    state.on_xdg_output_event(id, XdgOutputEvent::Done);
}

fn described() -> WayshotState {
    let mut state = WayshotState::new();
    state.on_global(1, "wl_shm", 1);
    state.on_global(2, "zwlr_screencopy_manager_v1", 3);
    state.on_global(3, "zxdg_output_manager_v1", 3);
    announce(&mut state, 10, "DP-1", (0, 0), (1920, 1080));
    announce(&mut state, 11, "HDMI-A-1", (1920, 0), (1280, 1024));
    state
}

#[test]
fn run_stops_without_shared_memory() {
    let mut state = WayshotState::new();
    state.on_global(2, "zwlr_screencopy_manager_v1", 3);
    let fatal = state.after_discovery().unwrap_err();
    assert_eq!(fatal, Fatal::Capability(MissingCapability::Shm));
    assert_eq!(fatal.class(), FatalClass::Capability);
}

#[test]
fn run_stops_without_screencopy() {
    let mut state = WayshotState::new();
    state.on_global(1, "wl_shm", 1);
    assert_eq!(state.after_discovery(), Err(Fatal::Capability(MissingCapability::Screencopy)));
    state.on_global(2, "zwlr_screencopy_manager_v1", 3);
    assert_eq!(state.after_discovery(), Ok(()));
}

#[test]
fn no_region_means_all_outputs() {
    assert_eq!(region_of(&None), Ok(CaptureRegion::unbounded()));
}

#[test]
fn region_is_read_from_its_text() {
    assert_eq!(region_of(&Some("100,100 400x300".to_string())), Ok(region(100, 100, 400, 300)));
    assert_eq!(region_of(&Some("100 100 400 300".to_string())), Ok(region(100, 100, 400, 300)));
}

#[test]
fn empty_and_malformed_regions_are_told_apart() {
    assert_eq!(region_of(&Some(String::new())), Err(Fatal::EmptyGeometry));
    assert_eq!(region_of(&Some(" ".to_string())), Err(Fatal::MalformedGeometry));
    assert_eq!(region_of(&Some("1,2,3,4".to_string())), Err(Fatal::MalformedGeometry));
    assert_eq!(Fatal::EmptyGeometry.class(), FatalClass::Geometry);
    assert_eq!(Fatal::MalformedGeometry.class(), FatalClass::Geometry);
}

#[test]
fn listing_changes_nothing() {
    let mut state = described();
    let before = state.clone();
    let listed = state.select(&Options { list_outputs: true, ..options() });
    assert_eq!(
        listed,
        Ok(Selection::List(vec![Some("DP-1".to_string()), Some("HDMI-A-1".to_string())]))
    );
    assert_eq!(state, before);
}

#[test]
fn listing_wins_over_a_bad_region() {
    let mut state = described();
    let listed = state.select(&Options {
        list_outputs: true,
        geometry: Some("bad".to_string()),
        ..options()
    });
    assert!(matches!(listed, Ok(Selection::List(_))));
}

#[test]
fn selection_of_everything() {
    let mut state = described();
    match state.select(&options()) {
        Ok(Selection::Capture { region: chosen, plan }) => {
            assert_eq!(chosen, CaptureRegion::unbounded());
            assert_eq!(plan.canvas, region(0, 0, 3200, 1080));
            assert_eq!(plan.requests.len(), 2);
        }
        other => panic!("{:?}", other),
    }
}

#[test]
fn selection_of_a_named_output() {
    let mut state = described();
    let chosen = Options { output: Some("HDMI-A-1".to_string()), cursor: true, ..options() };
    match state.select(&chosen) {
        Ok(Selection::Capture { plan, .. }) => {
            assert_eq!(plan.canvas, region(1920, 0, 1280, 1024));
            assert_eq!(
                plan.requests,
                vec![CaptureRequest {
                    output: 11,
                    overlay_cursor: 1,
                    x: 0,
                    y: 0,
                    width: 1280,
                    height: 1024
                }]
            );
        }
        other => panic!("{:?}", other),
    }
    assert_eq!(state.outputs.len(), 1);
}

#[test]
fn selection_of_an_unknown_output_fails() {
    let mut state = described();
    let chosen = Options { output: Some("VGA-1".to_string()), ..options() };
    let fatal = state.select(&chosen).unwrap_err();
    assert_eq!(fatal, Fatal::Plan(PlanError::NoOverlap));
    assert_eq!(fatal.class(), FatalClass::Geometry);
}

#[test]
fn selection_of_a_region() {
    let mut state = described();
    let chosen = Options { geometry: Some("1900,10 40x20".to_string()), ..options() };
    match state.select(&chosen) {
        Ok(Selection::Capture { region: got, plan }) => {
            assert_eq!(got, region(1900, 10, 40, 20));
            assert_eq!(plan.canvas, region(1900, 10, 40, 20));
            assert_eq!(
                plan.requests,
                vec![
                    CaptureRequest { output: 10, overlay_cursor: 0, x: 1900, y: 10, width: 20, height: 20 },
                    CaptureRequest { output: 11, overlay_cursor: 0, x: 0, y: 10, width: 20, height: 20 },
                ]
            );
        }
        other => panic!("{:?}", other),
    }
}

#[test]
fn region_on_no_output_ends_the_run_without_requests() {
    let mut state = described();
    let chosen = Options { geometry: Some("5000,5000 10x10".to_string()), ..options() };
    let fatal = state.select(&chosen).unwrap_err();
    assert_eq!(fatal, Fatal::Plan(PlanError::NoOverlap));
    assert_eq!(fatal.class(), FatalClass::Geometry);
    assert!(state.outputs.iter().all(|output| output.frame.is_none()));
}

#[test]
fn malformed_region_ends_the_run_without_requests() {
    let mut state = described();
    let chosen = Options { geometry: Some("100x100".to_string()), ..options() };
    assert_eq!(state.select(&chosen), Err(Fatal::MalformedGeometry));
    assert!(state.outputs.iter().all(|output| output.frame.is_none()));
    let mut other = described();
    let empty = Options { geometry: Some(String::new()), ..options() };
    assert_eq!(other.select(&empty), Err(Fatal::EmptyGeometry));
}

#[test]
fn buffers_follow_the_layouts() {
    let mut state = described();
    state.select(&options()).unwrap();
    let fatal = state.after_formats().unwrap_err();
    assert_eq!(fatal, Fatal::Buffer(BufferError::MissingFormat(10)));
    assert_eq!(fatal.class(), FatalClass::OutputFailure);
    state.on_frame_event(10, FrameEvent::Buffer { format: 1, width: 2, height: 2, stride: 8 });
    state.on_frame_event(
        11,
        FrameEvent::Buffer { format: 1, width: 70000, height: 70000, stride: 280000 },
    );
    let large = state.after_formats().unwrap_err();
    assert_eq!(large, Fatal::Buffer(BufferError::TooLarge(11)));
    assert_eq!(large.class(), FatalClass::ResourceExhaustion);
}

#[test]
fn rounds_go_on_until_every_capture_has_ended() {
    let mut state = described();
    state.select(&options()).unwrap();
    state.on_frame_event(10, FrameEvent::Buffer { format: 1, width: 2, height: 2, stride: 8 });
    state.on_frame_event(11, FrameEvent::Buffer { format: 1, width: 2, height: 2, stride: 8 });
    assert_eq!(state.after_formats().map(|v| v.len()), Ok(2));
    state.bind_buffer(0, 50);
    state.bind_buffer(1, 51);
    assert_eq!(state.after_round(), Ok(false));
    state.on_frame_event(10, FrameEvent::Ready);
    assert_eq!(state.after_round(), Ok(false));
    state.on_frame_event(11, FrameEvent::Ready);
    assert_eq!(state.after_round(), Ok(true));
}

#[test]
fn failure_is_fatal_once_all_captures_have_ended() {
    let mut state = described();
    state.select(&options()).unwrap();
    state.on_frame_event(10, FrameEvent::Failed);
    // The other capture is still under way.
    assert_eq!(state.after_round(), Ok(false));
    state.on_frame_event(11, FrameEvent::Buffer { format: 1, width: 2, height: 2, stride: 8 });
    state.bind_buffer(1, 51);
    state.on_frame_event(11, FrameEvent::Ready);
    let fatal = state.after_round().unwrap_err();
    assert_eq!(fatal, Fatal::Compose(ComposeError::FrameFailed));
    assert_eq!(fatal.class(), FatalClass::OutputFailure);
}

#[test]
fn nothing_to_wait_for_without_outputs() {
    assert_eq!(WayshotState::new().after_round(), Ok(true));
}

#[test]
fn whole_run_gives_the_picture() {
    let mut state = described();
    let chosen = Options { geometry: Some("1919,0 2x1".to_string()), ..options() };
    let (got, plan) = match state.select(&chosen) {
        Ok(Selection::Capture { region, plan }) => (region, plan),
        other => panic!("{:?}", other),
    };
    assert_eq!(plan.requests.len(), 2);
    state.on_frame_event(10, FrameEvent::Buffer { format: 0, width: 1, height: 1, stride: 4 });
    state.on_frame_event(
        11,
        FrameEvent::Buffer { format: 0x34324258, width: 1, height: 1, stride: 8 },
    );
    let buffers = state.after_formats().unwrap();
    assert_eq!(buffers[0].size, 4);
    assert_eq!(buffers[1].size, 8);
    assert!(state.bind_buffer(0, 50));
    assert!(state.bind_buffer(1, 51));
    state.on_frame_event(10, FrameEvent::Ready);
    state.on_frame_event(11, FrameEvent::Ready);
    assert_eq!(state.after_round(), Ok(true));
    let frames = vec![vec![3, 2, 1, 255], vec![4, 5, 6, 255, 0, 0, 0, 0]];
    let picture = state.finish(&got, &frames).unwrap();
    assert_eq!(picture.width(), 2);
    assert_eq!(picture.height(), 1);
    assert_eq!(picture.as_raw(), &vec![1, 2, 3, 255, 4, 5, 6, 255]);
}

#[test]
fn unsupported_layout_ends_the_run() {
    let mut state = described();
    state.select(&Options { output: Some("DP-1".to_string()), ..options() }).unwrap();
    state.on_frame_event(10, FrameEvent::Buffer { format: 77, width: 1, height: 1, stride: 4 });
    state.bind_buffer(0, 50);
    state.on_frame_event(10, FrameEvent::Ready);
    assert_eq!(state.after_round(), Ok(true));
    let fatal = state.finish(&CaptureRegion::unbounded(), &vec![vec![0; 4]]).unwrap_err();
    assert_eq!(fatal, Fatal::Compose(ComposeError::Normalize(NormalizeError::UnsupportedFormat(77))));
    assert_eq!(fatal.class(), FatalClass::UnsupportedFormat);
}

#[test]
fn classes_of_the_other_conditions() {
    assert_eq!(Fatal::SharedMemory(12).class(), FatalClass::ResourceExhaustion);
    assert_eq!(Fatal::Plan(PlanError::AlreadyRequested).class(), FatalClass::OutputFailure);
    assert_eq!(Fatal::Compose(ComposeError::CanvasTooLarge).class(), FatalClass::ResourceExhaustion);
    assert_eq!(Fatal::Compose(ComposeError::CannotResize).class(), FatalClass::ResourceExhaustion);
    assert_eq!(Fatal::Compose(ComposeError::NoOutputs).class(), FatalClass::Geometry);
    assert_eq!(Fatal::Compose(ComposeError::NoOverlap).class(), FatalClass::Geometry);
    assert_eq!(Fatal::Compose(ComposeError::Unfinished).class(), FatalClass::OutputFailure);
    assert_eq!(Fatal::Compose(ComposeError::BufferCount).class(), FatalClass::OutputFailure);
    assert_eq!(Fatal::Compose(ComposeError::MissingFormat).class(), FatalClass::OutputFailure);
    assert_eq!(
        Fatal::Compose(ComposeError::Normalize(NormalizeError::RowTooShort)).class(),
        FatalClass::OutputFailure
    );
    assert_eq!(
        Fatal::Compose(ComposeError::Normalize(NormalizeError::BufferTooShort)).class(),
        FatalClass::OutputFailure
    );
}
