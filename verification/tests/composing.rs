use wayshot::backend::CaptureRegion;
use wayshot::compose::{compose, ComposeError};
use wayshot::convert::{NormalizeError, FORMAT_ARGB8888, FORMAT_XBGR8888};
use wayshot::output::{FrameEvent, OutputEvent, OutputInfo, XdgOutputEvent};

fn region(x: i32, y: i32, width: i32, height: i32) -> CaptureRegion {
    CaptureRegion { x_coordinate: x, y_coordinate: y, width, height }
}

/// An output at `at` of `size`, its frame of `frame` (width, height,
/// stride) in layout `layout` captured and finished.
fn captured(id: u32, at: (i32, i32), size: (i32, i32), layout: u32, frame: (u32, u32, u32)) -> OutputInfo {
    let mut output = requested(id, at, size);
    output.apply_frame_event(FrameEvent::Buffer {
        format: layout,
        width: frame.0,
        height: frame.1,
        stride: frame.2,
    });
    assert!(output.bind_buffer(100 + id as i32));
    output.apply_frame_event(FrameEvent::Ready);
    assert!(output.is_terminal());
    output
}

fn requested(id: u32, at: (i32, i32), size: (i32, i32)) -> OutputInfo {
    let mut output = OutputInfo::new(id, Some(id));
    output.apply_output_event(OutputEvent::Name(format!("out-{}", id)));
    output.apply_xdg_event(XdgOutputEvent::LogicalPosition { x: at.0, y: at.1 });
    output.apply_xdg_event(XdgOutputEvent::LogicalSize { width: size.0, height: size.1 });
    output.apply_xdg_event(XdgOutputEvent::Done);
    assert!(output.request_capture(id));
    output
}

/// A buffer of `len` bytes that differ from place to place and are never
/// zero.
fn pattern(len: usize, seed: usize) -> Vec<u8> {
    (0..len).map(|i| ((i * 7 + seed) % 251 + 1) as u8).collect()
}

#[test]
fn single_output_fills_the_canvas() {
    let outputs = vec![captured(1, (0, 0), (1920, 1080), FORMAT_XBGR8888, (1920, 1080, 7680))];
    let frame = pattern(7680 * 1080, 3);
    let canvas = compose(&outputs, &CaptureRegion::unbounded(), &vec![frame.clone()]).unwrap();
    assert_eq!(canvas.width(), 1920);
    assert_eq!(canvas.height(), 1080);
    assert!(canvas.as_raw() == &frame);
}

#[test]
fn two_outputs_side_by_side() {
    let outputs = vec![
        captured(1, (0, 0), (1920, 1080), FORMAT_XBGR8888, (1920, 1080, 7680)),
        captured(2, (1920, 0), (1280, 1024), FORMAT_XBGR8888, (1280, 1024, 5120)),
    ];
    let left = pattern(7680 * 1080, 1);
    let right = pattern(5120 * 1024, 2);
    let canvas =
        compose(&outputs, &CaptureRegion::unbounded(), &vec![left.clone(), right.clone()]).unwrap();
    assert_eq!(canvas.width(), 3200);
    assert_eq!(canvas.height(), 1080);
    let raw = canvas.as_raw();
    let row = 3200 * 4;
    for y in 0..1080usize {
        assert!(raw[y * row..y * row + 7680] == left[y * 7680..(y + 1) * 7680]);
        if y < 1024 {
            assert!(raw[y * row + 7680..(y + 1) * row] == right[y * 5120..(y + 1) * 5120]);
        } else {
            assert!(raw[y * row + 7680..(y + 1) * row].iter().all(|b| *b == 0));
        }
    }
}

#[test]
fn order_of_disjoint_outputs_does_not_matter() {
    let a = captured(1, (0, 0), (4, 2), FORMAT_XBGR8888, (4, 2, 16));
    let b = captured(2, (4, 0), (2, 3), FORMAT_XBGR8888, (2, 3, 8));
    let fa = pattern(32, 5);
    let fb = pattern(24, 9);
    let all = CaptureRegion::unbounded();
    let one = compose(&vec![a.clone(), b.clone()], &all, &vec![fa.clone(), fb.clone()]).unwrap();
    let two = compose(&vec![b, a], &all, &vec![fb, fa]).unwrap();
    assert_eq!(one.width(), 6);
    assert_eq!(one.height(), 3);
    assert_eq!(one.as_raw(), two.as_raw());
}

#[test]
fn a_later_output_covers_an_earlier_one() {
    let a = captured(1, (0, 0), (2, 1), FORMAT_XBGR8888, (2, 1, 8));
    let b = captured(2, (1, 0), (2, 1), FORMAT_XBGR8888, (2, 1, 8));
    let fa = vec![1, 1, 1, 1, 2, 2, 2, 2];
    let fb = vec![3, 3, 3, 3, 4, 4, 4, 4];
    let canvas = compose(&vec![a, b], &CaptureRegion::unbounded(), &vec![fa, fb]).unwrap();
    assert_eq!(canvas.as_raw(), &vec![1, 1, 1, 1, 3, 3, 3, 3, 4, 4, 4, 4]);
}

#[test]
fn region_within_one_output() {
    // The compositor captured the part that was asked for.
    let outputs = vec![captured(1, (0, 0), (1920, 1080), FORMAT_ARGB8888, (3, 2, 16))];
    let frame = vec![
        3, 2, 1, 4, 7, 6, 5, 8, 11, 10, 9, 12, 0, 0, 0, 0, //
        23, 22, 21, 24, 27, 26, 25, 28, 31, 30, 29, 32, 0, 0, 0, 0,
    ];
    let canvas = compose(&outputs, &region(100, 100, 3, 2), &vec![frame]).unwrap();
    assert_eq!(canvas.width(), 3);
    assert_eq!(canvas.height(), 2);
    assert_eq!(
        canvas.as_raw(),
        &vec![
            1, 2, 3, 4, 5, 6, 7, 8, 9, 10, 11, 12, //
            21, 22, 23, 24, 25, 26, 27, 28, 29, 30, 31, 32
        ]
    );
}

#[test]
fn frame_is_resized_to_the_logical_size() {
    // A frame at twice the logical size, all of one colour.
    let outputs = vec![captured(1, (10, 10), (2, 2), FORMAT_XBGR8888, (4, 4, 16))];
    let mut frame: Vec<u8> = Vec::new();
    for _ in 0..16 {
        frame.push(50);
        frame.push(60);
        frame.push(70);
        frame.push(255);
    }
    let canvas = compose(&outputs, &CaptureRegion::unbounded(), &vec![frame]).unwrap();
    assert_eq!(canvas.width(), 2);
    assert_eq!(canvas.height(), 2);
    assert_eq!(
        canvas.as_raw(),
        &vec![50, 60, 70, 255, 50, 60, 70, 255, 50, 60, 70, 255, 50, 60, 70, 255]
    );
}

#[test]
fn gap_between_outputs_stays_zero() {
    let a = captured(1, (0, 0), (1, 1), FORMAT_XBGR8888, (1, 1, 4));
    let b = captured(2, (2, 1), (1, 1), FORMAT_XBGR8888, (1, 1, 4));
    let canvas = compose(
        &vec![a, b],
        &CaptureRegion::unbounded(),
        &vec![vec![1, 2, 3, 4], vec![5, 6, 7, 8]],
    )
    .unwrap();
    assert_eq!(canvas.width(), 3);
    assert_eq!(canvas.height(), 2);
    assert_eq!(
        canvas.as_raw(),
        &vec![
            1, 2, 3, 4, 0, 0, 0, 0, 0, 0, 0, 0, //
            0, 0, 0, 0, 0, 0, 0, 0, 5, 6, 7, 8
        ]
    );
}

#[test]
fn nothing_to_compose() {
    assert_eq!(
        compose(&Vec::new(), &CaptureRegion::unbounded(), &Vec::new()).unwrap_err(),
        ComposeError::NoOutputs
    );
}

#[test]
fn one_buffer_for_each_output() {
    let outputs = vec![captured(1, (0, 0), (1, 1), FORMAT_XBGR8888, (1, 1, 4))];
    let all = CaptureRegion::unbounded();
    assert_eq!(compose(&outputs, &all, &Vec::new()).unwrap_err(), ComposeError::BufferCount);
    assert_eq!(
        compose(&outputs, &all, &vec![vec![0; 4], vec![0; 4]]).unwrap_err(),
        ComposeError::BufferCount
    );
}

#[test]
fn unfinished_capture_is_not_composed() {
    let mut waiting = requested(2, (1, 0), (1, 1));
    waiting.apply_frame_event(FrameEvent::Buffer { format: 1, width: 1, height: 1, stride: 4 });
    let outputs = vec![captured(1, (0, 0), (1, 1), FORMAT_XBGR8888, (1, 1, 4)), waiting];
    assert_eq!(
        compose(&outputs, &CaptureRegion::unbounded(), &vec![vec![0; 4], vec![0; 4]]).unwrap_err(),
        ComposeError::Unfinished
    );
}

#[test]
fn one_failure_fails_the_whole_picture() {
    let mut failed = requested(2, (1, 0), (1, 1));
    failed.apply_frame_event(FrameEvent::Failed);
    let good = captured(1, (0, 0), (1, 1), FORMAT_XBGR8888, (1, 1, 4));
    let all = CaptureRegion::unbounded();
    let buffers = vec![vec![0; 4], vec![0; 4]];
    assert_eq!(
        compose(&vec![good.clone(), failed.clone()], &all, &buffers).unwrap_err(),
        ComposeError::FrameFailed
    );
    assert_eq!(
        compose(&vec![failed.clone(), good], &all, &buffers).unwrap_err(),
        ComposeError::FrameFailed
    );
    // An unfinished capture is reported before a failed one.
    let waiting = requested(3, (2, 0), (1, 1));
    assert_eq!(
        compose(&vec![failed, waiting], &all, &buffers).unwrap_err(),
        ComposeError::Unfinished
    );
}

#[test]
fn output_outside_the_region_is_an_error() {
    let outputs = vec![
        captured(1, (0, 0), (1, 1), FORMAT_XBGR8888, (1, 1, 4)),
        captured(2, (5, 5), (1, 1), FORMAT_XBGR8888, (1, 1, 4)),
    ];
    assert_eq!(
        compose(&outputs, &region(0, 0, 2, 2), &vec![vec![0; 4], vec![0; 4]]).unwrap_err(),
        ComposeError::NoOverlap
    );
}

#[test]
fn canvas_may_be_wider_than_what_is_resampled() {
    let outputs = vec![
        captured(1, (0, 0), (1, 1), FORMAT_XBGR8888, (1, 1, 4)),
        captured(2, (70000, 0), (1, 1), FORMAT_XBGR8888, (1, 1, 4)),
    ];
    let canvas = compose(
        &outputs,
        &CaptureRegion::unbounded(),
        &vec![vec![1, 2, 3, 4], vec![5, 6, 7, 8]],
    )
    .unwrap();
    assert_eq!(canvas.width(), 70001);
    assert_eq!(canvas.height(), 1);
    let raw = canvas.as_raw();
    assert_eq!(&raw[..4], &[1, 2, 3, 4]);
    assert_eq!(&raw[4 * 70000..], &[5, 6, 7, 8]);
    assert!(raw[4..4 * 70000].iter().all(|b| *b == 0));
}

#[test]
fn wide_frame_of_the_size_of_its_part_is_copied() {
    let outputs = vec![captured(1, (0, 0), (70000, 1), FORMAT_XBGR8888, (70000, 1, 280000))];
    let frame = pattern(280000, 11);
    let canvas = compose(&outputs, &CaptureRegion::unbounded(), &vec![frame.clone()]).unwrap();
    assert_eq!(canvas.width(), 70000);
    assert!(canvas.as_raw() == &frame);
}

#[test]
fn part_beyond_what_is_resampled_is_refused() {
    let tall = vec![captured(1, (0, 0), (1, 65536), FORMAT_XBGR8888, (1, 1, 4))];
    assert_eq!(
        compose(&tall, &CaptureRegion::unbounded(), &vec![vec![0; 4]]).unwrap_err(),
        ComposeError::CannotResize
    );
    let fits = vec![captured(1, (0, 0), (1, 65535), FORMAT_XBGR8888, (1, 1, 4))];
    let canvas = compose(&fits, &CaptureRegion::unbounded(), &vec![vec![9, 8, 7, 6]]).unwrap();
    assert_eq!(canvas.height(), 65535);
    assert_eq!(&canvas.as_raw()[..4], &[9, 8, 7, 6]);
}

#[test]
fn unsupported_layout_is_reported_with_its_code() {
    let outputs = vec![
        captured(1, (0, 0), (1, 1), FORMAT_XBGR8888, (1, 1, 4)),
        captured(2, (1, 0), (1, 1), 0x20203852, (1, 1, 4)),
    ];
    assert_eq!(
        compose(&outputs, &CaptureRegion::unbounded(), &vec![vec![0; 4], vec![0; 4]]).unwrap_err(),
        ComposeError::Normalize(NormalizeError::UnsupportedFormat(0x20203852))
    );
}

#[test]
fn short_buffer_is_reported() {
    let outputs = vec![captured(1, (0, 0), (2, 2), FORMAT_XBGR8888, (2, 2, 8))];
    assert_eq!(
        compose(&outputs, &CaptureRegion::unbounded(), &vec![vec![0; 15]]).unwrap_err(),
        ComposeError::Normalize(NormalizeError::BufferTooShort)
    );
    let narrow = vec![captured(1, (0, 0), (2, 2), FORMAT_XBGR8888, (2, 2, 7))];
    assert_eq!(
        compose(&narrow, &CaptureRegion::unbounded(), &vec![vec![0; 16]]).unwrap_err(),
        ComposeError::Normalize(NormalizeError::RowTooShort)
    );
}

#[test]
fn first_bad_frame_is_reported() {
    let outputs = vec![
        captured(1, (0, 0), (1, 1), FORMAT_XBGR8888, (0, 0, 0)),
        captured(2, (1, 0), (1, 1), 99, (1, 1, 4)),
    ];
    assert_eq!(
        compose(&outputs, &CaptureRegion::unbounded(), &vec![Vec::new(), vec![0; 4]]).unwrap_err(),
        ComposeError::CannotResize
    );
}

#[test]
fn empty_or_huge_frame_cannot_be_resized() {
    let empty = vec![captured(1, (0, 0), (2, 2), FORMAT_XBGR8888, (0, 2, 0))];
    assert_eq!(
        compose(&empty, &CaptureRegion::unbounded(), &vec![Vec::new()]).unwrap_err(),
        ComposeError::CannotResize
    );
    let huge = vec![captured(1, (0, 0), (2, 2), FORMAT_XBGR8888, (65536, 1, 262144))];
    assert_eq!(
        compose(&huge, &CaptureRegion::unbounded(), &vec![vec![0; 262144]]).unwrap_err(),
        ComposeError::CannotResize
    );
}

#[test]
fn finished_output_without_layout_is_reported() {
    let mut output = captured(1, (0, 0), (1, 1), FORMAT_XBGR8888, (1, 1, 4));
    output.frame_format = None;
    assert_eq!(
        compose(&vec![output], &CaptureRegion::unbounded(), &vec![vec![0; 4]]).unwrap_err(),
        ComposeError::MissingFormat
    );
}
