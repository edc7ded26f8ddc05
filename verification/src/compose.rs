//! From the captured frames to one picture: each frame is brought to
//! RGBA, resized to the part of its output that was asked for, and copied
//! to its place in a canvas that spans all the parts.

use vstd::pervasive::unreached;
use vstd::prelude::*;
use crate::backend::{CaptureRegion, FrameState};
use crate::bitmap::{
    lemma_place_in_bounds, place, resizable, resized_data, Bitmap, Image,
};
use crate::convert::{converter_for, normalize, normalize_error, normalized_data, NormalizeError};
use crate::geometry::{bounding_box, hull, lemma_hull_encloses_each, overlap, rects_of, Rect};
use crate::output::OutputInfo;
use crate::plan::{lemma_canvas_within_region, overlap_rect, overlap_rects};

verus! {

/// A bitmap and where its top left corner goes on the canvas.
pub ghost struct Layer {
    pub image: Image,
    pub left: int,
    pub top: int,
}

impl Layer {
    /// The pixel `(x, y)` of the canvas lies under the layer.
    pub open spec fn covers(self, x: int, y: int) -> bool {
        Image::in_window(x, y, self.left, self.top, self.image)
    }
}

/// Channel `c` of the pixel `(x, y)` of a canvas that was zero all over
/// before the layers were copied onto it, the first one first: what the
/// last layer over the pixel holds there, or zero under no layer.
pub open spec fn composite_channel(layers: Seq<Layer>, x: int, y: int, c: int) -> u8
    decreases layers.len(),
{
    if layers.len() == 0 {
        0
    } else if layers.last().covers(x, y) {
        layers.last().image.channel(x - layers.last().left, y - layers.last().top, c)
    } else {
        composite_channel(layers.drop_last(), x, y, c)
    }
}

/// Why the frames cannot be composed.
#[derive(Debug, Copy, Clone, PartialEq, Eq, Structural)]
pub enum ComposeError {
    /// There is no output.
    NoOutputs,
    /// There is not one buffer for each output.
    BufferCount,
    /// The capture of an output has not ended.
    Unfinished,
    /// The capture of an output has failed.
    FrameFailed,
    /// An output shares no point with the region.
    NoOverlap,
    /// The canvas would be larger than what can be addressed.
    CanvasTooLarge,
    /// The compositor has not named a layout for the frame of an output.
    MissingFormat,
    /// A frame cannot be read as a bitmap.
    Normalize(NormalizeError),
    /// A frame has no pixel, or has another size than the part that it
    /// shows and cannot be resampled to that size.
    CannotResize,
}

/// The rectangle of the canvas in the global space: the bounding box of
/// what each output has in common with the region.
pub open spec fn canvas_rect(outputs: Seq<OutputInfo>, region: CaptureRegion) -> Rect {
    hull(overlap_rects(outputs, region))
}

/// A canvas over `rect` can be made.
pub open spec fn canvas_fits(rect: Rect) -> bool {
    rect.height() * (4 * rect.width()) <= usize::MAX
}

/// What stands against composing at all, before any frame is looked at.
pub open spec fn setup_error(
    outputs: Seq<OutputInfo>,
    region: CaptureRegion,
    buffer_count: int,
) -> Option<ComposeError> {
    if outputs.len() == 0 {
        Some(ComposeError::NoOutputs)
    } else if buffer_count != outputs.len() {
        Some(ComposeError::BufferCount)
    } else if exists|i: int| 0 <= i < outputs.len() && (#[trigger] outputs[i]).frame_state is None {
        Some(ComposeError::Unfinished)
    } else if exists|i: int|
        0 <= i < outputs.len() && (#[trigger] outputs[i]).frame_state == Some(FrameState::Failed) {
        Some(ComposeError::FrameFailed)
    } else if exists|i: int|
        0 <= i < outputs.len() && !overlap_rect(#[trigger] outputs[i], region).is_nonempty() {
        Some(ComposeError::NoOverlap)
    } else if !canvas_fits(canvas_rect(outputs, region)) {
        Some(ComposeError::CanvasTooLarge)
    } else {
        None
    }
}

/// What stands against making a layer of the frame of `output`, held in
/// a buffer of `buffer_len` bytes, for the part of the output that lies
/// in `region`.
pub open spec fn layer_error(output: OutputInfo, region: CaptureRegion, buffer_len: int) -> Option<
    ComposeError,
> {
    match output.frame_format {
        None => Some(ComposeError::MissingFormat),
        Some(format) => match normalize_error(buffer_len, format) {
            Some(e) => Some(ComposeError::Normalize(e)),
            None => if resizable(
                format.width as int,
                format.height as int,
                overlap_rect(output, region).width(),
                overlap_rect(output, region).height(),
            ) {
                None
            } else {
                Some(ComposeError::CannotResize)
            },
        },
    }
}

/// The layer that the frame of `output` gives: the frame in `buffer` as
/// RGBA, resized to what the output has in common with the region, at
/// the place of that part within `canvas`.
pub open spec fn layer_of(
    output: OutputInfo,
    region: CaptureRegion,
    canvas: Rect,
    buffer: Seq<u8>,
) -> Layer {
    let part = overlap_rect(output, region);
    let format = output.frame_format.unwrap();
    Layer {
        image: Image {
            width: part.width(),
            height: part.height(),
            data: resized_data(
                normalized_data(buffer, format, converter_for(format.format).unwrap()),
                format.width,
                format.height,
                part.width() as u32,
                part.height() as u32,
            ),
        },
        left: part.left - canvas.left,
        top: part.top - canvas.top,
    }
}

/// The layers of all outputs, in the order of the outputs.
pub open spec fn layers_of(
    outputs: Seq<OutputInfo>,
    region: CaptureRegion,
    buffers: Seq<Vec<u8>>,
) -> Seq<Layer> {
    Seq::new(
        outputs.len(),
        |i: int| layer_of(outputs[i], region, canvas_rect(outputs, region), buffers[i]@),
    )
}

/// A frame that has the size of the part that it shows is not resampled:
/// its layer holds the pixels of the frame as they are.
pub proof fn lemma_unscaled_frame_is_kept(
    output: OutputInfo,
    region: CaptureRegion,
    canvas: Rect,
    buffer: Seq<u8>,
)
    requires
        output.frame_format is Some,
        output.frame_format.unwrap().width == overlap_rect(output, region).width(),
        output.frame_format.unwrap().height == overlap_rect(output, region).height(),
    ensures
        layer_of(output, region, canvas, buffer).image.data == normalized_data(
            buffer,
            output.frame_format.unwrap(),
            converter_for(output.frame_format.unwrap().format).unwrap(),
        ),
{
}

/// A pixel that lies under one layer and under none of the later ones
/// shows that layer. So where no two layers share a pixel, every layer
/// shows in full.
pub proof fn lemma_uncovered_layer_shows(layers: Seq<Layer>, i: int, x: int, y: int, c: int)
    requires
        0 <= i < layers.len(),
        layers[i].covers(x, y),
        forall|j: int| i < j < layers.len() ==> !(#[trigger] layers[j]).covers(x, y),
    ensures
        composite_channel(layers, x, y, c) == layers[i].image.channel(
            x - layers[i].left,
            y - layers[i].top,
            c,
        ),
    decreases layers.len(),
{
    if i < layers.len() - 1 {
        let front = layers.drop_last();
        assert forall|j: int| i < j < front.len() implies !(#[trigger] front[j]).covers(x, y) by {}
        lemma_uncovered_layer_shows(front, i, x, y, c);
    }
}

/// Where the parts of no two outputs share a point, every layer shows in
/// full, so that the order of the outputs does not matter: a pixel under
/// the layer of an output shows that layer.
pub proof fn lemma_disjoint_outputs_all_show(
    outputs: Seq<OutputInfo>,
    region: CaptureRegion,
    buffers: Seq<Vec<u8>>,
    i: int,
    x: int,
    y: int,
    c: int,
)
    requires
        0 <= i < outputs.len(),
        forall|j: int, k: int|
            0 <= j < k < outputs.len() ==> overlap_rect(
                #[trigger] outputs[j],
                region,
            ).is_disjoint_from(overlap_rect(#[trigger] outputs[k], region)),
        layers_of(outputs, region, buffers)[i].covers(x, y),
    ensures
        composite_channel(layers_of(outputs, region, buffers), x, y, c) == layers_of(
            outputs,
            region,
            buffers,
        )[i].image.channel(
            x - layers_of(outputs, region, buffers)[i].left,
            y - layers_of(outputs, region, buffers)[i].top,
            c,
        ),
{
    let layers = layers_of(outputs, region, buffers);
    let canvas = canvas_rect(outputs, region);
    assert forall|k: int| i < k < layers.len() implies !(#[trigger] layers[k]).covers(x, y) by {
        if layers[k].covers(x, y) {
            let shared = overlap_rect(outputs[i], region).intersect(overlap_rect(outputs[k], region));
            assert(shared.contains(x + canvas.left, y + canvas.top));
        }
    }
    lemma_uncovered_layer_shows(layers, i, x, y, c);
}

/// A pixel that lies under no layer stays zero.
pub proof fn lemma_bare_canvas_stays(layers: Seq<Layer>, x: int, y: int, c: int)
    requires
        forall|j: int| 0 <= j < layers.len() ==> !(#[trigger] layers[j]).covers(x, y),
    ensures
        composite_channel(layers, x, y, c) == 0,
    decreases layers.len(),
{
    if layers.len() > 0 {
        let front = layers.drop_last();
        assert forall|j: int| 0 <= j < front.len() implies !(#[trigger] front[j]).covers(x, y) by {}
        lemma_bare_canvas_stays(front, x, y, c);
    }
}

/// Every layer lies within the canvas: its place is not negative, and
/// place plus size stays within the size of the canvas.
pub proof fn lemma_layers_within_canvas(
    outputs: Seq<OutputInfo>,
    region: CaptureRegion,
    buffers: Seq<Vec<u8>>,
    i: int,
)
    requires
        0 <= i < outputs.len(),
    ensures
        0 <= layers_of(outputs, region, buffers)[i].left,
        0 <= layers_of(outputs, region, buffers)[i].top,
        layers_of(outputs, region, buffers)[i].left + layers_of(
            outputs,
            region,
            buffers,
        )[i].image.width <= canvas_rect(outputs, region).width(),
        layers_of(outputs, region, buffers)[i].top + layers_of(
            outputs,
            region,
            buffers,
        )[i].image.height <= canvas_rect(outputs, region).height(),
{
    lemma_hull_encloses_each(overlap_rects(outputs, region), i);
}

/// `r` is what composing gives for these outputs, region and buffers.
///
/// What stands against composing at all is reported first. Else the
/// frames are taken in the order of the outputs, and the first that gives
/// no layer is reported. Else there is a canvas: it has the size of the
/// bounding box of the parts, and each of its pixels shows the last layer
/// that lies over it, or is zero under no layer.
pub open spec fn is_composed(
    outputs: Seq<OutputInfo>,
    region: CaptureRegion,
    buffers: Seq<Vec<u8>>,
    r: Result<Bitmap, ComposeError>,
) -> bool {
    match setup_error(outputs, region, buffers.len() as int) {
        Some(e) => r == Err::<Bitmap, ComposeError>(e),
        None => match r {
            Err(e) => exists|i: int|
                0 <= i < outputs.len() && layer_error(#[trigger] outputs[i], region, buffers[i]@.len() as int)
                    == Some(e) && forall|j: int|
                    0 <= j < i ==> layer_error(#[trigger] outputs[j], region, buffers[j]@.len() as int)
                        is None,
            Ok(canvas) => {
                &&& forall|i: int|
                    0 <= i < outputs.len() ==> layer_error(
                        #[trigger] outputs[i],
                        region,
                        buffers[i]@.len() as int,
                    ) is None
                &&& canvas.wf()
                &&& canvas@.width == canvas_rect(outputs, region).width()
                &&& canvas@.height == canvas_rect(outputs, region).height()
                &&& forall|x: int, y: int, c: int|
                    canvas@.has(x, y) && 0 <= c < 4 ==> #[trigger] canvas@.channel(x, y, c)
                        == composite_channel(layers_of(outputs, region, buffers), x, y, c)
            },
        },
    }
}

/// Composes the frames of `outputs`, held in `buffers` in the order of
/// the outputs, into one picture of the part of `region` that the
/// outputs cover. The canvas spans the bounding box of the parts; where
/// no output lies it stays zero. Nothing is composed unless every
/// capture has ended and none has failed.
pub fn compose(outputs: &Vec<OutputInfo>, region: &CaptureRegion, buffers: &Vec<Vec<u8>>) -> (r:
    Result<Bitmap, ComposeError>)
    ensures
        is_composed(outputs@, *region, buffers@, r),
{
    let n: usize = outputs.len();
    if n == 0 {
        return Err(ComposeError::NoOutputs);
    }
    if buffers.len() != n {
        return Err(ComposeError::BufferCount);
    }
    let mut failed: bool = false;
    let mut i: usize = 0;
    while i < n
        invariant
            i <= n,
            0 < n,
            n == outputs@.len(),
            n == buffers@.len(),
            forall|k: int| 0 <= k < i ==> (#[trigger] outputs@[k]).frame_state is Some,
            failed <==> exists|k: int|
                0 <= k < i && (#[trigger] outputs@[k]).frame_state == Some(FrameState::Failed),
        decreases n - i,
    {
        match outputs[i].frame_state {
            None => {
                return Err(ComposeError::Unfinished);
            },
            Some(FrameState::Failed) => {
                failed = true;
            },
            Some(FrameState::Finished) => {},
        }
        i = i + 1;
    }
    if failed {
        return Err(ComposeError::FrameFailed);
    }
    proof {
        assert(!(exists|k: int|
            0 <= k < outputs@.len() && (#[trigger] outputs@[k]).frame_state is None));
    }
    let mut parts: Vec<CaptureRegion> = Vec::new();
    let mut i: usize = 0;
    while i < n
        invariant
            i <= n,
            0 < n,
            n == outputs@.len(),
            n == buffers@.len(),
            !(exists|k: int| 0 <= k < outputs@.len() && (#[trigger] outputs@[k]).frame_state is None),
            !(exists|k: int|
                0 <= k < outputs@.len() && (#[trigger] outputs@[k]).frame_state == Some(
                    FrameState::Failed,
                )),
            parts@.len() == i,
            forall|k: int|
                0 <= k < i ==> parts@[k]@ == overlap_rect(#[trigger] outputs@[k], *region)
                    && overlap_rect(outputs@[k], *region).is_nonempty(),
        decreases n - i,
    {
        match overlap(&outputs[i].dimensions, region) {
            None => {
                return Err(ComposeError::NoOverlap);
            },
            Some(part) => {
                parts.push(part);
            },
        }
        i = i + 1;
    }
    let ghost rects = overlap_rects(outputs@, *region);
    let ghost frame = canvas_rect(outputs@, *region);
    let ghost layers = layers_of(outputs@, *region, buffers@);
    proof {
        assert(rects_of(parts@) =~= rects);
        assert forall|k: int| 0 <= k < outputs@.len() implies overlap_rect(
            #[trigger] outputs@[k],
            *region,
        ).is_nonempty() by {}
        lemma_hull_encloses_each(rects, 0);
        lemma_canvas_within_region(outputs@, *region);
    }
    let bounds = match bounding_box(&parts) {
        Err(_) => unreached(),
        Ok(bounds) => bounds,
    };
    let mut canvas = match Bitmap::new(bounds.width as u32, bounds.height as u32) {
        None => {
            return Err(ComposeError::CanvasTooLarge);
        },
        Some(canvas) => canvas,
    };
    proof {
        assert forall|x: int, y: int, c: int|
            canvas@.has(x, y) && 0 <= c < 4 implies #[trigger] canvas@.channel(x, y, c)
            == composite_channel(layers.take(0), x, y, c) by {
            lemma_place_in_bounds(4 * canvas@.width, canvas@.height, y, 4 * x + c);
        }
    }
    let mut i: usize = 0;
    while i < n
        invariant
            i <= n,
            n == outputs@.len(),
            n == buffers@.len(),
            parts@.len() == n,
            setup_error(outputs@, *region, buffers@.len() as int) is None,
            rects == overlap_rects(outputs@, *region),
            frame == hull(rects),
            layers == layers_of(outputs@, *region, buffers@),
            bounds@ == frame,
            forall|k: int|
                0 <= k < n ==> parts@[k]@ == overlap_rect(#[trigger] outputs@[k], *region)
                    && overlap_rect(outputs@[k], *region).is_nonempty(),
            forall|k: int|
                0 <= k < i ==> layer_error(
                    #[trigger] outputs@[k],
                    *region,
                    buffers@[k]@.len() as int,
                ) is None,
            canvas.wf(),
            canvas@.width == frame.width(),
            canvas@.height == frame.height(),
            forall|x: int, y: int, c: int|
                canvas@.has(x, y) && 0 <= c < 4 ==> #[trigger] canvas@.channel(x, y, c)
                    == composite_channel(layers.take(i as int), x, y, c),
        decreases n - i,
    {
        let format = match outputs[i].frame_format {
            None => {
                return Err(ComposeError::MissingFormat);
            },
            Some(format) => format,
        };
        let bitmap = match normalize(buffers[i].as_slice(), &format) {
            Err(e) => {
                return Err(ComposeError::Normalize(e));
            },
            Ok(bitmap) => bitmap,
        };
        let part = parts[i];
        proof {
            lemma_hull_encloses_each(rects, i as int);
        }
        let layer = match bitmap.resized(part.width as u32, part.height as u32) {
            None => {
                return Err(ComposeError::CannotResize);
            },
            Some(layer) => layer,
        };
        let left: u32 = (part.x_coordinate as i64 - bounds.x_coordinate as i64) as u32;
        let top: u32 = (part.y_coordinate as i64 - bounds.y_coordinate as i64) as u32;
        let ghost before = canvas@;
        let copied = canvas.copy_from(&layer, left, top);
        proof {
            // The layer lies within the canvas, so the copy cannot fail.
            assert(copied is Ok);
            let next = layers.take(i + 1);
            assert(next.drop_last() =~= layers.take(i as int));
            assert forall|x: int, y: int, c: int|
                canvas@.has(x, y) && 0 <= c < 4 implies #[trigger] canvas@.channel(x, y, c)
                == composite_channel(next, x, y, c) by {
                assert(canvas@.channel(x, y, c) == before.pasted_channel(
                    layer@,
                    left as int,
                    top as int,
                    x,
                    y,
                    c,
                ));
            }
        }
        i = i + 1;
    }
    proof {
        assert(layers.take(n as int) =~= layers);
    }
    Ok(canvas)
}

} // verus!
