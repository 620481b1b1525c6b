//! Resizing one device image view into another.
//!
//! The pixels are resampled by a routine that runs on the device and that this
//! crate cannot call itself. `resize` therefore takes that routine as an
//! argument: it works out what the routine is to be called with, calls it once,
//! and turns the status code that comes back into a result.

use crate::image::{CudaImage, Layout};
use vstd::prelude::*;

verus! {

/// Width and height of an image in pixels, as the device routine takes them.
#[derive(Clone, Copy, Debug, PartialEq, Eq)]
pub struct Size {
    pub width: i32,
    pub height: i32,
}

/// A rectangle of pixels within an image, as the device routine takes it.
#[derive(Clone, Copy, Debug, PartialEq, Eq)]
pub struct Rect {
    pub x: i32,
    pub y: i32,
    pub width: i32,
    pub height: i32,
}

/// How the device routine computes a pixel that falls between source pixels.
#[derive(Clone, Copy, Debug, PartialEq, Eq)]
pub enum Interpolation {
    /// The nearest source pixel.
    NearestNeighbor,
    /// A weighted average of the four nearest source pixels.
    Linear,
    /// A cubic fit through the sixteen nearest source pixels.
    Cubic,
}

/// The one failure that a resize reports: the device routine returned a status
/// other than zero.
#[derive(Clone, Copy, Debug, PartialEq, Eq)]
pub enum ResizeError {
    Unknown,
}

/// The arguments of one call of the device routine, in its parameter order.
///
/// The two offsets are in bytes and are to be added to the base addresses of
/// the source and of the destination allocation.
#[derive(Clone, Copy, Debug, PartialEq, Eq)]
pub struct ResizeCall {
    pub src_offset: isize,
    pub src_step: i32,
    pub src_size: Size,
    pub src_rect: Rect,
    pub dst_offset: isize,
    pub dst_step: i32,
    pub dst_size: Size,
    pub dst_rect: Rect,
    pub interpolation: Interpolation,
}

impl Size {
    /// The size of a view.
    pub open spec fn of(view: Layout) -> Size {
        Size { width: view.width as i32, height: view.height as i32 }
    }
}

impl Rect {
    /// The rectangle that covers a whole view, relative to the view's origin.
    pub open spec fn whole(view: Layout) -> Rect {
        Rect { x: 0, y: 0, width: view.width as i32, height: view.height as i32 }
    }
}

/// Offset of byte `col` of row `row` in an image that starts at `offset` and
/// whose rows are `step` bytes apart.
pub open spec fn region_byte(offset: int, step: int, row: int, col: int) -> int {
    offset + row * step + col
}

/// The bytes of an allocation that hold the pixels of `rect`, for an image that
/// starts at `offset` and whose rows are `step` bytes apart.
pub open spec fn region(offset: int, step: int, rect: Rect) -> Set<int> {
    Set::new(
        |byte: int|
            exists|row: int, col: int|
                rect.y <= row < rect.y + rect.height && 3 * rect.x <= col < 3 * (rect.x
                    + rect.width) && #[trigger] region_byte(offset, step, row, col) == byte,
    )
}

impl ResizeCall {
    /// The call that stretches or shrinks all of `src` to fill all of `dst`.
    pub open spec fn planned(src: Layout, dst: Layout) -> ResizeCall {
        ResizeCall {
            src_offset: src.offset as isize,
            src_step: src.stride as i32,
            src_size: Size::of(src),
            src_rect: Rect::whole(src),
            dst_offset: dst.offset as isize,
            dst_step: dst.stride as i32,
            dst_size: Size::of(dst),
            dst_rect: Rect::whole(dst),
            interpolation: Interpolation::Linear,
        }
    }

    /// The bytes of the source allocation that the call asks the routine to read.
    pub open spec fn reads(self) -> Set<int> {
        region(self.src_offset as int, self.src_step as int, self.src_rect)
    }

    /// The bytes of the destination allocation that the call asks the routine
    /// to write.
    pub open spec fn writes(self) -> Set<int> {
        region(self.dst_offset as int, self.dst_step as int, self.dst_rect)
    }

    /// Works out the call that resizes all of `src` into all of `dst`.
    pub fn plan(src: &CudaImage, dst: &CudaImage) -> (call: ResizeCall)
        ensures
            call == ResizeCall::planned(src@, dst@),
    {
        proof {
            use_type_invariant(src);
            use_type_invariant(dst);
        }
        let src_size = Size { width: src.width() as i32, height: src.height() as i32 };
        let dst_size = Size { width: dst.width() as i32, height: dst.height() as i32 };
        let src_rect = Rect { x: 0, y: 0, width: src.width() as i32, height: src.height() as i32 };
        let dst_rect = Rect { x: 0, y: 0, width: dst.width() as i32, height: dst.height() as i32 };
        ResizeCall {
            src_offset: src.img_index() as isize,
            src_step: src.height_stride() as i32,
            src_size,
            src_rect,
            dst_offset: dst.img_index() as isize,
            dst_step: dst.height_stride() as i32,
            dst_size,
            dst_rect,
            interpolation: Interpolation::Linear,
        }
    }
}

/// The whole rectangle of a well-formed view, placed at the view's offset and
/// with the view's stride, holds exactly the view's bytes.
proof fn lemma_whole_region_is_footprint(view: Layout)
    requires
        view.wf(),
    ensures
        region(
            (view.offset as isize) as int,
            (view.stride as i32) as int,
            Rect::whole(view),
        ) == view.footprint(),
{
    view.lemma_footprint_in_allocation();
    let offset = (view.offset as isize) as int;
    let step = (view.stride as i32) as int;
    let rect = Rect::whole(view);
    let bytes = region(offset, step, rect);
    assert forall|byte: int| bytes.contains(byte) == view.footprint().contains(byte) by {
        if bytes.contains(byte) {
            let (row, col) = choose|row: int, col: int|
                rect.y <= row < rect.y + rect.height && 3 * rect.x <= col < 3 * (rect.x
                    + rect.width) && #[trigger] region_byte(offset, step, row, col) == byte;
            assert(view.byte_at(row, col) == byte);
        }
        if view.footprint().contains(byte) {
            let (row, col) = choose|row: int, col: int|
                0 <= row < view.height && 0 <= col < view.row_bytes() && #[trigger] view.byte_at(
                    row,
                    col,
                ) == byte;
            assert(region_byte(offset, step, row, col) == byte);
        }
    }
    assert(bytes =~= view.footprint());
}

impl ResizeCall {
    /// The call for two well-formed views asks the routine to read the bytes
    /// of the source view and no others, and to write the bytes of the
    /// destination view and no others.
    pub proof fn lemma_call_covers_views(src: Layout, dst: Layout)
        requires
            src.wf(),
            dst.wf(),
        ensures
            ResizeCall::planned(src, dst).reads() == src.footprint(),
            ResizeCall::planned(src, dst).writes() == dst.footprint(),
    {
        lemma_whole_region_is_footprint(src);
        lemma_whole_region_is_footprint(dst);
    }

    /// The call for two well-formed views keeps the routine inside the two
    /// allocations.
    pub proof fn lemma_call_stays_in_allocations(src: Layout, dst: Layout)
        requires
            src.wf(),
            dst.wf(),
        ensures
            forall|byte: int| #[trigger]
                ResizeCall::planned(src, dst).reads().contains(byte) ==> 0 <= byte < src.capacity,
            forall|byte: int| #[trigger]
                ResizeCall::planned(src, dst).writes().contains(byte) ==> 0 <= byte < dst.capacity,
    {
        ResizeCall::lemma_call_covers_views(src, dst);
        src.lemma_footprint_in_allocation();
        dst.lemma_footprint_in_allocation();
    }

    /// A resize whose destination is a window of some view asks the routine
    /// to write no byte of any other window of that view whose rectangle
    /// shares no pixel with the destination's, whatever the source is.
    pub proof fn lemma_call_spares_disjoint_window(
        src: Layout,
        parent: Layout,
        x: nat,
        y: nat,
        width: nat,
        height: nat,
        other_x: nat,
        other_y: nat,
        other_width: nat,
        other_height: nat,
    )
        requires
            src.wf(),
            parent.wf(),
            parent.has_window(x, y, width, height),
            parent.has_window(other_x, other_y, other_width, other_height),
            x + width <= other_x || other_x + other_width <= x || y + height <= other_y
                || other_y + other_height <= y,
        ensures
            ResizeCall::planned(src, parent.window(x, y, width, height)).writes().disjoint(
                parent.window(other_x, other_y, other_width, other_height).footprint(),
            ),
    {
        parent.lemma_window_in_parent(x, y, width, height);
        ResizeCall::lemma_call_covers_views(src, parent.window(x, y, width, height));
        parent.lemma_disjoint_windows(
            x,
            y,
            width,
            height,
            other_x,
            other_y,
            other_width,
            other_height,
        );
    }
}

/// What a status code of the device routine means: zero is success, and every
/// other code is the same failure.
pub open spec fn outcome(status: i32) -> Result<(), ResizeError> {
    if status == 0 {
        Ok(())
    } else {
        Err(ResizeError::Unknown)
    }
}

/// Turns a status code of the device routine into a result.
pub fn status_result(status: i32) -> (result: Result<(), ResizeError>)
    ensures
        result == outcome(status),
{
    if status == 0 {
        Ok(())
    } else {
        Err(ResizeError::Unknown)
    }
}

/// Resizes the pixels of `src` to fill `dst`, with bilinear interpolation.
///
/// `primitive` is the device routine. It is called exactly once, with the call
/// that covers all of `src` and all of `dst`, and its status decides the
/// result. The destination view itself is left as it was: only the pixels that
/// it describes are the routine's to change.
pub fn resize<F>(src: &CudaImage, dst: &mut CudaImage, primitive: F) -> (result: Result<
    (),
    ResizeError,
>) where F: FnOnce(ResizeCall) -> i32
    requires
        primitive.requires((ResizeCall::planned(src@, old(dst)@),)),
    ensures
        *final(dst) == *old(dst),
        exists|status: i32|
            #[trigger] primitive.ensures((ResizeCall::planned(src@, old(dst)@),), status)
                && result == outcome(status),
{
    let call = ResizeCall::plan(src, dst);
    let status: i32 = primitive(call);
    status_result(status)
}

} // verus!
