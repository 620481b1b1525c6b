//! Views of three-channel, 8-bit images inside a device allocation.

use vstd::prelude::*;

verus! {

/// Interleaved 8-bit channels in every pixel.
pub const CHANNELS: u8 = 3;

/// Bytes from one channel sample of a pixel to the next.
pub const CHANNEL_STRIDE: usize = 1;

/// Why a view could not be described.
#[derive(Clone, Copy, Debug, PartialEq, Eq)]
pub enum ImageError {
    /// The width or the height is zero.
    EmptyExtent,
    /// A row of pixels is longer than the distance between two rows.
    StrideTooSmall,
    /// A dimension or the row stride does not fit the device routine's 32-bit
    /// signed parameters, or the allocation is larger than a pointer offset.
    TooLarge,
    /// The view reaches outside its allocation, or a window outside its parent.
    OutOfBounds,
}

/// The geometry of a view: a rectangle of pixels laid out row by row inside an
/// allocation of `capacity` bytes.
pub struct Layout {
    /// Pixels in a row.
    pub width: nat,
    /// Rows.
    pub height: nat,
    /// Bytes from the start of one row to the start of the next.
    pub stride: nat,
    /// Byte offset of the first pixel within the allocation.
    pub offset: nat,
    /// Size of the allocation in bytes.
    pub capacity: nat,
}

impl Layout {
    /// Bytes that the pixels of one row occupy.
    pub open spec fn row_bytes(self) -> nat {
        3 * self.width
    }

    /// Offset one past the last byte of the last row.
    pub open spec fn end(self) -> int {
        self.offset + (self.height - 1) * self.stride + self.row_bytes()
    }

    /// A view is well formed when it is not empty, its rows do not overlap, it
    /// lies inside its allocation, and its numbers fit the machine types that
    /// carry them to the device.
    pub open spec fn wf(self) -> bool {
        &&& self.width > 0
        &&& self.height > 0
        &&& self.row_bytes() <= self.stride
        &&& self.end() <= self.capacity
        &&& self.stride <= i32::MAX
        &&& self.height <= i32::MAX
        &&& self.capacity <= isize::MAX
    }

    /// The first rule of `wf` that the layout breaks, if any.
    pub open spec fn fault(self) -> Option<ImageError> {
        if self.width == 0 || self.height == 0 {
            Some(ImageError::EmptyExtent)
        } else if self.row_bytes() > self.stride {
            Some(ImageError::StrideTooSmall)
        } else if self.stride > i32::MAX || self.height > i32::MAX || self.capacity
            > isize::MAX {
            Some(ImageError::TooLarge)
        } else if self.end() > self.capacity {
            Some(ImageError::OutOfBounds)
        } else {
            None
        }
    }

    /// Offset of byte `col` of row `row`.
    pub open spec fn byte_at(self, row: int, col: int) -> int {
        self.offset + row * self.stride + col
    }

    /// Whether the byte at `offset` of the allocation belongs to a pixel of the view.
    pub open spec fn contains(self, offset: int) -> bool {
        exists|row: int, col: int|
            0 <= row < self.height && 0 <= col < self.row_bytes() && #[trigger] self.byte_at(
                row,
                col,
            ) == offset
    }

    /// The bytes of the allocation that hold the view's pixels.
    pub open spec fn footprint(self) -> Set<int> {
        Set::new(|offset: int| self.contains(offset))
    }

    /// The layout that five machine numbers describe.
    pub open spec fn of(
        width: u32,
        height: u32,
        height_stride: usize,
        img_index: usize,
        buf_len: usize,
    ) -> Layout {
        Layout {
            width: width as nat,
            height: height as nat,
            stride: height_stride as nat,
            offset: img_index as nat,
            capacity: buf_len as nat,
        }
    }

    /// A whole image of `width` by `height` pixels that fills its allocation
    /// without padding.
    pub open spec fn packed(width: nat, height: nat) -> Layout {
        Layout { width, height, stride: 3 * width, offset: 0, capacity: 3 * width * height }
    }

    /// Whether the rectangle of `width` by `height` pixels at column `x`, row
    /// `y` is a non-empty part of the view.
    pub open spec fn has_window(self, x: nat, y: nat, width: nat, height: nat) -> bool {
        &&& width > 0
        &&& height > 0
        &&& x + width <= self.width
        &&& y + height <= self.height
    }

    /// The view of the rectangle of `width` by `height` pixels at column `x`,
    /// row `y`, in the same allocation.
    pub open spec fn window(self, x: nat, y: nat, width: nat, height: nat) -> Layout {
        Layout {
            width,
            height,
            stride: self.stride,
            offset: self.offset + y * self.stride + 3 * x,
            capacity: self.capacity,
        }
    }
}

/// Multiplying by a non-negative row stride keeps the order of two row numbers.
proof fn lemma_rows_in_order(a: int, b: int, stride: int)
    by (nonlinear_arith)
    requires
        a <= b,
        0 <= stride,
    ensures
        a * stride <= b * stride,
{
}

/// Going `a` rows down and then `b` rows down is going `a + b` rows down.
proof fn lemma_rows_add(a: int, b: int, stride: int)
    by (nonlinear_arith)
    ensures
        (a + b) * stride == a * stride + b * stride,
{
}

/// A byte lies in one row and one column only, when no row is longer than the
/// stride.
proof fn lemma_row_col_unique(row_a: int, col_a: int, row_b: int, col_b: int, stride: int)
    by (nonlinear_arith)
    requires
        0 <= col_a < stride,
        0 <= col_b < stride,
        row_a * stride + col_a == row_b * stride + col_b,
    ensures
        row_a == row_b,
        col_a == col_b,
{
    if row_a < row_b {
        assert((row_a + 1) * stride <= row_b * stride);
    } else if row_b < row_a {
        assert((row_b + 1) * stride <= row_a * stride);
    }
}

impl Layout {
    /// A layout breaks a rule exactly when it is not well formed.
    pub proof fn lemma_fault_iff_invalid(self)
        ensures
            self.fault() is None <==> self.wf(),
    {
    }

    /// A packed image is well formed as soon as it is not empty and its
    /// numbers fit; its rows touch and it ends where its allocation ends.
    pub proof fn lemma_packed(width: nat, height: nat)
        requires
            width > 0,
            height > 0,
        ensures
            Layout::packed(width, height).end() == Layout::packed(width, height).capacity,
            Layout::packed(width, height).wf() <==> 3 * width <= i32::MAX && height <= i32::MAX
                && 3 * width * height <= isize::MAX,
    {
        let stride: int = 3 * (width as int);
        assert((height - 1) * stride + stride == stride * height) by (nonlinear_arith);
    }

    /// Every byte of a well-formed view lies between the view's first byte and
    /// its end, and so inside the allocation.
    pub proof fn lemma_footprint_in_allocation(self)
        requires
            self.wf(),
        ensures
            self.offset < self.end() <= self.capacity,
            forall|offset: int| #[trigger]
                self.footprint().contains(offset) ==> self.offset <= offset < self.end(),
    {
        lemma_rows_in_order(0, self.height - 1, self.stride as int);
        assert forall|offset: int| #[trigger] self.footprint().contains(offset) implies self.offset
            <= offset < self.end() by {
            let (row, col) = choose|row: int, col: int|
                0 <= row < self.height && 0 <= col < self.row_bytes() && #[trigger] self.byte_at(
                    row,
                    col,
                ) == offset;
            lemma_rows_in_order(0, row, self.stride as int);
            lemma_rows_in_order(row, self.height - 1, self.stride as int);
        }
    }

    /// A window of a well-formed view is a well-formed view, and its bytes are
    /// bytes of the view it was cut from.
    pub proof fn lemma_window_in_parent(self, x: nat, y: nat, width: nat, height: nat)
        requires
            self.wf(),
            self.has_window(x, y, width, height),
        ensures
            self.window(x, y, width, height).wf(),
            self.window(x, y, width, height).footprint().subset_of(self.footprint()),
    {
        let sub = self.window(x, y, width, height);
        let stride = self.stride as int;
        lemma_rows_add(y as int, height - 1, stride);
        lemma_rows_in_order(y + height - 1, self.height - 1, stride);
        assert forall|offset: int| #[trigger] sub.footprint().contains(offset) implies self.footprint().contains(
            offset,
        ) by {
            let (row, col) = choose|row: int, col: int|
                0 <= row < sub.height && 0 <= col < sub.row_bytes() && #[trigger] sub.byte_at(
                    row,
                    col,
                ) == offset;
            lemma_rows_add(y as int, row, stride);
            assert(self.byte_at(y + row, 3 * x + col) == offset);
        }
    }

    /// Two windows of one view whose rectangles share no pixel share no byte.
    pub proof fn lemma_disjoint_windows(
        self,
        xa: nat,
        ya: nat,
        wa: nat,
        ha: nat,
        xb: nat,
        yb: nat,
        wb: nat,
        hb: nat,
    )
        requires
            self.wf(),
            self.has_window(xa, ya, wa, ha),
            self.has_window(xb, yb, wb, hb),
            xa + wa <= xb || xb + wb <= xa || ya + ha <= yb || yb + hb <= ya,
        ensures
            self.window(xa, ya, wa, ha).footprint().disjoint(
                self.window(xb, yb, wb, hb).footprint(),
            ),
    {
        let a = self.window(xa, ya, wa, ha);
        let b = self.window(xb, yb, wb, hb);
        let stride = self.stride as int;
        assert forall|offset: int|
            !(#[trigger] a.footprint().contains(offset) && #[trigger] b.footprint().contains(offset)) by {
            if a.footprint().contains(offset) && b.footprint().contains(offset) {
                let (row_a, col_a) = choose|row: int, col: int|
                    0 <= row < a.height && 0 <= col < a.row_bytes() && #[trigger] a.byte_at(
                        row,
                        col,
                    ) == offset;
                let (row_b, col_b) = choose|row: int, col: int|
                    0 <= row < b.height && 0 <= col < b.row_bytes() && #[trigger] b.byte_at(
                        row,
                        col,
                    ) == offset;
                lemma_rows_add(ya as int, row_a, stride);
                lemma_rows_add(yb as int, row_b, stride);
                lemma_row_col_unique(
                    ya + row_a,
                    3 * xa + col_a,
                    yb + row_b,
                    3 * xb + col_b,
                    stride,
                );
            }
        }
    }
}

/// A view of an image in device memory: where its pixels lie in an allocation.
///
/// The view owns no memory, and several views may describe parts of one
/// allocation. Every value of this type is well formed.
#[derive(Clone, Copy, Debug, PartialEq, Eq)]
pub struct CudaImage {
    width: u32,
    height: u32,
    height_stride: usize,
    img_index: usize,
    buf_len: usize,
}

impl View for CudaImage {
    type V = Layout;

    closed spec fn view(&self) -> Layout {
        Layout {
            width: self.width as nat,
            height: self.height as nat,
            stride: self.height_stride as nat,
            offset: self.img_index as nat,
            capacity: self.buf_len as nat,
        }
    }
}

impl CudaImage {
    /// Holds of every view that executable code can get hold of.
    #[verifier::type_invariant]
    pub open spec fn wf(self) -> bool {
        self@.wf()
    }

    /// Describes a whole image of `width` by `height` pixels that fills an
    /// allocation of `3 * width * height` bytes.
    ///
    /// Fails with `EmptyExtent` when a dimension is zero, and with `TooLarge`
    /// when a row, the height or the allocation does not fit its machine type.
    pub fn new(width: u32, height: u32) -> (result: Result<CudaImage, ImageError>)
        ensures
            result is Ok <==> Layout::packed(width as nat, height as nat).wf(),
            match result {
                Ok(image) => image@ == Layout::packed(width as nat, height as nat),
                Err(e) => Layout::packed(width as nat, height as nat).fault() == Some(e),
            },
    {
        if width == 0 || height == 0 {
            return Err(ImageError::EmptyExtent);
        }
        let row: u64 = (width as u64) * 3;
        if row > i32::MAX as u64 || height > i32::MAX as u32 {
            return Err(ImageError::TooLarge);
        }
        assert(row * height <= 0x7fff_ffff * 0x7fff_ffff) by (nonlinear_arith)
            requires
                row <= 0x7fff_ffff,
                height <= 0x7fff_ffff,
        ;
        let len: u64 = row * (height as u64);
        proof {
            Layout::lemma_packed(width as nat, height as nat);
        }
        if len > isize::MAX as u64 {
            return Err(ImageError::TooLarge);
        }
        Ok(CudaImage { width, height, height_stride: row as usize, img_index: 0, buf_len: len as usize })
    }

    /// Describes the view of `width` by `height` pixels whose first pixel lies
    /// `img_index` bytes into an allocation of `buf_len` bytes and whose rows
    /// are `height_stride` bytes apart.
    ///
    /// Fails with the first rule that these numbers break: `EmptyExtent`,
    /// `StrideTooSmall`, `TooLarge`, `OutOfBounds`, in this order.
    pub fn with_layout(
        width: u32,
        height: u32,
        height_stride: usize,
        img_index: usize,
        buf_len: usize,
    ) -> (result: Result<CudaImage, ImageError>)
        ensures
            result is Ok <==> Layout::of(width, height, height_stride, img_index, buf_len).wf(),
            match result {
                Ok(image) => image@ == Layout::of(width, height, height_stride, img_index, buf_len),
                Err(e) => Layout::of(width, height, height_stride, img_index, buf_len).fault()
                    == Some(e),
            },
    {
        if width == 0 || height == 0 {
            return Err(ImageError::EmptyExtent);
        }
        let row: u64 = (width as u64) * 3;
        if row > height_stride as u64 {
            return Err(ImageError::StrideTooSmall);
        }
        if height_stride > i32::MAX as usize || height > i32::MAX as u32 || buf_len
            > isize::MAX as usize {
            return Err(ImageError::TooLarge);
        }
        assert((height - 1) * height_stride <= 0x7fff_ffff * 0x7fff_ffff) by (nonlinear_arith)
            requires
                0 < height <= 0x7fff_ffff,
                height_stride <= 0x7fff_ffff,
        ;
        let span: u64 = (height as u64 - 1) * (height_stride as u64) + row;
        if img_index > buf_len || span > (buf_len - img_index) as u64 {
            return Err(ImageError::OutOfBounds);
        }
        Ok(CudaImage { width, height, height_stride, img_index, buf_len })
    }

    /// Describes the rectangle of `width` by `height` pixels at column `x`,
    /// row `y` of this view, in the same allocation.
    ///
    /// Fails with `EmptyExtent` when a dimension is zero, and otherwise with
    /// `OutOfBounds` when the rectangle is not inside this view.
    pub fn sub_image(&self, x: u32, y: u32, width: u32, height: u32) -> (result: Result<
        CudaImage,
        ImageError,
    >)
        ensures
            result is Ok <==> self@.has_window(x as nat, y as nat, width as nat, height as nat),
            match result {
                Ok(sub) => sub@ == self@.window(x as nat, y as nat, width as nat, height as nat)
                    && sub@.wf(),
                Err(e) => e == if width == 0 || height == 0 {
                    ImageError::EmptyExtent
                } else {
                    ImageError::OutOfBounds
                },
            },
    {
        proof {
            use_type_invariant(self);
        }
        if width == 0 || height == 0 {
            return Err(ImageError::EmptyExtent);
        }
        if x > self.width || width > self.width - x || y > self.height || height > self.height
            - y {
            return Err(ImageError::OutOfBounds);
        }
        proof {
            let stride = self.height_stride as int;
            self@.lemma_window_in_parent(x as nat, y as nat, width as nat, height as nat);
            lemma_rows_in_order(y as int, self.height - 1, stride);
            lemma_rows_in_order(0, y as int, stride);
        }
        let down: usize = (y as usize) * self.height_stride;
        let across: usize = 3 * (x as usize);
        let img_index: usize = self.img_index + down + across;
        Ok(
            CudaImage {
                width,
                height,
                height_stride: self.height_stride,
                img_index,
                buf_len: self.buf_len,
            },
        )
    }

    /// Interleaved 8-bit channels in every pixel of the view.
    pub fn channels(&self) -> (channels: u8)
        ensures
            channels == CHANNELS,
    {
        CHANNELS
    }

    /// Bytes from one channel sample of a pixel to the next.
    pub fn channel_stride(&self) -> (stride: usize)
        ensures
            stride == CHANNEL_STRIDE,
    {
        CHANNEL_STRIDE
    }

    /// Pixels in a row.
    pub fn width(&self) -> (width: u32)
        ensures
            width == self@.width,
    {
        self.width
    }

    /// Rows.
    pub fn height(&self) -> (height: u32)
        ensures
            height == self@.height,
    {
        self.height
    }

    /// Bytes from the start of one row to the start of the next.
    pub fn height_stride(&self) -> (stride: usize)
        ensures
            stride == self@.stride,
    {
        self.height_stride
    }

    /// Byte offset of the first pixel within the allocation.
    pub fn img_index(&self) -> (offset: usize)
        ensures
            offset == self@.offset,
    {
        self.img_index
    }

    /// Size in bytes of the allocation that the view lies in.
    pub fn buf_len(&self) -> (capacity: usize)
        ensures
            capacity == self@.capacity,
    {
        self.buf_len
    }
}

} // verus!
