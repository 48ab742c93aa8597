//! Rendered frames and the pixel evidence read from them.
use crate::error::{io, Error, ErrorView, Result, Source};
use crate::ieee;
use crate::witness::anchor::Anchor;
use png::{BitDepth, ColorType, Decoder, Encoder, Transformations};
use std::io::Cursor;
use vstd::prelude::*;

verus! {

// ---------------------------------------------------------------------------
// Regions
// ---------------------------------------------------------------------------

/// Physical-pixel rectangle used by rendered oracles.
#[derive(Clone, Copy, Debug, PartialEq, Eq, Structural)]
pub struct PixelRegion {
    pub left: i32,
    pub top: i32,
    pub right: i32,
    pub bottom: i32,
}

/// A rectangle of pixels inside a frame: the left and top edges it holds, the
/// right and bottom edges it stops before.
#[derive(Clone, Copy, Debug, PartialEq, Eq, Structural)]
pub struct Window {
    pub left: usize,
    pub top: usize,
    pub right: usize,
    pub bottom: usize,
}

/// A coordinate brought into `0..=limit`.
pub open spec fn held_within(value: int, limit: int) -> int {
    if value < 0 {
        0
    } else if value > limit {
        limit
    } else {
        value
    }
}

impl PixelRegion {
    /// Left edge of the part inside a frame.
    pub open spec fn left_in(self, width: int) -> int {
        held_within(self.left as int, width)
    }

    /// Top edge of the part inside a frame.
    pub open spec fn top_in(self, height: int) -> int {
        held_within(self.top as int, height)
    }

    /// Right edge of the part inside a frame.
    pub open spec fn right_in(self, width: int) -> int {
        held_within(self.right as int, width)
    }

    /// Bottom edge of the part inside a frame.
    pub open spec fn bottom_in(self, height: int) -> int {
        held_within(self.bottom as int, height)
    }

    /// Whether the region covers a pixel of a frame whose extents are signed
    /// 32-bit numbers.
    pub open spec fn visible(self, width: int, height: int) -> bool {
        &&& width <= i32::MAX
        &&& height <= i32::MAX
        &&& self.left_in(width) < self.right_in(width)
        &&& self.top_in(height) < self.bottom_in(height)
    }

    /// Whether a pixel of a frame lies in the region.
    pub open spec fn covers(self, width: int, height: int, x: int, y: int) -> bool {
        self.left_in(width) <= x < self.right_in(width) && self.top_in(height) <= y
            < self.bottom_in(height)
    }

    /// A region from its four edges.
    pub fn new(left: i32, top: i32, right: i32, bottom: i32) -> (region: Self)
        ensures
            region.left == left,
            region.top == top,
            region.right == right,
            region.bottom == bottom,
    {
        PixelRegion { left, top, right, bottom }
    }

    /// The smallest region of whole pixels that holds an anchor's rectangle.
    pub fn anchor(anchor: &Anchor) -> (region: Self)
        ensures
            region.left == ieee::floor_of(anchor.rect[0]),
            region.top == ieee::floor_of(anchor.rect[1]),
            region.right == ieee::ceil_of(anchor.rect[2]),
            region.bottom == ieee::ceil_of(anchor.rect[3]),
    {
        Self::new(
            ieee::floor(anchor.rect[0]),
            ieee::floor(anchor.rect[1]),
            ieee::ceil(anchor.rect[2]),
            ieee::ceil(anchor.rect[3]),
        )
    }

    /// The part of the region inside a frame, when there is one.
    pub fn clipped(self, width: u32, height: u32) -> (part: Option<Window>)
        ensures
            match part {
                Some(part) => self.visible(width as int, height as int) && part.left
                    == self.left_in(width as int) && part.top == self.top_in(height as int)
                    && part.right == self.right_in(width as int) && part.bottom == self.bottom_in(
                    height as int,
                ),
                None => !self.visible(width as int, height as int),
            },
    {
        if width > 0x7fff_ffff || height > 0x7fff_ffff {
            return None;
        }
        let left: usize = hold(self.left, width);
        let top: usize = hold(self.top, height);
        let right: usize = hold(self.right, width);
        let bottom: usize = hold(self.bottom, height);
        if left < right && top < bottom {
            Some(Window { left, top, right, bottom })
        } else {
            None
        }
    }
}

fn hold(value: i32, limit: u32) -> (held: usize)
    requires
        limit <= i32::MAX,
    ensures
        held == held_within(value as int, limit as int),
{
    if value < 0 {
        0
    } else if value as u32 > limit {
        limit as usize
    } else {
        value as usize
    }
}

// ---------------------------------------------------------------------------
// Frames
// ---------------------------------------------------------------------------

/// One observed RGBA frame.
///
/// Frames deliberately have no exact equality: rendered evidence must declare
/// a bounded region and tolerance through [`Frame::difference_region`].
#[derive(Debug)]
pub struct Frame {
    width: u32,
    height: u32,
    rgba: Vec<u8>,
}

/// Mathematical content of a [`Frame`].
#[verifier::ext_equal]
pub struct FrameView {
    pub width: int,
    pub height: int,
    pub rgba: Seq<u8>,
}

impl View for Frame {
    type V = FrameView;

    closed spec fn view(&self) -> FrameView {
        FrameView { width: self.width as int, height: self.height as int, rgba: self.rgba@ }
    }
}

impl FrameView {
    /// Four bytes for every pixel.
    pub open spec fn whole(self) -> bool {
        &&& 0 <= self.width <= u32::MAX
        &&& 0 <= self.height <= u32::MAX
        &&& self.rgba.len() == self.width * self.height * 4
    }

    /// Where the bytes of a pixel begin.
    pub open spec fn offset(self, x: int, y: int) -> int {
        (y * self.width + x) * 4
    }

    /// The red, green, blue, and alpha bytes of a pixel.
    pub open spec fn pixel(self, x: int, y: int) -> Seq<u8> {
        self.rgba.subrange(self.offset(x, y), self.offset(x, y) + 4)
    }

    /// Whether a color channel of a pixel moved by more than `slop` between two
    /// frames of one size.
    pub open spec fn moved(self, other: FrameView, x: int, y: int, slop: u8) -> bool {
        exists|channel: int|
            0 <= channel < 3 && #[trigger] strays(
                self.rgba[self.offset(x, y) + channel],
                other.rgba[self.offset(x, y) + channel],
                slop,
            )
    }

    /// Number of moved pixels of one row, from `left` up to `right`.
    pub open spec fn moved_in_row(
        self,
        other: FrameView,
        y: int,
        left: int,
        right: int,
        slop: u8,
    ) -> nat
        decreases right - left,
    {
        if right <= left {
            0
        } else {
            self.moved_in_row(other, y, left, right - 1, slop) + if self.moved(
                other,
                right - 1,
                y,
                slop,
            ) {
                1nat
            } else {
                0nat
            }
        }
    }

    /// Number of moved pixels of the rows from `top` up to `bottom`.
    pub open spec fn moved_in(
        self,
        other: FrameView,
        left: int,
        right: int,
        top: int,
        bottom: int,
        slop: u8,
    ) -> nat
        decreases bottom - top,
    {
        if bottom <= top {
            0
        } else {
            self.moved_in(other, left, right, top, bottom - 1, slop) + self.moved_in_row(
                other,
                bottom - 1,
                left,
                right,
                slop,
            )
        }
    }

    /// Moved pixels inside a region.
    pub open spec fn moved_pixels(self, other: FrameView, region: PixelRegion, slop: u8) -> nat {
        self.moved_in(
            other,
            region.left_in(self.width),
            region.right_in(self.width),
            region.top_in(self.height),
            region.bottom_in(self.height),
            slop,
        )
    }

    /// The part of the frame inside a region: a frame of the region's visible
    /// extent that holds the region's pixels in place.
    pub open spec fn crops_to(self, region: PixelRegion, crop: FrameView) -> bool {
        let left = region.left_in(self.width);
        let top = region.top_in(self.height);
        &&& crop.whole()
        &&& crop.width == region.right_in(self.width) - left
        &&& crop.height == region.bottom_in(self.height) - top
        &&& forall|x: int, y: int|
            0 <= x < crop.width && 0 <= y < crop.height ==> #[trigger] crop.pixel(x, y)
                == self.pixel(left + x, top + y)
    }
}

/// Whether two channel values lie further than `slop` apart.
pub open spec fn strays(left: u8, right: u8, slop: u8) -> bool {
    left - right > slop || right - left > slop
}

/// Moved pixels out of the pixels that were compared.
#[derive(Clone, Copy, Debug, PartialEq, Eq, Structural)]
pub struct Difference {
    pub moved: usize,
    pub pixels: usize,
}

proof fn lemma_pixel_bounds(width: int, height: int, x: int, y: int)
    requires
        0 <= x < width,
        0 <= y < height,
    ensures
        0 <= (y * width + x) * 4,
        (y * width + x) * 4 + 4 <= width * height * 4,
        y * width + width <= width * height,
        0 <= y * width,
{
    assert(y * width + width <= width * height && 0 <= y * width) by (nonlinear_arith)
        requires
            0 <= y < height,
            0 <= x < width,
    ;
}

impl Frame {
    #[verifier::type_invariant]
    spec fn inv(self) -> bool {
        self@.whole()
    }

    /// A frame from its extents and four bytes for every pixel, row by row.
    pub fn new(width: u32, height: u32, rgba: Vec<u8>) -> (frame: Self)
        requires
            rgba.len() == width * height * 4,
        ensures
            frame@ == (FrameView { width: width as int, height: height as int, rgba: rgba@ }),
    {
        Frame { width, height, rgba }
    }

    /// Horizontal extent in pixels.
    pub fn width(&self) -> (width: u32)
        ensures
            width == self@.width,
            self@.whole(),
    {
        proof {
            use_type_invariant(self);
        }
        self.width
    }

    /// Vertical extent in pixels.
    pub fn height(&self) -> (height: u32)
        ensures
            height == self@.height,
            self@.whole(),
    {
        proof {
            use_type_invariant(self);
        }
        self.height
    }

    /// The pixels, row by row.
    pub fn rgba(&self) -> (rgba: &[u8])
        ensures
            rgba@ == self@.rgba,
            self@.whole(),
    {
        proof {
            use_type_invariant(self);
        }
        self.rgba.as_slice()
    }

    fn pixel_moved(&self, other: &Self, x: usize, y: usize, slop: u8) -> (moved: bool)
        requires
            self@.whole(),
            other@.whole(),
            self@.width == other@.width,
            self@.height == other@.height,
            x < self@.width,
            y < self@.height,
        ensures
            moved == self@.moved(other@, x as int, y as int, slop),
    {
        proof {
            lemma_pixel_bounds(self@.width, self@.height, x as int, y as int);
        }
        assert(self.rgba.len() <= usize::MAX);
        let offset: usize = (y * self.width as usize + x) * 4;
        let mut channel: usize = 0;
        while channel < 3
            invariant
                channel <= 3,
                offset == self@.offset(x as int, y as int),
                offset + 4 <= self.rgba@.len(),
                offset + 4 <= other.rgba@.len(),
                forall|i: int|
                    0 <= i < channel ==> !#[trigger] strays(
                        self@.rgba[self@.offset(x as int, y as int) + i],
                        other@.rgba[self@.offset(x as int, y as int) + i],
                        slop,
                    ),
            decreases 3 - channel,
        {
            let left: u8 = self.rgba[offset + channel];
            let right: u8 = other.rgba[offset + channel];
            let apart: u8 = if left < right {
                right - left
            } else {
                left - right
            };
            if apart > slop {
                assert(strays(
                    self@.rgba[self@.offset(x as int, y as int) + channel],
                    other@.rgba[self@.offset(x as int, y as int) + channel],
                    slop,
                ));
                return true;
            }
            channel = channel + 1;
        }
        false
    }

    fn row_moved(&self, other: &Self, y: usize, part: Window, slop: u8) -> (count: usize)
        requires
            self@.whole(),
            other@.whole(),
            self@.width == other@.width,
            self@.height == other@.height,
            part.left < part.right <= self@.width,
            y < self@.height,
        ensures
            count == self@.moved_in_row(
                other@,
                y as int,
                part.left as int,
                part.right as int,
                slop,
            ),
            count <= part.right - part.left,
    {
        let mut count: usize = 0;
        let mut x: usize = part.left;
        while x < part.right
            invariant
                self@.whole(),
                other@.whole(),
                self@.width == other@.width,
                self@.height == other@.height,
                part.left <= x <= part.right <= self@.width,
                y < self@.height,
                count == self@.moved_in_row(other@, y as int, part.left as int, x as int, slop),
                count <= x - part.left,
            decreases part.right - x,
        {
            if self.pixel_moved(other, x, y, slop) {
                count = count + 1;
            }
            x = x + 1;
        }
        count
    }

    /// Moved pixels inside one physical window region, out of the pixels that
    /// the region covers. A pixel has moved when one of its color channels
    /// differs by more than `channel_slop`. Frames of different extents differ
    /// altogether.
    pub fn difference_region(&self, other: &Self, region: PixelRegion, channel_slop: u8) -> (found:
        Result<Difference>)
        ensures
            match found {
                Ok(found) => if self@.width != other@.width || self@.height != other@.height {
                    found.moved == 1 && found.pixels == 1
                } else {
                    region.visible(self@.width, self@.height) && found.moved == self@.moved_pixels(
                        other@,
                        region,
                        channel_slop,
                    ) && found.pixels == (region.right_in(self@.width) - region.left_in(
                        self@.width,
                    )) * (region.bottom_in(self@.height) - region.top_in(self@.height))
                        && found.moved <= found.pixels && 0 < found.pixels
                },
                Err(error) => self@.width == other@.width && self@.height == other@.height
                    && !region.visible(self@.width, self@.height) && error@ == (ErrorView::X11 {
                    operation: "compare frame region"@,
                    detail: "pixel region is empty or outside the frame"@,
                }),
            },
    {
        proof {
            use_type_invariant(self);
            use_type_invariant(other);
        }
        if self.width != other.width || self.height != other.height {
            return Ok(Difference { moved: 1, pixels: 1 });
        }
        let part = match region.clipped(self.width, self.height) {
            Some(part) => part,
            None => {
                return Err(
                    Error::X11 {
                        operation: "compare frame region",
                        detail: "pixel region is empty or outside the frame".to_owned(),
                    },
                );
            },
        };
        let wide: usize = part.right - part.left;
        let high: usize = part.bottom - part.top;
        assert(wide * high <= self@.width * self@.height) by (nonlinear_arith)
            requires
                0 <= wide <= self@.width,
                0 <= high <= self@.height,
        ;
        assert(self.rgba.len() <= usize::MAX);
        assert(0 < wide * high) by (nonlinear_arith)
            requires
                0 < wide,
                0 < high,
        ;
        let mut moved: usize = 0;
        let mut y: usize = part.top;
        assert(wide * 0 == 0);
        while y < part.bottom
            invariant
                self@.whole(),
                other@.whole(),
                self@.width == other@.width,
                self@.height == other@.height,
                part.left < part.right <= self@.width,
                part.top <= y <= part.bottom <= self@.height,
                wide == part.right - part.left,
                high == part.bottom - part.top,
                wide * high <= usize::MAX,
                moved == self@.moved_in(
                    other@,
                    part.left as int,
                    part.right as int,
                    part.top as int,
                    y as int,
                    channel_slop,
                ),
                moved <= wide * (y - part.top),
            decreases part.bottom - y,
        {
            assert(wide * (y - part.top) + wide == wide * (y + 1 - part.top)) by (nonlinear_arith);
            assert(wide * (y + 1 - part.top) <= wide * high) by (nonlinear_arith)
                requires
                    0 <= wide,
                    y + 1 - part.top <= high,
            ;
            moved = moved + self.row_moved(other, y, part, channel_slop);
            y = y + 1;
        }
        Ok(Difference { moved, pixels: wide * high })
    }

    /// Moved pixels of the whole frame, out of all its pixels.
    pub fn difference(&self, other: &Self, channel_slop: u8) -> (found: Result<Difference>)
        ensures
            match found {
                Ok(found) => if self@.width != other@.width || self@.height != other@.height {
                    found.moved == 1 && found.pixels == 1
                } else {
                    0 < self@.width <= i32::MAX && 0 < self@.height <= i32::MAX && found.moved
                        == self@.moved_in(
                        other@,
                        0,
                        self@.width,
                        0,
                        self@.height,
                        channel_slop,
                    ) && found.pixels == self@.width * self@.height
                },
                Err(error) => self@.width == other@.width && self@.height == other@.height && !(0
                    < self@.width <= i32::MAX && 0 < self@.height <= i32::MAX) && error@ == (
                ErrorView::X11 {
                    operation: "compare frame region"@,
                    detail: "pixel region is empty or outside the frame"@,
                }),
            },
    {
        let right: i32 = signed_extent(self.width);
        let bottom: i32 = signed_extent(self.height);
        self.difference_region(other, PixelRegion::new(0, 0, right, bottom), channel_slop)
    }

    /// Extract a physical window region as an independent frame.
    pub fn crop(&self, region: PixelRegion) -> (found: Result<Self>)
        ensures
            match found {
                Ok(crop) => region.visible(self@.width, self@.height) && self@.crops_to(
                    region,
                    crop@,
                ),
                Err(error) => !region.visible(self@.width, self@.height) && error@ == (
                ErrorView::X11 {
                    operation: "crop frame"@,
                    detail: "pixel region is empty or outside the frame"@,
                }),
            },
    {
        proof {
            use_type_invariant(self);
        }
        let part = match region.clipped(self.width, self.height) {
            Some(part) => part,
            None => {
                return Err(
                    Error::X11 {
                        operation: "crop frame",
                        detail: "pixel region is empty or outside the frame".to_owned(),
                    },
                );
            },
        };
        let wide: usize = part.right - part.left;
        let high: usize = part.bottom - part.top;
        assert(self.rgba.len() <= usize::MAX);
        let mut rgba: Vec<u8> = Vec::new();
        let mut y: usize = part.top;
        assert(wide * 0 * 4 == 0);
        while y < part.bottom
            invariant
                self@.whole(),
                self.rgba@.len() <= usize::MAX,
                part.left < part.right <= self@.width,
                part.top <= y <= part.bottom <= self@.height,
                wide == part.right - part.left,
                rgba@.len() == wide * (y - part.top) * 4,
                forall|i: int, x: int|
                    0 <= x < wide && 0 <= i < y - part.top ==> #[trigger] rgba@.subrange(
                        (i * wide + x) * 4,
                        (i * wide + x) * 4 + 4,
                    ) == self@.pixel(part.left + x, part.top + i),
            decreases part.bottom - y,
        {
            let ghost before = rgba@;
            proof {
                lemma_pixel_bounds(self@.width, self@.height, part.right - 1, y as int);
                lemma_pixel_bounds(self@.width, self@.height, part.left as int, y as int);
            }
            let row: usize = y * self.width as usize;
            let start: usize = (row + part.left) * 4;
            let end: usize = (row + part.right) * 4;
            let mut at: usize = start;
            while at < end
                invariant
                    start <= at <= end <= self.rgba@.len(),
                    rgba@ == before + self.rgba@.subrange(start as int, at as int),
                decreases end - at,
            {
                rgba.push(self.rgba[at]);
                at = at + 1;
                assert(self.rgba@.subrange(start as int, at as int) == self.rgba@.subrange(
                    start as int,
                    at - 1,
                ).push(self.rgba@[at - 1]));
            }
            proof {
                let done = y - part.top;
                assert(wide * (done + 1) * 4 == wide * done * 4 + wide * 4) by (nonlinear_arith);
                assert forall|i: int, x: int|
                    0 <= x < wide && 0 <= i < done + 1 implies #[trigger] rgba@.subrange(
                    (i * wide + x) * 4,
                    (i * wide + x) * 4 + 4,
                ) == self@.pixel(part.left + x, part.top + i) by {
                    let from = (i * wide + x) * 4;
                    if i < done {
                        assert(0 <= i * wide && i * wide + wide <= wide * done) by (nonlinear_arith)
                            requires
                                0 <= i < done,
                                0 <= wide,
                        ;
                        assert(rgba@.subrange(from, from + 4) == before.subrange(from, from + 4));
                    } else {
                        assert(i * wide == wide * done) by (nonlinear_arith)
                            requires
                                i == done,
                        ;
                        assert(self@.offset(part.left + x, y as int) == start + x * 4);
                        assert(rgba@.subrange(from, from + 4) == self@.pixel(
                            part.left + x,
                            part.top + i,
                        ));
                    }
                }
            }
            y = y + 1;
        }
        assert(rgba@.len() == wide * high * 4);
        let crop = Frame { width: wide as u32, height: high as u32, rgba };
        proof {
            assert forall|x: int, i: int|
                0 <= x < crop@.width && 0 <= i < crop@.height implies #[trigger] crop@.pixel(x, i)
                == self@.pixel(part.left + x, part.top + i) by {
                assert(crop@.pixel(x, i) == rgba@.subrange(
                    (i * wide + x) * 4,
                    (i * wide + x) * 4 + 4,
                ));
            }
        }
        Ok(crop)
    }
}

// ---------------------------------------------------------------------------
// Portable network graphics
// ---------------------------------------------------------------------------

/// The layout of one decoded pixel.
#[derive(Clone, Copy, Debug, PartialEq, Eq, Structural)]
pub enum Layout {
    Rgba,
    Rgb,
    Grayscale,
    GrayscaleAlpha,
    Indexed,
}

/// Bytes of one pixel of a layout.
pub open spec fn samples(layout: Layout) -> int {
    match layout {
        Layout::Rgba => 4,
        Layout::Rgb => 3,
        Layout::Grayscale => 1,
        Layout::GrayscaleAlpha => 2,
        Layout::Indexed => 1,
    }
}

/// A decoded image with eight bits for every sample.
#[derive(Debug)]
pub struct Raster {
    pub width: u32,
    pub height: u32,
    pub layout: Layout,
    pub bytes: Vec<u8>,
}

/// The step at which a codec gave up.
#[derive(Clone, Copy, Debug, PartialEq, Eq, Structural)]
pub enum CodecStep {
    Header,
    Size,
    Pixels,
}

/// The image that a PNG stream decodes to, as extents, layout, and bytes, or the
/// step and the rendering of the codec's error.
pub uninterp spec fn decoded(png: Seq<u8>) -> std::result::Result<
    (u32, u32, Layout, Seq<u8>),
    (CodecStep, Seq<char>),
>;

/// `png::Decoder` with the `EXPAND` and `STRIP_16` transformations, read through
/// `read_info`, `output_buffer_size`, and `next_frame`. What it returns depends
/// on the stream alone; [`decoded`] names it. Under these transformations every
/// sample has eight bits, so the bytes are the samples of every pixel.
#[verifier::external_body]
fn decode(stream: &[u8]) -> (raster: std::result::Result<Raster, (CodecStep, String)>)
    ensures
        match raster {
            Ok(raster) => decoded(stream@) == Ok::<_, (CodecStep, Seq<char>)>(
                (raster.width, raster.height, raster.layout, raster.bytes@),
            ) && raster.bytes.len() == raster.width * raster.height * samples(raster.layout),
            Err((step, detail)) => decoded(stream@) == Err::<(u32, u32, Layout, Seq<u8>), _>(
                (step, detail@),
            ),
        },
{
    let mut decoder = Decoder::new(Cursor::new(stream));
    decoder.set_transformations(Transformations::normalize_to_color8());
    let mut reader = decoder.read_info().map_err(|error| (CodecStep::Header, error.to_string()))?;
    let mut bytes = vec![0; reader.output_buffer_size().ok_or((CodecStep::Size, String::new()))?];
    let info = reader.next_frame(&mut bytes).map_err(|error| (CodecStep::Pixels, error.to_string()))?;
    bytes.truncate(info.buffer_size());
    Ok(Raster { width: info.width, height: info.height, bytes, layout: match info.color_type {
        ColorType::Rgba => Layout::Rgba,
        ColorType::Rgb => Layout::Rgb,
        ColorType::Grayscale => Layout::Grayscale,
        ColorType::GrayscaleAlpha => Layout::GrayscaleAlpha,
        ColorType::Indexed => Layout::Indexed,
    } })
}

/// The PNG stream of an eight-bit RGBA image, or the step and the rendering of
/// the codec's error.
pub uninterp spec fn encoded(width: u32, height: u32, rgba: Seq<u8>) -> std::result::Result<
    Seq<u8>,
    (CodecStep, Seq<char>),
>;

/// `png::Encoder` with eight-bit RGBA, written through `write_header` and
/// `write_image_data` into memory. What it returns depends on the extents and
/// the pixels alone; [`encoded`] names it. An image without pixels is refused
/// with its header; no other header is.
#[verifier::external_body]
fn encode(width: u32, height: u32, rgba: &[u8]) -> (stream: std::result::Result<
    Vec<u8>,
    (CodecStep, String),
>)
    requires
        rgba@.len() == width * height * 4,
    ensures
        match stream {
            Ok(stream) => encoded(width, height, rgba@) == Ok::<_, (CodecStep, Seq<char>)>(stream@)
                && width > 0 && height > 0,
            Err((step, detail)) => encoded(width, height, rgba@) == Err::<Seq<u8>, _>(
                (step, detail@),
            ) && step != CodecStep::Size && ((width == 0 || height == 0) == (step
                == CodecStep::Header)),
        },
{
    let mut stream = Vec::new();
    let mut encoder = Encoder::new(&mut stream, width, height);
    encoder.set_color(ColorType::Rgba);
    encoder.set_depth(BitDepth::Eight);
    let mut writer = encoder.write_header().map_err(|error| (CodecStep::Header, error.to_string()))?;
    writer.write_image_data(rgba).map_err(|error| (CodecStep::Pixels, error.to_string()))?;
    drop(writer);
    Ok(stream)
}

/// The RGBA bytes of one decoded pixel.
pub open spec fn expanded_pixel(layout: Layout, pixel: Seq<u8>) -> Seq<u8> {
    match layout {
        Layout::Rgba => pixel,
        Layout::Rgb => seq![pixel[0], pixel[1], pixel[2], 255u8],
        Layout::GrayscaleAlpha => seq![pixel[0], pixel[0], pixel[0], pixel[1]],
        _ => seq![pixel[0], pixel[0], pixel[0], 255u8],
    }
}

/// The RGBA bytes of decoded pixels.
pub open spec fn expanded(layout: Layout, bytes: Seq<u8>, pixels: nat) -> Seq<u8>
    decreases pixels,
{
    if pixels == 0 {
        seq![]
    } else {
        expanded(layout, bytes, (pixels - 1) as nat) + expanded_pixel(
            layout,
            bytes.subrange((pixels - 1) * samples(layout), pixels * samples(layout)),
        )
    }
}

/// Pixels that are RGBA already pass through the expansion unchanged.
pub proof fn law_rgba_passes_unchanged(bytes: Seq<u8>, pixels: nat)
    requires
        bytes.len() == pixels * 4,
    ensures
        expanded(Layout::Rgba, bytes, pixels) == bytes,
{
    lemma_expanded_rgba(bytes, pixels);
    assert(bytes.take(pixels as int * 4) == bytes);
}

proof fn lemma_expanded_rgba(bytes: Seq<u8>, pixels: nat)
    requires
        pixels * 4 <= bytes.len(),
    ensures
        expanded(Layout::Rgba, bytes, pixels) == bytes.take(pixels as int * 4),
    decreases pixels,
{
    if pixels > 0 {
        lemma_expanded_rgba(bytes, (pixels - 1) as nat);
        assert(bytes.take(pixels as int * 4) == bytes.take((pixels - 1) * 4) + bytes.subrange(
            (pixels - 1) * 4,
            pixels as int * 4,
        ));
    } else {
        assert(bytes.take(0) == Seq::<u8>::empty());
    }
}

/// Spread decoded pixels to RGBA. A pixel without alpha is opaque.
pub fn expand_pixels(layout: Layout, bytes: &[u8], pixels: usize) -> (rgba: Vec<u8>)
    requires
        bytes@.len() == pixels * samples(layout),
    ensures
        rgba@ == expanded(layout, bytes@, pixels as nat),
        rgba@.len() == pixels * 4,
{
    let wide: usize = match layout {
        Layout::Rgba => 4,
        Layout::Rgb => 3,
        Layout::GrayscaleAlpha => 2,
        _ => 1,
    };
    assert(bytes.len() <= usize::MAX);
    let mut rgba: Vec<u8> = Vec::new();
    let mut index: usize = 0;
    while index < pixels
        invariant
            index <= pixels,
            wide == samples(layout),
            1 <= wide <= 4,
            bytes@.len() == pixels * wide,
            bytes@.len() <= usize::MAX,
            rgba@ == expanded(layout, bytes@, index as nat),
            rgba@.len() == index * 4,
        decreases pixels - index,
    {
        assert(0 <= index * wide && index * wide + wide == (index + 1) * wide && (index + 1) * wide
            <= pixels * wide) by (nonlinear_arith)
            requires
                0 <= index < pixels,
                1 <= wide,
        ;
        let at: usize = index * wide;
        let ghost before = rgba@;
        let ghost pixel = bytes@.subrange(at as int, at + wide);
        let first: u8 = bytes[at];
        rgba.push(first);
        match layout {
            Layout::Rgba => {
                rgba.push(bytes[at + 1]);
                rgba.push(bytes[at + 2]);
                rgba.push(bytes[at + 3]);
            },
            Layout::Rgb => {
                rgba.push(bytes[at + 1]);
                rgba.push(bytes[at + 2]);
                rgba.push(255);
            },
            Layout::GrayscaleAlpha => {
                rgba.push(first);
                rgba.push(first);
                rgba.push(bytes[at + 1]);
            },
            _ => {
                rgba.push(first);
                rgba.push(first);
                rgba.push(255);
            },
        }
        assert(rgba@ == before + expanded_pixel(layout, pixel));
        index = index + 1;
    }
    rgba
}

/// The frame, or the failure, that a decoded image amounts to.
pub open spec fn admits(
    outcome: std::result::Result<(u32, u32, Layout, Seq<u8>), (CodecStep, Seq<char>)>,
    frame: std::result::Result<FrameView, ErrorView>,
) -> bool {
    match outcome {
        Ok((width, height, layout, bytes)) => if layout == Layout::Indexed {
            frame == Err::<FrameView, _>(
                ErrorView::X11 {
                    operation: "decode captured PNG"@,
                    detail: "indexed pixels remained after PNG expansion"@,
                },
            )
        } else {
            frame == Ok::<_, ErrorView>(
                FrameView {
                    width: width as int,
                    height: height as int,
                    rgba: expanded(layout, bytes, (width * height) as nat),
                },
            )
        },
        Err((step, detail)) => frame == Err::<FrameView, _>(
            ErrorView::X11 {
                operation: if step == CodecStep::Header {
                    "decode captured PNG header"@
                } else {
                    "decode captured PNG"@
                },
                detail: if step == CodecStep::Size {
                    "decoded buffer exceeds platform limits"@
                } else {
                    detail
                },
            },
        ),
    }
}

/// The content of an outcome.
pub open spec fn content(frame: Result<Frame>) -> std::result::Result<FrameView, ErrorView> {
    match frame {
        Ok(frame) => Ok(frame@),
        Err(error) => Err(error@),
    }
}

/// Turn a decoded image into a frame.
pub fn admit_raster(raster: std::result::Result<Raster, (CodecStep, String)>) -> (frame: Result<
    Frame,
>)
    requires
        raster matches Ok(raster) ==> raster.bytes@.len() == raster.width * raster.height * samples(
            raster.layout,
        ),
    ensures
        match raster {
            Ok(raster) => admits(
                Ok((raster.width, raster.height, raster.layout, raster.bytes@)),
                content(frame),
            ),
            Err((step, detail)) => admits(Err((step, detail@)), content(frame)),
        },
{
    match raster {
        Ok(raster) => {
            if raster.layout == Layout::Indexed {
                return Err(
                    Error::X11 {
                        operation: "decode captured PNG",
                        detail: "indexed pixels remained after PNG expansion".to_owned(),
                    },
                );
            }
            let ghost pixels = raster.width * raster.height;
            assert(0 <= pixels && pixels <= pixels * samples(raster.layout)) by (nonlinear_arith)
                requires
                    pixels == raster.width * raster.height,
                    1 <= samples(raster.layout),
            ;
            assert(raster.bytes.len() <= usize::MAX);
            let pixels: usize = raster.width as usize * raster.height as usize;
            let rgba = expand_pixels(raster.layout, raster.bytes.as_slice(), pixels);
            Ok(Frame::new(raster.width, raster.height, rgba))
        },
        Err((step, detail)) => {
            let operation = match step {
                CodecStep::Header => "decode captured PNG header",
                _ => "decode captured PNG",
            };
            let detail = match step {
                CodecStep::Size => "decoded buffer exceeds platform limits".to_owned(),
                _ => detail,
            };
            Err(Error::X11 { operation, detail })
        },
    }
}

/// Whether loading a captured PNG file can come to an outcome. `stream` is what
/// reading the file gave.
pub open spec fn loads(
    path: Seq<u8>,
    stream: std::result::Result<Vec<u8>, Source>,
    outcome: std::result::Result<FrameView, ErrorView>,
) -> bool {
    match stream {
        Ok(stream) => admits(decoded(stream@), outcome),
        Err(source) => outcome == Err::<FrameView, _>(
            ErrorView::Io {
                operation: "open captured PNG"@,
                path,
                source: source@,
            },
        ),
    }
}

impl Frame {
    /// Read a frame from a captured PNG file. `stream` is what reading the file
    /// gave.
    pub fn load_png(path: &Vec<u8>, stream: std::result::Result<Vec<u8>, Source>) -> (frame: Result<
        Self,
    >)
        ensures
            loads(path@, stream, content(frame)),
    {
        match stream {
            Ok(stream) => admit_raster(decode(stream.as_slice())),
            Err(source) => Err(io("open captured PNG", path, source)),
        }
    }

    /// The PNG stream to write to `path`. `directory` is what creating the
    /// file's directory gave, and `file` what creating the file gave.
    pub fn save_png(
        &self,
        path: &Vec<u8>,
        directory: std::result::Result<(), (Vec<u8>, Source)>,
        file: std::result::Result<(), Source>,
    ) -> (stream: Result<Vec<u8>>)
        ensures
            match (directory, file) {
                (Err((directory, source)), _) => stream matches Err(error) && error@ == (
                ErrorView::Io {
                    operation: "create artifact directory"@,
                    path: directory@,
                    source: source@,
                }),
                (Ok(_), Err(source)) => stream matches Err(error) && error@ == (ErrorView::Io {
                    operation: "create PNG"@,
                    path: path@,
                    source: source@,
                }),
                (Ok(_), Ok(_)) => match encoded(
                    self@.width as u32,
                    self@.height as u32,
                    self@.rgba,
                ) {
                    Ok(bytes) => stream matches Ok(stream) && stream@ == bytes && self@.width > 0
                        && self@.height > 0,
                    Err((step, detail)) => stream matches Err(error) && error@ == (
                    ErrorView::X11 {
                        operation: if self@.width == 0 || self@.height == 0 {
                            "encode PNG header"@
                        } else {
                            "encode PNG pixels"@
                        },
                        detail,
                    }),
                },
            },
    {
        proof {
            use_type_invariant(self);
        }
        if let Err((directory, source)) = directory {
            return Err(io("create artifact directory", &directory, source));
        }
        if let Err(source) = file {
            return Err(io("create PNG", path, source));
        }
        match encode(self.width, self.height, self.rgba.as_slice()) {
            Ok(stream) => Ok(stream),
            Err((step, detail)) => {
                let operation = match step {
                    CodecStep::Header => "encode PNG header",
                    _ => "encode PNG pixels",
                };
                Err(Error::X11 { operation, detail })
            },
        }
    }
}

// ---------------------------------------------------------------------------
// Laws
// ---------------------------------------------------------------------------

proof fn lemma_still_row(a: FrameView, b: FrameView, y: int, left: int, right: int, slop: u8)
    requires
        forall|x: int| left <= x < right ==> !#[trigger] a.moved(b, x, y, slop),
    ensures
        a.moved_in_row(b, y, left, right, slop) == 0,
    decreases right - left,
{
    if right > left {
        lemma_still_row(a, b, y, left, right - 1, slop);
    }
}

/// A frame never differs from itself.
pub proof fn law_a_frame_matches_itself(frame: FrameView, region: PixelRegion, slop: u8)
    ensures
        frame.moved_pixels(frame, region, slop) == 0,
{
    lemma_still(
        frame,
        region.left_in(frame.width),
        region.right_in(frame.width),
        region.top_in(frame.height),
        region.bottom_in(frame.height),
        slop,
    );
}

proof fn lemma_still(a: FrameView, left: int, right: int, top: int, bottom: int, slop: u8)
    ensures
        a.moved_in(a, left, right, top, bottom, slop) == 0,
    decreases bottom - top,
{
    if bottom > top {
        lemma_still(a, left, right, top, bottom - 1, slop);
        lemma_still_row(a, a, bottom - 1, left, right, slop);
    }
}

/// Whether two frames hold the same pixels inside a region.
pub open spec fn agree_within(left: FrameView, right: FrameView, region: PixelRegion) -> bool {
    forall|x: int, y: int|
        region.covers(left.width, left.height, x, y) ==> #[trigger] left.pixel(x, y)
            == right.pixel(x, y)
}

/// A regional difference never sees a pixel outside its region: frames that
/// agree inside the region differ from a third frame alike.
pub proof fn law_differences_ignore_pixels_outside(
    base: FrameView,
    left: FrameView,
    right: FrameView,
    region: PixelRegion,
    slop: u8,
)
    requires
        base.whole(),
        left.whole(),
        right.whole(),
        base.width == left.width == right.width,
        base.height == left.height == right.height,
        agree_within(left, right, region),
    ensures
        base.moved_pixels(left, region, slop) == base.moved_pixels(right, region, slop),
{
    lemma_alike(
        base,
        left,
        right,
        region,
        region.bottom_in(base.height),
        slop,
    );
}

proof fn lemma_alike(
    base: FrameView,
    left: FrameView,
    right: FrameView,
    region: PixelRegion,
    bottom: int,
    slop: u8,
)
    requires
        base.whole(),
        left.whole(),
        right.whole(),
        base.width == left.width == right.width,
        base.height == left.height == right.height,
        agree_within(left, right, region),
        bottom <= region.bottom_in(base.height),
    ensures
        base.moved_in(
            left,
            region.left_in(base.width),
            region.right_in(base.width),
            region.top_in(base.height),
            bottom,
            slop,
        ) == base.moved_in(
            right,
            region.left_in(base.width),
            region.right_in(base.width),
            region.top_in(base.height),
            bottom,
            slop,
        ),
    decreases bottom - region.top_in(base.height),
{
    if bottom > region.top_in(base.height) {
        lemma_alike(base, left, right, region, bottom - 1, slop);
        lemma_alike_row(
            base,
            left,
            right,
            region,
            bottom - 1,
            region.right_in(base.width),
            slop,
        );
    }
}

proof fn lemma_alike_row(
    base: FrameView,
    left: FrameView,
    right: FrameView,
    region: PixelRegion,
    y: int,
    end: int,
    slop: u8,
)
    requires
        base.whole(),
        left.whole(),
        right.whole(),
        base.width == left.width == right.width,
        base.height == left.height == right.height,
        agree_within(left, right, region),
        region.top_in(base.height) <= y < region.bottom_in(base.height),
        end <= region.right_in(base.width),
    ensures
        base.moved_in_row(left, y, region.left_in(base.width), end, slop) == base.moved_in_row(
            right,
            y,
            region.left_in(base.width),
            end,
            slop,
        ),
    decreases end - region.left_in(base.width),
{
    if end > region.left_in(base.width) {
        lemma_alike_row(base, left, right, region, y, end - 1, slop);
        let x = end - 1;
        assert(region.covers(left.width, left.height, x, y));
        lemma_pixel_bounds(base.width, base.height, x, y);
        assert(left.pixel(x, y) == right.pixel(x, y));
        assert forall|channel: int| 0 <= channel < 3 implies left.rgba[#[trigger] (base.offset(x, y)
            + channel)] == right.rgba[base.offset(x, y) + channel] by {
            assert(left.pixel(x, y)[channel] == left.rgba[base.offset(x, y) + channel]);
            assert(right.pixel(x, y)[channel] == right.rgba[base.offset(x, y) + channel]);
        }
        if base.moved(left, x, y, slop) {
            let channel = choose|channel: int|
                0 <= channel < 3 && #[trigger] strays(
                    base.rgba[base.offset(x, y) + channel],
                    left.rgba[base.offset(x, y) + channel],
                    slop,
                );
            assert(strays(
                base.rgba[base.offset(x, y) + channel],
                right.rgba[base.offset(x, y) + channel],
                slop,
            ));
        }
        if base.moved(right, x, y, slop) {
            let channel = choose|channel: int|
                0 <= channel < 3 && #[trigger] strays(
                    base.rgba[base.offset(x, y) + channel],
                    right.rgba[base.offset(x, y) + channel],
                    slop,
                );
            assert(strays(
                base.rgba[base.offset(x, y) + channel],
                left.rgba[base.offset(x, y) + channel],
                slop,
            ));
        }
    }
}

/// Where a byte of a pixel stands: four bytes for each pixel, row by row.
pub open spec fn byte_at(frame: FrameView, x: int, y: int, channel: int) -> u8 {
    frame.rgba[4 * (y * frame.width + x) + channel]
}

/// Whether two bytes are no further apart than a tolerance.
pub open spec fn close(left: u8, right: u8, slop: u8) -> bool {
    left <= right + slop && right <= left + slop
}

/// Whether a pixel shows the same color in two frames, within a tolerance: its red,
/// its green, and its blue byte, whatever its alpha byte.
pub open spec fn same_color(left: FrameView, right: FrameView, x: int, y: int, slop: u8) -> bool {
    &&& close(byte_at(left, x, y, 0), byte_at(right, x, y, 0), slop)
    &&& close(byte_at(left, x, y, 1), byte_at(right, x, y, 1), slop)
    &&& close(byte_at(left, x, y, 2), byte_at(right, x, y, 2), slop)
}

/// The pixels of a frame that lie between a region's edges.
pub open spec fn covered_pixels(frame: FrameView, region: PixelRegion) -> Set<(int, int)> {
    Set::new(
        |at: (int, int)|
            0 <= at.0 < frame.width && 0 <= at.1 < frame.height && region.left <= at.0
                < region.right && region.top <= at.1 < region.bottom,
    )
}

/// The pixels between a region's edges whose color differs between two frames.
pub open spec fn recolored_pixels(
    left: FrameView,
    right: FrameView,
    region: PixelRegion,
    slop: u8,
) -> Set<(int, int)> {
    covered_pixels(left, region).filter(
        |at: (int, int)| !same_color(left, right, at.0, at.1, slop),
    )
}

proof fn lemma_moved_is_recolored(left: FrameView, right: FrameView, x: int, y: int, slop: u8)
    requires
        left.whole(),
        right.whole(),
        left.width == right.width,
        left.height == right.height,
        0 <= x < left.width,
        0 <= y < left.height,
    ensures
        left.moved(right, x, y, slop) == !same_color(left, right, x, y, slop),
{
    let at = left.offset(x, y);
    assert(at == 4 * (y * left.width + x));
    assert(strays(left.rgba[at + 0], right.rgba[at + 0], slop) == !close(
        left.rgba[at + 0],
        right.rgba[at + 0],
        slop,
    ));
    assert(strays(left.rgba[at + 1], right.rgba[at + 1], slop) == !close(
        left.rgba[at + 1],
        right.rgba[at + 1],
        slop,
    ));
    assert(strays(left.rgba[at + 2], right.rgba[at + 2], slop) == !close(
        left.rgba[at + 2],
        right.rgba[at + 2],
        slop,
    ));
}

/// The pixels of one row, from one column up to another, that a condition chooses.
spec fn row_set(chosen: spec_fn(int, int) -> bool, y: int, left: int, right: int) -> Set<
    (int, int),
> {
    Set::new(|at: (int, int)| at.1 == y && left <= at.0 < right && chosen(at.0, at.1))
}

/// The pixels of some rows, from one column up to another, that a condition chooses.
spec fn block_set(
    chosen: spec_fn(int, int) -> bool,
    left: int,
    right: int,
    top: int,
    bottom: int,
) -> Set<(int, int)> {
    Set::new(
        |at: (int, int)|
            left <= at.0 < right && top <= at.1 < bottom && chosen(at.0, at.1),
    )
}

proof fn lemma_row_count(
    a: FrameView,
    b: FrameView,
    y: int,
    left: int,
    right: int,
    slop: u8,
)
    ensures
        row_set(|x: int, y: int| a.moved(b, x, y, slop), y, left, right).finite(),
        row_set(|x: int, y: int| a.moved(b, x, y, slop), y, left, right).len() == a.moved_in_row(
            b,
            y,
            left,
            right,
            slop,
        ),
    decreases right - left,
{
    let chosen = |x: int, y: int| a.moved(b, x, y, slop);
    let whole = row_set(chosen, y, left, right);
    if right <= left {
        assert(whole =~= Set::empty());
    } else {
        lemma_row_count(a, b, y, left, right - 1, slop);
        let less = row_set(chosen, y, left, right - 1);
        if a.moved(b, right - 1, y, slop) {
            assert(whole =~= less.insert((right - 1, y)));
        } else {
            assert(whole =~= less);
        }
    }
}

proof fn lemma_block_count(
    a: FrameView,
    b: FrameView,
    left: int,
    right: int,
    top: int,
    bottom: int,
    slop: u8,
)
    ensures
        block_set(|x: int, y: int| a.moved(b, x, y, slop), left, right, top, bottom).finite(),
        block_set(|x: int, y: int| a.moved(b, x, y, slop), left, right, top, bottom).len()
            == a.moved_in(b, left, right, top, bottom, slop),
    decreases bottom - top,
{
    let chosen = |x: int, y: int| a.moved(b, x, y, slop);
    let whole = block_set(chosen, left, right, top, bottom);
    if bottom <= top {
        assert(whole =~= Set::empty());
    } else {
        lemma_block_count(a, b, left, right, top, bottom - 1, slop);
        lemma_row_count(a, b, bottom - 1, left, right, slop);
        let less = block_set(chosen, left, right, top, bottom - 1);
        let row = row_set(chosen, bottom - 1, left, right);
        assert(whole =~= less.union(row));
        vstd::set_lib::lemma_set_disjoint_lens(less, row);
    }
}

proof fn lemma_moved_pixels_are_recolored(
    left: FrameView,
    right: FrameView,
    region: PixelRegion,
    slop: u8,
)
    requires
        left.whole(),
        right.whole(),
        left.width == right.width,
        left.height == right.height,
    ensures
        recolored_pixels(left, right, region, slop).finite(),
        recolored_pixels(left, right, region, slop).len() == left.moved_pixels(
            right,
            region,
            slop,
        ),
{
    let chosen = |x: int, y: int| left.moved(right, x, y, slop);
    let (from, to) = (region.left_in(left.width), region.right_in(left.width));
    let (top, bottom) = (region.top_in(left.height), region.bottom_in(left.height));
    lemma_block_count(left, right, from, to, top, bottom, slop);
    let block = block_set(chosen, from, to, top, bottom);
    let found = recolored_pixels(left, right, region, slop);
    assert forall|at: (int, int)| block.contains(at) == found.contains(at) by {
        if 0 <= at.0 < left.width && 0 <= at.1 < left.height {
            lemma_moved_is_recolored(left, right, at.0, at.1, slop);
        }
    }
    assert(block =~= found);
}

/// A regional difference counts exactly the pixels of the region whose red, green, or
/// blue byte differs by more than the tolerance. It counts none only where all three
/// bytes of every pixel of the region agree within the tolerance.
pub proof fn law_differences_count_every_color(
    left: &Frame,
    right: &Frame,
    region: PixelRegion,
    slop: u8,
    found: Difference,
)
    requires
        Frame::difference_region.ensures((left, right, region, slop), Ok(found)),
        left@.whole(),
        right@.whole(),
        left@.width == right@.width,
        left@.height == right@.height,
    ensures
        found.moved == recolored_pixels(left@, right@, region, slop).len(),
        recolored_pixels(left@, right@, region, slop).finite(),
        found.moved == 0 <==> forall|x: int, y: int|
            0 <= x < left@.width && 0 <= y < left@.height && region.left <= x < region.right
                && region.top <= y < region.bottom ==> #[trigger] same_color(
                left@,
                right@,
                x,
                y,
                slop,
            ),
{
    lemma_moved_pixels_are_recolored(left@, right@, region, slop);
    let changed = recolored_pixels(left@, right@, region, slop);
    if found.moved == 0 {
        assert forall|x: int, y: int|
            0 <= x < left@.width && 0 <= y < left@.height && region.left <= x < region.right
                && region.top <= y < region.bottom implies #[trigger] same_color(
            left@,
            right@,
            x,
            y,
            slop,
        ) by {
            assert(changed =~= Set::empty());
            assert(!changed.contains((x, y)));
        }
    } else {
        assert(exists|at: (int, int)| changed.contains(at)) by {
            if forall|at: (int, int)| !changed.contains(at) {
                assert(changed =~= Set::empty());
            }
        }
        let at = choose|at: (int, int)| changed.contains(at);
        assert(!same_color(left@, right@, at.0, at.1, slop));
    }
}

/// Comparing two frames the other way round moves as many pixels, and a larger tolerance
/// never more.
pub proof fn law_differences_are_mutual(
    left: &Frame,
    right: &Frame,
    region: PixelRegion,
    slop: u8,
    found: Difference,
    other: Difference,
    tolerance: u8,
    loose: Difference,
)
    requires
        left@.whole(),
        right@.whole(),
        Frame::difference_region.ensures((left, right, region, slop), Ok(found)),
        Frame::difference_region.ensures((right, left, region, slop), Ok(other)),
        Frame::difference_region.ensures((left, right, region, tolerance), Ok(loose)),
        slop <= tolerance,
    ensures
        found.moved == other.moved,
        found.pixels == other.pixels,
        loose.moved <= found.moved,
        loose.pixels == found.pixels,
{
    if left@.width == right@.width && left@.height == right@.height {
        lemma_moved_pixels_are_recolored(left@, right@, region, slop);
        lemma_moved_pixels_are_recolored(right@, left@, region, slop);
        lemma_moved_pixels_are_recolored(left@, right@, region, tolerance);
        assert(recolored_pixels(left@, right@, region, slop) =~= recolored_pixels(
            right@,
            left@,
            region,
            slop,
        ));
        let (few, many) = (
            recolored_pixels(left@, right@, region, tolerance),
            recolored_pixels(left@, right@, region, slop),
        );
        assert(few.subset_of(many));
        vstd::set_lib::lemma_len_subset(few, many);
    }
}

/// The smaller of two numbers.
pub open spec fn lesser(left: int, right: int) -> int {
    if left < right {
        left
    } else {
        right
    }
}

/// The larger of two numbers.
pub open spec fn greater(left: int, right: int) -> int {
    if left > right {
        left
    } else {
        right
    }
}

/// A regional difference is out of the pixels that the region shares with the frame, and
/// is refused only where they share none. Frames of different extents differ altogether.
pub proof fn law_differences_are_out_of_the_shared_pixels(
    left: &Frame,
    right: &Frame,
    region: PixelRegion,
    slop: u8,
    outcome: Result<Difference>,
)
    requires
        left@.whole(),
        right@.whole(),
        left@.width <= i32::MAX,
        left@.height <= i32::MAX,
        Frame::difference_region.ensures((left, right, region, slop), outcome),
    ensures
        left@.width != right@.width || left@.height != right@.height ==> (outcome matches Ok(found)
            && found.moved == found.pixels && found.pixels > 0),
        left@.width == right@.width && left@.height == right@.height ==> {
            let wide = lesser(region.right as int, left@.width) - greater(region.left as int, 0);
            let high = lesser(region.bottom as int, left@.height) - greater(region.top as int, 0);
            match outcome {
                Ok(found) => wide > 0 && high > 0 && found.pixels == wide * high && found.moved
                    <= found.pixels,
                Err(_) => wide <= 0 || high <= 0,
            }
        },
{
}

/// The whole-frame difference is that of a region which covers the frame.
pub proof fn law_whole_differences_cover_the_frame(
    left: &Frame,
    right: &Frame,
    slop: u8,
    found: Difference,
)
    requires
        left@.whole(),
        right@.whole(),
        left@.width == right@.width,
        left@.height == right@.height,
        Frame::difference.ensures((left, right, slop), Ok(found)),
    ensures
        found.pixels == left@.width * left@.height,
        found.moved == 0 <==> forall|x: int, y: int|
            0 <= x < left@.width && 0 <= y < left@.height ==> #[trigger] same_color(
                left@,
                right@,
                x,
                y,
                slop,
            ),
{
    let region = PixelRegion {
        left: 0,
        top: 0,
        right: left@.width as i32,
        bottom: left@.height as i32,
    };
    lemma_moved_pixels_are_recolored(left@, right@, region, slop);
    let changed = recolored_pixels(left@, right@, region, slop);
    if found.moved == 0 {
        assert forall|x: int, y: int|
            0 <= x < left@.width && 0 <= y < left@.height implies #[trigger] same_color(
            left@,
            right@,
            x,
            y,
            slop,
        ) by {
            assert(changed =~= Set::empty());
            assert(!changed.contains((x, y)));
        }
    } else {
        assert(exists|at: (int, int)| changed.contains(at)) by {
            if forall|at: (int, int)| !changed.contains(at) {
                assert(changed =~= Set::empty());
            }
        }
        let at = choose|at: (int, int)| changed.contains(at);
        assert(!same_color(left@, right@, at.0, at.1, slop));
    }
}

/// A crop is the part of a frame that a region covers: every byte of it is the byte of the
/// frame at the same place of the region.
pub proof fn law_crops_keep_their_bytes(
    frame: &Frame,
    region: PixelRegion,
    crop: Frame,
    x: int,
    y: int,
    channel: int,
)
    requires
        frame@.whole(),
        Frame::crop.ensures((frame, region), Ok(crop)),
        0 <= x < crop@.width,
        0 <= y < crop@.height,
        0 <= channel < 4,
    ensures
        crop@.width == lesser(region.right as int, frame@.width) - greater(region.left as int, 0),
        crop@.height == lesser(region.bottom as int, frame@.height) - greater(region.top as int, 0),
        byte_at(crop@, x, y, channel) == byte_at(
            frame@,
            greater(region.left as int, 0) + x,
            greater(region.top as int, 0) + y,
            channel,
        ),
{
    let (left, top) = (region.left_in(frame@.width), region.top_in(frame@.height));
    assert(crop@.pixel(x, y) == frame@.pixel(left + x, top + y));
    lemma_pixel_bounds(crop@.width, crop@.height, x, y);
    lemma_pixel_bounds(frame@.width, frame@.height, left + x, top + y);
    assert(crop@.pixel(x, y)[channel] == crop@.rgba[crop@.offset(x, y) + channel]);
    assert(frame@.pixel(left + x, top + y)[channel] == frame@.rgba[frame@.offset(
        left + x,
        top + y,
    ) + channel]);
}

/// The bytes of one pixel of an image, spread to red, green, blue, and alpha.
pub open spec fn spread(layout: Layout, bytes: Seq<u8>, index: int) -> (u8, u8, u8, u8) {
    match layout {
        Layout::Rgba => (
            bytes[4 * index],
            bytes[4 * index + 1],
            bytes[4 * index + 2],
            bytes[4 * index + 3],
        ),
        Layout::Rgb => (bytes[3 * index], bytes[3 * index + 1], bytes[3 * index + 2], 255),
        Layout::GrayscaleAlpha => (
            bytes[2 * index],
            bytes[2 * index],
            bytes[2 * index],
            bytes[2 * index + 1],
        ),
        _ => (bytes[index], bytes[index], bytes[index], 255),
    }
}

proof fn lemma_expanded_at(layout: Layout, bytes: Seq<u8>, pixels: nat, index: int)
    requires
        0 <= index < pixels,
        bytes.len() >= pixels * samples(layout),
    ensures
        expanded(layout, bytes, pixels).len() == 4 * pixels,
        ({
            let rgba = expanded(layout, bytes, pixels);
            (rgba[4 * index], rgba[4 * index + 1], rgba[4 * index + 2], rgba[4 * index + 3])
                == spread(layout, bytes, index)
        }),
    decreases pixels,
{
    let wide = samples(layout);
    assert((pixels - 1) * wide + wide == pixels * wide && (pixels - 1) * wide >= 0)
        by (nonlinear_arith)
        requires
            pixels >= 1,
            wide >= 1,
    ;
    let less = expanded(layout, bytes, (pixels - 1) as nat);
    let rgba = expanded(layout, bytes, pixels);
    let last = bytes.subrange((pixels - 1) * wide, pixels * wide);
    if index < pixels - 1 {
        lemma_expanded_at(layout, bytes, (pixels - 1) as nat, index);
        assert(rgba[4 * index] == less[4 * index]);
        assert(rgba[4 * index + 1] == less[4 * index + 1]);
        assert(rgba[4 * index + 2] == less[4 * index + 2]);
        assert(rgba[4 * index + 3] == less[4 * index + 3]);
    } else {
        if pixels > 1 {
            lemma_expanded_at(layout, bytes, (pixels - 1) as nat, 0);
        }
        assert(less.len() == 4 * (pixels - 1));
        assert(last[0] == bytes[(pixels - 1) * wide]);
        assert(index * 4 == 4 * index && index * 3 == 3 * index && index * 2 == 2 * index);
        assert(wide == 1 ==> index * wide == index);
    }
}

/// Every pixel of a decoded image keeps its place and its color; gray is as much red as
/// green and blue, and what has no alpha is opaque.
pub proof fn law_decoded_pixels_keep_their_color(
    layout: Layout,
    bytes: &[u8],
    pixels: usize,
    rgba: Vec<u8>,
    index: int,
)
    requires
        bytes@.len() == pixels * samples(layout),
        expand_pixels.ensures((layout, bytes, pixels), rgba),
        0 <= index < pixels,
    ensures
        rgba@.len() == 4 * pixels,
        (rgba@[4 * index], rgba@[4 * index + 1], rgba@[4 * index + 2], rgba@[4 * index + 3])
            == spread(layout, bytes@, index),
{
    lemma_expanded_at(layout, bytes@, pixels as nat, index);
}

/// The region of an anchor holds its rectangle, and no more whole pixels than that takes:
/// its left and top edges are the last ones that do not cut into the rectangle, and its
/// right and bottom edges the first ones.
pub proof fn law_anchor_regions_hold_their_rectangle(
    anchor: &Anchor,
    region: PixelRegion,
    down: i32,
    up: i32,
)
    requires
        PixelRegion::anchor.ensures((anchor,), region),
    ensures
        ieee::floor.ensures((anchor.rect@[0],), down) ==> region.left == down,
        ieee::floor.ensures((anchor.rect@[1],), down) ==> region.top == down,
        ieee::ceil.ensures((anchor.rect@[2],), up) ==> region.right == up,
        ieee::ceil.ensures((anchor.rect@[3],), up) ==> region.bottom == up,
{
}

fn signed_extent(extent: u32) -> (signed: i32)
    ensures
        extent <= i32::MAX ==> signed == extent,
{
    if extent <= 0x7fff_ffff {
        extent as i32
    } else {
        -1
    }
}

} // verus!
