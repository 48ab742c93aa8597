//! Window pixels as the X server sends them.
use crate::bytes;
use crate::error::{Error, ErrorView, Result};
use crate::pixels::{Frame, FrameView};
use crate::text;
use crate::text::{glue2, hexadecimal_text};
use std::borrow::Cow;
use vstd::prelude::*;
use vstd::std_specs::bits::*;

verus! {

/// Order in which the bytes of a pixel are stored.
#[derive(Clone, Copy, Debug, PartialEq, Eq, Structural)]
pub enum ImageOrder {
    LsbFirst,
    MsbFirst,
}

/// An image in the X server's own format.
#[derive(Debug)]
pub struct ServerImage {
    pub width: u16,
    pub height: u16,
    /// Bits that every row is padded to.
    pub scanline_pad: u8,
    pub depth: u8,
    pub bits_per_pixel: u8,
    pub byte_order: ImageOrder,
    pub data: Vec<u8>,
}

/// Bytes of one padded row.
pub open spec fn stride(width: int, bits_per_pixel: int, scanline_pad: int) -> int {
    (width * bits_per_pixel + scanline_pad - 1) / scanline_pad * scanline_pad / 8
}

impl ServerImage {
    /// A format that the protocol knows, and a byte for every pixel.
    pub open spec fn valid(&self) -> bool {
        &&& self.scanline_pad == 8 || self.scanline_pad == 16 || self.scanline_pad == 32
        &&& self.bits_per_pixel == 1 || self.bits_per_pixel == 4 || self.bits_per_pixel == 8
            || self.bits_per_pixel == 16 || self.bits_per_pixel == 24 || self.bits_per_pixel == 32
        &&& self.height * stride(
            self.width as int,
            self.bits_per_pixel as int,
            self.scanline_pad as int,
        ) <= self.data@.len()
    }

    /// Where a row begins.
    pub open spec fn row(&self, y: int) -> int {
        y * stride(self.width as int, self.bits_per_pixel as int, self.scanline_pad as int)
    }

    /// The bytes of a pixel that has whole bytes, least significant first.
    pub open spec fn group(&self, x: int, y: int) -> Seq<u8> {
        let width = self.bits_per_pixel as int / 8;
        let at = self.row(y) + x * width;
        let bytes = self.data@.subrange(at, at + width);
        match self.byte_order {
            ImageOrder::LsbFirst => bytes,
            ImageOrder::MsbFirst => bytes.reverse(),
        }
    }

    /// The bit of a pixel that shares its byte with seven others.
    pub open spec fn bit(&self, x: int, y: int) -> u32 {
        let byte = self.data@[self.row(y) + x / 8] as u32;
        match self.byte_order {
            ImageOrder::LsbFirst => (byte >> (x % 8)) & 1,
            ImageOrder::MsbFirst => (byte >> (7 - x % 8)) & 1,
        }
    }

    /// The half byte of a pixel that shares its byte with another.
    pub open spec fn nibble(&self, x: int, y: int) -> u32 {
        let byte = self.data@[self.row(y) + x / 2] as u32;
        if (x % 2 == 1) == (self.byte_order == ImageOrder::MsbFirst) {
            byte >> 4u32
        } else {
            byte & 0x0f
        }
    }

    /// The value of a pixel.
    pub open spec fn pixel(&self, x: u16, y: u16) -> u32 {
        if self.bits_per_pixel == 1 {
            self.bit(x as int, y as int)
        } else if self.bits_per_pixel == 4 {
            self.nibble(x as int, y as int)
        } else {
            bytes::value_of(self.group(x as int, y as int)) as u32
        }
    }
}

/// `x11rb::image::Image::new` and `Image::get_pixel`: the value of the pixel is its
/// whole bytes in the image's order, or its bits of a byte that it shares.
#[verifier::external_body]
fn get_pixel(image: &ServerImage, x: u16, y: u16) -> (value: u32)
    requires
        image.valid(),
        x < image.width,
        y < image.height,
    ensures
        value == image.pixel(x, y),
{
    let order = match image.byte_order {
        ImageOrder::LsbFirst => x11rb::image::ImageOrder::LsbFirst,
        ImageOrder::MsbFirst => x11rb::image::ImageOrder::MsbFirst,
    };
    let pad = image.scanline_pad.try_into().unwrap();
    let bits = image.bits_per_pixel.try_into().unwrap();
    let data = Cow::Borrowed(image.data.as_slice());
    x11rb::image::Image::new(image.width, image.height, pad, image.depth, bits, order, data).unwrap().get_pixel(x, y)
}

/// The largest value that a channel mask selects.
pub open spec fn span(mask: u32) -> u32 {
    mask >> u32_trailing_zeros(mask)
}

/// The value that a channel mask selects of a pixel.
pub open spec fn selected(pixel: u32, mask: u32) -> u32 {
    (pixel & mask) >> u32_trailing_zeros(mask)
}

/// Whether a channel can be scaled to eight bits in thirty-two-bit arithmetic.
pub open spec fn scalable(mask: u32) -> bool {
    span(mask) * 255 + span(mask) / 2 <= u32::MAX
}

/// One channel of a pixel, scaled to eight bits and rounded to the nearest. An
/// absent channel is dark.
pub open spec fn channel_of(pixel: u32, mask: u32) -> int {
    if mask == 0 {
        0
    } else {
        (selected(pixel, mask) * 255 + span(mask) as int / 2) / span(mask) as int
    }
}

proof fn lemma_selected(pixel: u32, mask: u32)
    requires
        mask != 0,
    ensures
        u32_trailing_zeros(mask) < 32,
        0 < span(mask),
        selected(pixel, mask) <= span(mask),
{
    axiom_u32_trailing_zeros(mask);
    let shift = u32_trailing_zeros(mask);
    assert((pixel & mask) >> shift <= mask >> shift) by (bit_vector)
        requires
            shift < 32,
    ;
    assert(mask >> shift > 0) by (bit_vector)
        requires
            shift < 32,
            (mask >> shift) & 1u32 == 1u32,
    ;
}

proof fn lemma_channel_bounded(pixel: u32, mask: u32)
    requires
        mask != 0,
    ensures
        0 <= channel_of(pixel, mask) <= 255,
{
    lemma_selected(pixel, mask);
    let value = selected(pixel, mask) as int;
    let most = span(mask) as int;
    assert(0 <= (value * 255 + most / 2) / most <= 255) by (nonlinear_arith)
        requires
            0 <= value <= most,
            0 < most,
    ;
}

/// Scale one channel of a pixel to eight bits.
pub fn channel(pixel: u32, mask: u32) -> (value: u8)
    requires
        scalable(mask),
    ensures
        value == channel_of(pixel, mask),
{
    if mask == 0 {
        return 0;
    }
    proof {
        lemma_selected(pixel, mask);
        lemma_channel_bounded(pixel, mask);
    }
    let shift: u32 = mask.trailing_zeros();
    let value: u32 = (pixel & mask) >> shift;
    let maximum: u32 = mask >> shift;
    ((value * 255 + maximum / 2) / maximum) as u8
}

/// The RGBA bytes of one pixel.
pub open spec fn colors(pixel: u32, red: u32, green: u32, blue: u32) -> Seq<u8> {
    seq![
        channel_of(pixel, red) as u8,
        channel_of(pixel, green) as u8,
        channel_of(pixel, blue) as u8,
        255u8,
    ]
}

/// The RGBA bytes of the first pixels of an image, row by row.
pub open spec fn decoded(image: &ServerImage, red: u32, green: u32, blue: u32, count: nat) -> Seq<u8>
    decreases count,
{
    if count == 0 {
        seq![]
    } else {
        let last = (count - 1) as int;
        decoded(image, red, green, blue, (count - 1) as nat) + colors(
            image.pixel(
                (last % image.width as int) as u16,
                (last / image.width as int) as u16,
            ),
            red,
            green,
            blue,
        )
    }
}

proof fn lemma_plain_masks()
    ensures
        u32_trailing_zeros(0x00ff_0000) == 16,
        u32_trailing_zeros(0x0000_ff00) == 8,
        u32_trailing_zeros(0x0000_00ff) == 0,
{
    lemma_zeros(0x00ff_0000, 16);
    lemma_zeros(0x0000_ff00, 8);
    lemma_zeros(0x0000_00ff, 0);
}

proof fn lemma_zeros(mask: u32, count: u32)
    requires
        mask == 0x00ff_0000u32 && count == 16 || mask == 0x0000_ff00u32 && count == 8 || mask
            == 0x0000_00ffu32 && count == 0,
    ensures
        u32_trailing_zeros(mask) == count,
{
    axiom_u32_trailing_zeros(mask);
    let zeros = u32_trailing_zeros(mask);
    assert(zeros < 32);
    assert((mask >> zeros) & 1u32 == 1u32);
    assert(zeros >= count) by (bit_vector)
        requires
            zeros < 32,
            (mask >> zeros) & 1u32 == 1u32,
            mask == 0x00ff_0000u32 && count == 16 || mask == 0x0000_ff00u32 && count == 8 || mask
                == 0x0000_00ffu32 && count == 0,
    ;
    if zeros > count {
        assert((mask >> count) & 1u32 == 0u32);
        assert((mask >> count) & 1u32 == 1u32) by (bit_vector)
            requires
                mask == 0x00ff_0000u32 && count == 16 || mask == 0x0000_ff00u32 && count == 8
                    || mask == 0x0000_00ffu32 && count == 0,
        ;
    }
}

proof fn lemma_quad_value(quad: Seq<u8>)
    requires
        quad.len() == 4,
    ensures
        bytes::value_of(quad) == quad[0] + 256 * quad[1] + 65536 * quad[2] + 16777216 * quad[3],
{
    reveal_with_fuel(bytes::value_of, 5);
}

/// Under the common masks, a channel is a byte of the pixel.
proof fn lemma_plain_colors(pixel: u32, low: u8, middle: u8, high: u8, top: u8)
    requires
        pixel == low + 256 * middle + 65536 * high + 16777216 * top,
    ensures
        colors(pixel, 0x00ff_0000, 0x0000_ff00, 0x0000_00ff) == seq![high, middle, low, 255u8],
        scalable(0x00ff_0000),
        scalable(0x0000_ff00),
        scalable(0x0000_00ff),
{
    lemma_plain_masks();
    assert((pixel & 0x00ff_0000u32) >> 16u32 == high && (pixel & 0x0000_ff00u32) >> 8u32 == middle
        && (pixel & 0x0000_00ffu32) >> 0u32 == low) by (bit_vector)
        requires
            pixel == low + 256 * middle + 65536 * high + 16777216 * top,
    ;
    assert(0x00ff_0000u32 >> 16u32 == 255u32 && 0x0000_ff00u32 >> 8u32 == 255u32 && 0x0000_00ffu32
        >> 0u32 == 255u32) by (bit_vector);
    lemma_rounding(high as int);
    lemma_rounding(middle as int);
    lemma_rounding(low as int);
}

proof fn lemma_rounding(value: int)
    requires
        0 <= value <= 255,
    ensures
        (value * 255 + 255int / 2) / 255 == value,
{
}

proof fn lemma_place(width: int, height: int, index: int)
    requires
        0 <= index < width * height,
        0 < width,
        0 <= height,
    ensures
        0 <= index % width < width,
        0 <= index / width < height,
        (index / width) * width + index % width == index,
{
    vstd::arithmetic::div_mod::lemma_fundamental_div_mod(index, width);
    assert((index / width) * width == width * (index / width)) by (nonlinear_arith);
    assert(index / width < height) by (nonlinear_arith)
        requires
            index < width * height,
            width * (index / width) <= index,
            0 < width,
    ;
    assert(0 <= index / width) by (nonlinear_arith)
        requires
            0 <= index,
            0 < width,
    ;
}

proof fn lemma_plain_stride(width: int, pad: int)
    requires
        pad == 8 || pad == 16 || pad == 32,
        0 <= width,
    ensures
        stride(width, 32, pad) == width * 4,
{
    if pad == 8 {
        assert((width * 32 + 7) / 8 == width * 4);
    } else if pad == 16 {
        assert((width * 32 + 15) / 16 == width * 2);
    } else {
        assert((width * 32 + 31) / 32 == width);
    }
}

/// Decode a window image to RGBA. Every channel is scaled to eight bits under
/// its mask, and every pixel is opaque.
///
/// The common format, four bytes per pixel with a byte per channel, is decoded
/// from the bytes directly.
pub fn decode(image: &ServerImage, red_mask: u32, green_mask: u32, blue_mask: u32) -> (rgba: Vec<u8>)
    requires
        image.valid(),
        scalable(red_mask),
        scalable(green_mask),
        scalable(blue_mask),
    ensures
        rgba@ == decoded(
            image,
            red_mask,
            green_mask,
            blue_mask,
            (image.width * image.height) as nat,
        ),
        rgba@.len() == image.width * image.height * 4,
{
    let ghost area = image.width * image.height;
    assert(0 <= area <= 0xffff_0000) by (nonlinear_arith)
        requires
            area == image.width * image.height,
            0 <= image.width <= 0xffff,
            0 <= image.height <= 0xffff,
    ;
    let pixels: u32 = image.width as u32 * image.height as u32;
    let plain = image.bits_per_pixel == 32 && red_mask == 0x00ff_0000 && green_mask == 0x0000_ff00
        && blue_mask == 0x0000_00ff;
    let mut rgba: Vec<u8> = Vec::new();
    let mut index: u32 = 0;
    while index < pixels
        invariant
            index <= pixels,
            pixels == image.width * image.height,
            image.valid(),
            scalable(red_mask),
            scalable(green_mask),
            scalable(blue_mask),
            plain == (image.bits_per_pixel == 32 && red_mask == 0x00ff_0000 && green_mask
                == 0x0000_ff00 && blue_mask == 0x0000_00ff),
            rgba@ == decoded(image, red_mask, green_mask, blue_mask, index as nat),
            rgba@.len() == index * 4,
        decreases pixels - index,
    {
        assert(image.width > 0) by (nonlinear_arith)
            requires
                0 < image.width * image.height,
                0 <= image.width,
        ;
        let ghost before = rgba@;
        proof {
            lemma_place(image.width as int, image.height as int, index as int);
        }
        let x: u16 = (index % image.width as u32) as u16;
        let y: u16 = (index / image.width as u32) as u16;
        if plain {
            proof {
                lemma_plain_stride(image.width as int, image.scanline_pad as int);
                assert(image.height * (image.width * 4) == image.width * image.height * 4)
                    by (nonlinear_arith);
                assert(image.data.len() <= usize::MAX);
            }
            let at: usize = index as usize * 4;
            let a: u8 = image.data[at];
            let b: u8 = image.data[at + 1];
            let c: u8 = image.data[at + 2];
            let d: u8 = image.data[at + 3];
            match image.byte_order {
                ImageOrder::LsbFirst => {
                    rgba.push(c);
                    rgba.push(b);
                    rgba.push(a);
                },
                ImageOrder::MsbFirst => {
                    rgba.push(b);
                    rgba.push(c);
                    rgba.push(d);
                },
            }
            rgba.push(255);
            proof {
                assert(y * (image.width * 4) + x * 4 == index * 4) by (nonlinear_arith)
                    requires
                        y * image.width + x == index,
                ;
                let quad = image.group(x as int, y as int);
                lemma_quad_value(quad);
                lemma_plain_colors(image.pixel(x, y), quad[0], quad[1], quad[2], quad[3]);
                assert(rgba@ == before + colors(image.pixel(x, y), red_mask, green_mask, blue_mask));
            }
        } else {
            let pixel: u32 = get_pixel(image, x, y);
            rgba.push(channel(pixel, red_mask));
            rgba.push(channel(pixel, green_mask));
            rgba.push(channel(pixel, blue_mask));
            rgba.push(255);
            assert(rgba@ == before + colors(pixel, red_mask, green_mask, blue_mask));
        }
        index = index + 1;
    }
    rgba
}

/// How the server composes the pixels of a visual.
#[derive(Clone, Copy, Debug, PartialEq, Eq, Structural)]
pub struct Visual {
    pub id: u32,
    pub red_mask: u32,
    pub green_mask: u32,
    pub blue_mask: u32,
}

impl Visual {
    /// Whether every channel can be scaled.
    pub open spec fn usable(self) -> bool {
        scalable(self.red_mask) && scalable(self.green_mask) && scalable(self.blue_mask)
    }
}

/// Refuse to capture a window without pixels.
pub fn demand_area(width: u16, height: u16) -> (verdict: Result<()>)
    ensures
        match verdict {
            Ok(_) => width > 0 && height > 0,
            Err(error) => (width == 0 || height == 0) && error@ == (ErrorView::X11 {
                operation: "capture window"@,
                detail: "window has zero area"@,
            }),
        },
{
    if width == 0 || height == 0 {
        return Err(
            Error::X11 { operation: "capture window", detail: "window has zero area".to_owned() },
        );
    }
    Ok(())
}

/// The place of the first visual of an identifier, or the number of visuals.
pub open spec fn visual_place(visuals: Seq<Visual>, id: u32) -> int
    decreases visuals.len(),
{
    if visuals.len() == 0 || visuals[0].id == id {
        0
    } else {
        1 + visual_place(visuals.skip(1), id)
    }
}

proof fn lemma_visual_place(visuals: Seq<Visual>, id: u32, index: int)
    requires
        0 <= index <= visuals.len(),
        forall|i: int| 0 <= i < index ==> (#[trigger] visuals[i]).id != id,
        index < visuals.len() ==> visuals[index].id == id,
    ensures
        visual_place(visuals, id) == index,
    decreases visuals.len(),
{
    if index > 0 {
        assert forall|i: int| 0 <= i < index - 1 implies (#[trigger] visuals.skip(1)[i]).id != id by {
            assert(visuals[i + 1].id != id);
        }
        lemma_visual_place(visuals.skip(1), id, index - 1);
    }
}

/// Read a captured window as a frame. Its visual is looked up among those that
/// the server announced.
pub fn read_capture(image: &ServerImage, visual_id: u32, visuals: &Vec<Visual>) -> (frame: Result<
    Frame,
>)
    requires
        image.valid(),
        forall|i: int|
            0 <= i < visuals@.len() && visuals@[i].id == visual_id ==> (
            #[trigger] visuals@[i]).usable(),
    ensures
        match frame {
            Ok(frame) => visual_place(visuals@, visual_id) < visuals@.len() && frame@ == ({
                let visual = visuals@[visual_place(visuals@, visual_id)];
                FrameView {
                    width: image.width as int,
                    height: image.height as int,
                    rgba: decoded(
                        image,
                        visual.red_mask,
                        visual.green_mask,
                        visual.blue_mask,
                        (image.width * image.height) as nat,
                    ),
                }
            }),
            Err(error) => visual_place(visuals@, visual_id) == visuals@.len() && error@ == (
            ErrorView::X11 {
                operation: "decode window pixels"@,
                detail: "server omitted visual "@ + ("0x"@ + text::hexadecimal(visual_id as nat)),
            }),
        },
{
    let mut index: usize = 0;
    while index < visuals.len()
        invariant
            index <= visuals.len(),
            image.valid(),
            forall|i: int|
                0 <= i < visuals@.len() && visuals@[i].id == visual_id ==> (
                #[trigger] visuals@[i]).usable(),
            forall|i: int| 0 <= i < index ==> (#[trigger] visuals@[i]).id != visual_id,
        decreases visuals.len() - index,
    {
        if visuals[index].id == visual_id {
            proof {
                lemma_visual_place(visuals@, visual_id, index as int);
            }
            let visual = visuals[index];
            let rgba = decode(image, visual.red_mask, visual.green_mask, visual.blue_mask);
            return Ok(Frame::new(image.width as u32, image.height as u32, rgba));
        }
        index = index + 1;
    }
    proof {
        lemma_visual_place(visuals@, visual_id, index as int);
    }
    Err(
        Error::X11 {
            operation: "decode window pixels",
            detail: glue2(
                "server omitted visual ",
                glue2("0x", hexadecimal_text(visual_id).as_str()).as_str(),
            ),
        },
    )
}

/// Exact server-side bitmap currently projected by the private X11 pointer.
#[derive(Debug, Eq, PartialEq)]
pub struct X11CursorImage {
    /// Width of the server cursor bitmap in pixels.
    pub width: u16,
    /// Height of the server cursor bitmap in pixels.
    pub height: u16,
    /// Horizontal hotspot coordinate in bitmap pixels.
    pub hotspot_x: u16,
    /// Vertical hotspot coordinate in bitmap pixels.
    pub hotspot_y: u16,
    /// Row-major, unpremultiplied ARGB32 pixels.
    pub argb: Vec<u32>,
}

// ---------------------------------------------------------------------------
// Laws
// ---------------------------------------------------------------------------

/// A channel is scaled to eight bits and rounded to the nearest: nothing of it is dark,
/// all of it is full, and an absent channel is dark.
pub proof fn law_channels_scale_to_the_nearest(pixel: u32, mask: u32, value: u8)
    requires
        scalable(mask),
        channel.ensures((pixel, mask), value),
    ensures
        mask == 0 ==> value == 0,
        pixel & mask == 0 ==> value == 0,
        mask != 0 && pixel & mask == mask ==> value == 255,
        mask != 0 ==> ({
            let most = mask >> u32_trailing_zeros(mask);
            let part = (pixel & mask) >> u32_trailing_zeros(mask);
            &&& 2 * (value * most) <= 2 * (255 * part) + most
            &&& 2 * (255 * part) < 2 * (value * most) + most
        }),
{
    if mask != 0 {
        lemma_selected(pixel, mask);
        let zeros = u32_trailing_zeros(mask);
        assert(0u32 >> zeros == 0) by (bit_vector)
            requires
                zeros < 32,
        ;
        let (most, part) = (span(mask) as int, selected(pixel, mask) as int);
        let whole = part * 255 + most / 2;
        vstd::arithmetic::div_mod::lemma_fundamental_div_mod(whole, most);
        vstd::arithmetic::div_mod::lemma_mod_bound(whole, most);
        let scaled = whole / most;
        lemma_channel_bounded(pixel, mask);
        assert(scaled == value);
        assert(most * scaled == scaled * most) by (nonlinear_arith);
        assert(value * most == scaled * most);
        if part == 0 {
            assert(scaled == 0) by (nonlinear_arith)
                requires
                    most * scaled <= most / 2,
                    most > 0,
                    scaled >= 0,
            ;
        }
        if part == most {
            assert(scaled >= 255) by (nonlinear_arith)
                requires
                    most * 255 + most / 2 < most * scaled + most,
                    most > 0,
            ;
        }
    }
}

proof fn lemma_decoded_at(
    image: &ServerImage,
    red: u32,
    green: u32,
    blue: u32,
    count: nat,
    index: int,
)
    requires
        0 <= index < count,
    ensures
        decoded(image, red, green, blue, count).len() == 4 * count,
        ({
            let rgba = decoded(image, red, green, blue, count);
            let pixel = image.pixel(
                (index % image.width as int) as u16,
                (index / image.width as int) as u16,
            );
            &&& rgba[4 * index] == channel_of(pixel, red) as u8
            &&& rgba[4 * index + 1] == channel_of(pixel, green) as u8
            &&& rgba[4 * index + 2] == channel_of(pixel, blue) as u8
            &&& rgba[4 * index + 3] == 255
        }),
    decreases count,
{
    let less = decoded(image, red, green, blue, (count - 1) as nat);
    if index < count - 1 {
        lemma_decoded_at(image, red, green, blue, (count - 1) as nat, index);
        let rgba = decoded(image, red, green, blue, count);
        assert(rgba[4 * index] == less[4 * index]);
        assert(rgba[4 * index + 1] == less[4 * index + 1]);
        assert(rgba[4 * index + 2] == less[4 * index + 2]);
        assert(rgba[4 * index + 3] == less[4 * index + 3]);
    } else {
        if count > 1 {
            lemma_decoded_at(image, red, green, blue, (count - 1) as nat, 0);
        }
        assert(less.len() == 4 * (count - 1));
    }
}

proof fn lemma_index_of(width: int, height: int, x: int, y: int)
    requires
        0 <= x < width,
        0 <= y < height,
    ensures
        0 <= y * width + x < width * height,
        (y * width + x) % width == x,
        (y * width + x) / width == y,
{
    assert(0 <= y * width && y * width + width <= width * height) by (nonlinear_arith)
        requires
            0 <= y < height,
            0 < width,
    ;
    vstd::arithmetic::div_mod::lemma_fundamental_div_mod_converse(y * width + x, width, y, x);
}

/// Every pixel of a captured window keeps its place: the bytes of the pixel at a place
/// are its red, its green, and its blue channel in that order, and it is opaque.
pub proof fn law_captures_keep_pixels_in_place(
    image: &ServerImage,
    red: u32,
    green: u32,
    blue: u32,
    rgba: Vec<u8>,
    x: u16,
    y: u16,
    shown: [u8; 3],
)
    requires
        image.valid(),
        scalable(red),
        scalable(green),
        scalable(blue),
        decode.ensures((image, red, green, blue), rgba),
        x < image.width,
        y < image.height,
        channel.ensures((image.pixel(x, y), red), shown@[0]),
        channel.ensures((image.pixel(x, y), green), shown@[1]),
        channel.ensures((image.pixel(x, y), blue), shown@[2]),
    ensures
        rgba@.len() == 4 * image.width * image.height,
        rgba@[4 * (y * image.width + x)] == shown@[0],
        rgba@[4 * (y * image.width + x) + 1] == shown@[1],
        rgba@[4 * (y * image.width + x) + 2] == shown@[2],
        rgba@[4 * (y * image.width + x) + 3] == 255,
{
    lemma_index_of(image.width as int, image.height as int, x as int, y as int);
    lemma_decoded_at(
        image,
        red,
        green,
        blue,
        (image.width * image.height) as nat,
        y * image.width + x,
    );
    assert(image.width * image.height * 4 == 4 * image.width * image.height) by (nonlinear_arith);
}

/// In the common format, four bytes for each pixel with the least significant first, a
/// window's blue, green, and red bytes become a frame's red, green, and blue bytes.
pub proof fn law_common_captures_swap_their_bytes(image: &ServerImage, rgba: Vec<u8>, x: u16, y: u16)
    requires
        image.valid(),
        image.bits_per_pixel == 32,
        decode.ensures((image, 0x00ff_0000u32, 0x0000_ff00u32, 0x0000_00ffu32), rgba),
        x < image.width,
        y < image.height,
    ensures
        ({
            let at = 4 * (y * image.width + x);
            &&& image.byte_order is LsbFirst ==> rgba@[at] == image.data@[at + 2] && rgba@[at + 1]
                == image.data@[at + 1] && rgba@[at + 2] == image.data@[at]
            &&& image.byte_order is MsbFirst ==> rgba@[at] == image.data@[at + 1] && rgba@[at + 1]
                == image.data@[at + 2] && rgba@[at + 2] == image.data@[at + 3]
        }),
{
    let (width, height) = (image.width as int, image.height as int);
    lemma_index_of(width, height, x as int, y as int);
    lemma_decoded_at(
        image,
        0x00ff_0000,
        0x0000_ff00,
        0x0000_00ff,
        (width * height) as nat,
        y * width + x,
    );
    lemma_plain_stride(width, image.scanline_pad as int);
    assert(height * (width * 4) == width * height * 4) by (nonlinear_arith);
    assert(y * (width * 4) + x * 4 == 4 * (y * width + x)) by (nonlinear_arith);
    let quad = image.group(x as int, y as int);
    lemma_quad_value(quad);
    let pixel = image.pixel(x, y);
    lemma_plain_colors(pixel, quad[0], quad[1], quad[2], quad[3]);
    let shown = colors(pixel, 0x00ff_0000, 0x0000_ff00, 0x0000_00ff);
    assert(shown[0] == quad[2] && shown[1] == quad[1] && shown[2] == quad[0]);
}

/// A capture is read by the visual that the server names, and refused where the server
/// did not announce it; the frame has the extents of the window.
pub proof fn law_captures_are_read_by_their_visual(
    image: &ServerImage,
    visual_id: u32,
    visuals: &Vec<Visual>,
    outcome: Result<Frame>,
)
    requires
        image.valid(),
        read_capture.ensures((image, visual_id, visuals), outcome),
    ensures
        outcome is Ok <==> exists|i: int|
            0 <= i < visuals@.len() && (#[trigger] visuals@[i]).id == visual_id,
        outcome matches Ok(frame) ==> frame@.width == image.width && frame@.height == image.height
            && exists|i: int|
            0 <= i < visuals@.len() && (#[trigger] visuals@[i]).id == visual_id && frame@.rgba
                == decoded(
                image,
                visuals@[i].red_mask,
                visuals@[i].green_mask,
                visuals@[i].blue_mask,
                (image.width * image.height) as nat,
            ),
{
    lemma_visual_found(visuals@, visual_id);
}

proof fn lemma_visual_found(visuals: Seq<Visual>, id: u32)
    ensures
        0 <= visual_place(visuals, id) <= visuals.len(),
        visual_place(visuals, id) < visuals.len() ==> visuals[visual_place(visuals, id)].id == id,
        visual_place(visuals, id) == visuals.len() ==> forall|i: int|
            0 <= i < visuals.len() ==> (#[trigger] visuals[i]).id != id,
    decreases visuals.len(),
{
    if visuals.len() > 0 && visuals[0].id != id {
        lemma_visual_found(visuals.skip(1), id);
        let rest = visuals.skip(1);
        if visual_place(rest, id) == rest.len() {
            assert forall|i: int| 0 <= i < visuals.len() implies (#[trigger] visuals[i]).id
                != id by {
                if i > 0 {
                    assert(rest[i - 1].id != id);
                }
            }
        }
    }
}

} // verus!
