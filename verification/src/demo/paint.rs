//! Painting story annotations over captured frames.
use crate::ieee;
use crate::text;
use font8x8::{UnicodeFonts, BASIC_FONTS};
use vstd::arithmetic::div_mod::*;
use vstd::prelude::*;

verus! {

/// A pixel position.
#[derive(Clone, Copy, Debug, PartialEq, Eq, Structural)]
pub struct Point {
    pub x: i32,
    pub y: i32,
}

/// A quotient rounded toward zero.
pub open spec fn truncated(value: int, divisor: int) -> int {
    if value >= 0 {
        value / divisor
    } else {
        -((-value) / divisor)
    }
}

/// One coordinate on the way from `from` to `to`.
pub open spec fn between(from: i32, to: i32, step: u32, steps: u32) -> int {
    from + truncated((to - from) * step, steps as int)
}

fn travel(from: i32, to: i32, step: u32, steps: u32) -> (at: i32)
    requires
        steps > 0,
        i32::MIN <= between(from, to, step, steps) <= i32::MAX,
    ensures
        at == between(from, to, step, steps),
{
    let distance: i128 = to as i128 - from as i128;
    let size: i128 = if distance >= 0 {
        distance
    } else {
        0 - distance
    };
    assert(0 <= size * step <= 0x1_0000_0000 * 0xffff_ffff) by (nonlinear_arith)
        requires
            0 <= size <= 0x1_0000_0000,
            0 <= step <= 0xffff_ffff,
    ;
    let moved: i128 = (size * step as i128) / steps as i128;
    assert(0 <= moved <= size * step) by (nonlinear_arith)
        requires
            moved == (size * step) / (steps as int),
            0 <= size * step,
            0 < steps,
    ;
    assert((0 - distance) * step == -(distance * step)) by (nonlinear_arith);
    if distance >= 0 {
        (from as i128 + moved) as i32
    } else {
        proof {
            assert((to - from) * step <= 0) by (nonlinear_arith)
                requires
                    to - from < 0,
                    step >= 0,
            ;
            if (to - from) * step == 0 {
                assert(size * step == 0);
            }
        }
        (from as i128 - moved) as i32
    }
}

impl Point {
    /// The point `step` of `steps` on the way to another.
    pub fn lerp(self, other: Self, step: u32, steps: u32) -> (point: Self)
        requires
            steps > 0,
            i32::MIN <= between(self.x, other.x, step, steps) <= i32::MAX,
            i32::MIN <= between(self.y, other.y, step, steps) <= i32::MAX,
        ensures
            point.x == between(self.x, other.x, step, steps),
            point.y == between(self.y, other.y, step, steps),
    {
        Point {
            x: travel(self.x, other.x, step, steps),
            y: travel(self.y, other.y, step, steps),
        }
    }

    /// A window-relative pointer position.
    pub fn at(pointer: (i16, i16)) -> (point: Self)
        ensures
            point.x == pointer.0,
            point.y == pointer.1,
    {
        Point { x: pointer.0 as i32, y: pointer.1 as i32 }
    }
}

/// A transport starts where it stands, ends at its destination, and stays
/// between the two.
pub proof fn law_transport_reaches_its_destination(from: i32, to: i32, step: u32, steps: u32)
    requires
        0 < steps,
        step <= steps,
    ensures
        between(from, to, 0, steps) == from,
        between(from, to, steps, steps) == to,
        from <= to ==> from <= between(from, to, step, steps) <= to,
        to <= from ==> to <= between(from, to, step, steps) <= from,
{
    let distance = to - from;
    let size = if distance >= 0 {
        distance
    } else {
        -distance
    };
    assert(distance * 0 == 0) by (nonlinear_arith);
    assert(0int / (steps as int) == 0) by (nonlinear_arith)
        requires
            steps > 0,
    ;
    assert((size * steps) / (steps as int) == size) by (nonlinear_arith)
        requires
            steps > 0,
    ;
    assert((-distance) * steps == -(distance * steps)) by (nonlinear_arith);
    assert((-distance) * step == -(distance * step)) by (nonlinear_arith);
    assert(distance >= 0 ==> distance * steps >= 0 && distance * step >= 0) by (nonlinear_arith)
        requires
            steps > 0,
            step >= 0,
    ;
    assert(distance < 0 ==> distance * steps < 0 && distance * step <= 0) by (nonlinear_arith)
        requires
            steps > 0,
            step >= 0,
    ;
    assert(0 <= (size * step) / (steps as int) <= size) by (nonlinear_arith)
        requires
            0 <= step <= steps,
            0 < steps,
            0 <= size,
    ;
}

/// A pixel rectangle: left and top edges inside, right and bottom outside.
#[derive(Clone, Copy, Debug, PartialEq, Eq, Structural)]
pub struct Rect {
    pub left: i32,
    pub top: i32,
    pub right: i32,
    pub bottom: i32,
}

impl Rect {
    /// The smallest pixel rectangle around an anchor's edges, given as binary32
    /// bit patterns.
    pub fn around(rect: [u32; 4]) -> (outer: Self)
        ensures
            outer == (Rect {
                left: ieee::floor_of(rect@[0]),
                top: ieee::floor_of(rect@[1]),
                right: ieee::ceil_of(rect@[2]),
                bottom: ieee::ceil_of(rect@[3]),
            }),
    {
        Rect {
            left: ieee::floor(rect[0]),
            top: ieee::floor(rect[1]),
            right: ieee::ceil(rect[2]),
            bottom: ieee::ceil(rect[3]),
        }
    }

    /// A pixel lies inside.
    pub open spec fn covers(self, x: int, y: int) -> bool {
        self.left <= x < self.right && self.top <= y < self.bottom
    }
}

// ---------------------------------------------------------------------------
// Blending
// ---------------------------------------------------------------------------

/// One channel of a color laid over another with an opacity.
pub open spec fn mixed(under: u8, over: u8, alpha: u8) -> u8 {
    ((over * alpha + under * (255 - alpha)) / 255) as u8
}

/// One byte of a pixel under a color: mixed channels, full opacity.
pub open spec fn tinted(under: u8, color: Seq<u8>, channel: int) -> u8 {
    if channel == 3 {
        255
    } else {
        mixed(under, color[channel], color[3])
    }
}

/// A frame with a color laid over every pixel of a region.
pub open spec fn painted(
    rgba: Seq<u8>,
    width: int,
    height: int,
    region: spec_fn(int, int) -> bool,
    color: Seq<u8>,
) -> Seq<u8> {
    Seq::new(
        rgba.len(),
        |i: int|
            if i / 4 < width * height && region((i / 4) % width, (i / 4) / width) {
                tinted(rgba[i], color, i % 4)
            } else {
                rgba[i]
            },
    )
}

/// A frame that holds `width` by `height` pixels, with sides that fit signed
/// coordinates.
pub open spec fn fits(rgba: Seq<u8>, width: u32, height: u32) -> bool {
    &&& width <= i32::MAX
    &&& height <= i32::MAX
    &&& rgba.len() >= width * height * 4
}

proof fn lemma_pixel(width: int, height: int, x: int, y: int, i: int)
    requires
        0 <= x < width,
        0 <= y < height,
        0 <= i,
    ensures
        0 <= (y * width + x) * 4,
        (y * width + x) * 4 + 4 <= width * height * 4,
        (i / 4 == y * width + x) <==> (i / 4 < width * height && (i / 4) % width == x && (i / 4)
            / width == y),
{
    let p = i / 4;
    assert(0 <= y * width && y * width + width <= width * height) by (nonlinear_arith)
        requires
            0 <= y < height,
            0 < width,
    ;
    if p == y * width + x {
        lemma_fundamental_div_mod_converse(p, width, y, x);
    }
    if p % width == x && p / width == y {
        lemma_fundamental_div_mod(p, width);
        assert(width * (p / width) == y * width) by (nonlinear_arith)
            requires
                p / width == y,
        ;
    }
}

/// A pixel position as a region.
pub open spec fn spot(x: int, y: int) -> spec_fn(int, int) -> bool {
    |px: int, py: int| px == x && py == y
}

fn mix(under: u8, over: u8, alpha: u8) -> (value: u8)
    ensures
        value == mixed(under, over, alpha),
{
    assert(0 <= over * alpha + under * (255 - alpha) <= 255 * 255) by (nonlinear_arith)
        requires
            0 <= over <= 255,
            0 <= under <= 255,
            0 <= alpha <= 255,
    ;
    assert(over * alpha <= 255 * 255) by (nonlinear_arith)
        requires
            0 <= over <= 255,
            0 <= alpha <= 255,
    ;
    assert(under * (255 - alpha) <= 255 * 255) by (nonlinear_arith)
        requires
            0 <= under <= 255,
            0 <= alpha <= 255,
    ;
    let sum: u32 = over as u32 * alpha as u32 + under as u32 * (255 - alpha as u32);
    (sum / 255) as u8
}

/// Lay a color over one pixel, when it lies inside the frame.
pub fn blend(rgba: &mut Vec<u8>, width: u32, height: u32, x: i32, y: i32, color: [u8; 4])
    requires
        fits(old(rgba)@, width, height),
    ensures
        final(rgba)@ == painted(
            old(rgba)@,
            width as int,
            height as int,
            spot(x as int, y as int),
            color@,
        ),
{
    if x < 0 || y < 0 || x as i64 >= width as i64 || y as i64 >= height as i64 {
        proof {
            assert forall|i: int| 0 <= i < rgba@.len() && i / 4 < width * height implies !spot(
                x as int,
                y as int,
            )(#[trigger] ((i / 4) % (width as int)), (i / 4) / (width as int)) by {
                if width > 0 {
                    lemma_inside(width as int, height as int, i / 4);
                } else {
                    assert(width * height == 0) by (nonlinear_arith)
                        requires
                            width == 0,
                    ;
                }
            }
            assert(painted(
                rgba@,
                width as int,
                height as int,
                spot(x as int, y as int),
                color@,
            ) =~= rgba@);
        }
        return;
    }
    proof {
        lemma_pixel(width as int, height as int, x as int, y as int, 0);
        assert((y * width + x) * 4 + 4 <= rgba@.len());
        assert(rgba.len() == rgba@.len());
        assert(0 <= y * width <= y * width + x) by (nonlinear_arith)
            requires
                0 <= y,
                0 <= width,
                0 <= x,
        ;
    }
    let offset: usize = (y as usize * width as usize + x as usize) * 4;
    let ghost before = rgba@;
    rgba.set(offset, mix(rgba[offset], color[0], color[3]));
    rgba.set(offset + 1, mix(rgba[offset + 1], color[1], color[3]));
    rgba.set(offset + 2, mix(rgba[offset + 2], color[2], color[3]));
    rgba.set(offset + 3, 255);
    proof {
        let whole = painted(
            before,
            width as int,
            height as int,
            spot(x as int, y as int),
            color@,
        );
        assert forall|i: int| 0 <= i < before.len() implies rgba@[i] == whole[i] by {
            lemma_pixel(width as int, height as int, x as int, y as int, i);
        }
        assert(rgba@ =~= whole);
    }
}

proof fn lemma_inside(width: int, height: int, pixel: int)
    requires
        0 < width,
        0 <= pixel < width * height,
    ensures
        0 <= pixel % width < width,
        0 <= pixel / width < height,
{
    lemma_fundamental_div_mod(pixel, width);
    assert(0 <= pixel / width) by (nonlinear_arith)
        requires
            0 <= pixel,
            0 < width,
    ;
    assert(pixel / width < height) by (nonlinear_arith)
        requires
            pixel == width * (pixel / width) + pixel % width,
            0 <= pixel % width,
            pixel < width * height,
            0 < width,
    ;
}

/// Painting two disjoint regions one after the other paints their union.
pub proof fn lemma_painting_accumulates(
    rgba: Seq<u8>,
    width: int,
    height: int,
    first: spec_fn(int, int) -> bool,
    second: spec_fn(int, int) -> bool,
    both: spec_fn(int, int) -> bool,
    color: Seq<u8>,
)
    requires
        0 <= width,
        forall|x: int, y: int|
            0 <= x < width && 0 <= y < height ==> #[trigger] both(x, y) == (first(x, y) || second(
                x,
                y,
            )) && !(first(x, y) && second(x, y)),
    ensures
        painted(painted(rgba, width, height, first, color), width, height, second, color)
            == painted(rgba, width, height, both, color),
{
    let once = painted(rgba, width, height, first, color);
    let twice = painted(once, width, height, second, color);
    let whole = painted(rgba, width, height, both, color);
    assert forall|i: int| 0 <= i < rgba.len() implies twice[i] == whole[i] by {
        if i / 4 < width * height {
            if width == 0 {
                assert(width * height == 0) by (nonlinear_arith)
                    requires
                        width == 0,
                ;
            } else {
                lemma_inside(width, height, i / 4);
            }
            let x = (i / 4) % width;
            let y = (i / 4) / width;
            assert(both(x, y) == (first(x, y) || second(x, y)));
        }
    }
    assert(twice =~= whole);
}

/// Painting regions that agree inside the frame paints the same.
pub proof fn lemma_painting_inside(
    rgba: Seq<u8>,
    width: int,
    height: int,
    first: spec_fn(int, int) -> bool,
    second: spec_fn(int, int) -> bool,
    color: Seq<u8>,
)
    requires
        0 <= width,
        forall|x: int, y: int|
            0 <= x < width && 0 <= y < height ==> #[trigger] first(x, y) == second(x, y),
    ensures
        painted(rgba, width, height, first, color) == painted(rgba, width, height, second, color),
{
    let left = painted(rgba, width, height, first, color);
    let right = painted(rgba, width, height, second, color);
    assert forall|i: int| 0 <= i < rgba.len() implies left[i] == right[i] by {
        if i / 4 < width * height {
            if width == 0 {
                assert(width * height == 0) by (nonlinear_arith)
                    requires
                        width == 0,
                ;
            } else {
                lemma_inside(width, height, i / 4);
            }
            let x = (i / 4) % width;
            let y = (i / 4) / width;
            assert(first(x, y) == second(x, y));
        }
    }
    assert(left =~= right);
}

// ---------------------------------------------------------------------------
// Shapes
// ---------------------------------------------------------------------------

/// A rectangle as a region.
pub open spec fn inside(rect: Rect) -> spec_fn(int, int) -> bool {
    |x: int, y: int| rect.covers(x, y)
}

/// The part of a rectangle painted so far, row by row.
spec fn filled_until(rect: Rect, x: int, y: int) -> spec_fn(int, int) -> bool {
    |px: int, py: int| rect.covers(px, py) && (py < y || (py == y && px < x))
}

fn clamp(value: i32, limit: u32) -> (inside: i32)
    requires
        limit <= i32::MAX,
    ensures
        inside == if value < 0 {
            0
        } else if value > limit {
            limit as int
        } else {
            value as int
        },
{
    if value < 0 {
        0
    } else if value > limit as i32 {
        limit as i32
    } else {
        value
    }
}

/// Lay a color over the part of a rectangle inside the frame.
pub fn fill(rgba: &mut Vec<u8>, width: u32, height: u32, rect: Rect, color: [u8; 4])
    requires
        fits(old(rgba)@, width, height),
    ensures
        final(rgba)@ == painted(
            old(rgba)@,
            width as int,
            height as int,
            inside(rect),
            color@,
        ),
{
    let left: i32 = clamp(rect.left, width);
    let right: i32 = clamp(rect.right, width);
    let top: i32 = clamp(rect.top, height);
    let bottom: i32 = clamp(rect.bottom, height);
    let ghost start = rgba@;
    let ghost clipped = Rect { left, top, right, bottom };
    let ghost w = width as int;
    let ghost h = height as int;
    let mut y: i32 = top;
    proof {
        lemma_painting_inside(
            start,
            w,
            h,
            filled_until(clipped, left as int, top as int),
            |px: int, py: int| false,
            color@,
        );
        assert(painted(start, w, h, |px: int, py: int| false, color@) =~= start);
    }
    while y < bottom
        invariant
            top <= y,
            y <= bottom || bottom < top,
            0 <= left <= width,
            0 <= right <= width,
            0 <= top <= height,
            0 <= bottom <= height,
            clipped == (Rect { left, top, right, bottom }),
            w == width,
            h == height,
            fits(start, width, height),
            rgba@ == painted(start, w, h, filled_until(clipped, left as int, y as int), color@),
        decreases bottom - y,
    {
        let mut x: i32 = left;
        while x < right
            invariant
                top <= y < bottom,
                left <= x,
                x <= right || right < left,
                0 <= left <= width,
                0 <= right <= width,
                0 <= top <= height,
                0 <= bottom <= height,
                clipped == (Rect { left, top, right, bottom }),
                w == width,
                h == height,
                fits(start, width, height),
                rgba@ == painted(start, w, h, filled_until(clipped, x as int, y as int), color@),
            decreases right - x,
        {
            blend(rgba, width, height, x, y, color);
            proof {
                lemma_painting_accumulates(
                    start,
                    w,
                    h,
                    filled_until(clipped, x as int, y as int),
                    spot(x as int, y as int),
                    filled_until(clipped, x + 1, y as int),
                    color@,
                );
            }
            x += 1;
        }
        proof {
            lemma_painting_inside(
                start,
                w,
                h,
                filled_until(clipped, x as int, y as int),
                filled_until(clipped, left as int, y + 1),
                color@,
            );
        }
        y += 1;
    }
    proof {
        lemma_painting_inside(
            start,
            w,
            h,
            filled_until(clipped, left as int, y as int),
            inside(rect),
            color@,
        );
    }
}

/// An annulus as a region: pixels whose squared distance from the center lies
/// between the squared radii.
pub open spec fn annulus(center: Point, inner: int, outer: int) -> spec_fn(int, int) -> bool {
    |x: int, y: int|
        {
            let dx = x - center.x;
            let dy = y - center.y;
            &&& -outer <= dx <= outer
            &&& -outer <= dy <= outer
            &&& inner * inner <= dx * dx + dy * dy <= outer * outer
        }
}

/// The part of an annulus painted so far, row by row.
spec fn ringed_until(center: Point, inner: int, outer: int, x: int, y: int) -> spec_fn(
    int,
    int,
) -> bool {
    |px: int, py: int|
        annulus(center, inner, outer)(px, py) && (py < y || (py == y && px < x))
}

/// Lay a color over the part of an annulus inside the frame.
pub fn ring(
    rgba: &mut Vec<u8>,
    width: u32,
    height: u32,
    center: Point,
    inner: i32,
    outer: i32,
    color: [u8; 4],
)
    requires
        fits(old(rgba)@, width, height),
        -46340 <= inner <= 46340,
        -46340 <= outer <= 32767,
        i32::MIN <= center.x - outer <= i32::MAX,
        i32::MIN <= center.x + outer <= i32::MAX,
        i32::MIN <= center.y - outer <= i32::MAX,
        i32::MIN <= center.y + outer <= i32::MAX,
    ensures
        final(rgba)@ == painted(
            old(rgba)@,
            width as int,
            height as int,
            annulus(center, inner as int, outer as int),
            color@,
        ),
{
    let inner_squared: i64 = square(inner as i64);
    let outer_squared: i64 = square(outer as i64);
    let ghost start = rgba@;
    let ghost w = width as int;
    let ghost h = height as int;
    let top: i64 = center.y as i64 - outer as i64;
    let bottom: i64 = center.y as i64 + outer as i64;
    let left: i64 = center.x as i64 - outer as i64;
    let right: i64 = center.x as i64 + outer as i64;
    let mut y: i64 = top;
    proof {
        lemma_painting_inside(
            start,
            w,
            h,
            ringed_until(center, inner as int, outer as int, left as int, top as int),
            |px: int, py: int| false,
            color@,
        );
        assert(painted(start, w, h, |px: int, py: int| false, color@) =~= start);
    }
    while y <= bottom
        invariant
            -46340 <= inner <= 46340,
            -46340 <= outer <= 32767,
            top == center.y - outer,
            bottom == center.y + outer,
            left == center.x - outer,
            right == center.x + outer,
            i32::MIN <= left,
            right <= i32::MAX,
            i32::MIN <= top,
            bottom <= i32::MAX,
            left <= i32::MAX,
            top <= y,
            y <= bottom + 1 || bottom < top,
            inner_squared == inner * inner,
            outer_squared == outer * outer,
            w == width,
            h == height,
            fits(start, width, height),
            rgba@ == painted(
                start,
                w,
                h,
                ringed_until(center, inner as int, outer as int, left as int, y as int),
                color@,
            ),
        decreases bottom + 1 - y,
    {
        let mut x: i64 = left;
        while x <= right
            invariant
                -46340 <= inner <= 46340,
                -46340 <= outer <= 32767,
                top == center.y - outer,
                bottom == center.y + outer,
                left == center.x - outer,
                right == center.x + outer,
                i32::MIN <= left,
                right <= i32::MAX,
                i32::MIN <= top,
                bottom <= i32::MAX,
                top <= y <= bottom,
                left <= x,
                x <= right + 1 || right < left,
                inner_squared == inner * inner,
                outer_squared == outer * outer,
                w == width,
                h == height,
                fits(start, width, height),
                rgba@ == painted(
                    start,
                    w,
                    h,
                    ringed_until(center, inner as int, outer as int, x as int, y as int),
                    color@,
                ),
            decreases right + 1 - x,
        {
            let distance: i64 = square(x - center.x as i64) + square(y - center.y as i64);
            let ghost now = ringed_until(center, inner as int, outer as int, x as int, y as int);
            let ghost next = ringed_until(center, inner as int, outer as int, x + 1, y as int);
            if distance >= inner_squared && distance <= outer_squared {
                blend(rgba, width, height, x as i32, y as i32, color);
                proof {
                    lemma_painting_accumulates(
                        start,
                        w,
                        h,
                        now,
                        spot(x as int, y as int),
                        next,
                        color@,
                    );
                }
            } else {
                proof {
                    lemma_painting_inside(start, w, h, now, next, color@);
                }
            }
            x += 1;
        }
        proof {
            lemma_painting_inside(
                start,
                w,
                h,
                ringed_until(center, inner as int, outer as int, x as int, y as int),
                ringed_until(center, inner as int, outer as int, left as int, y + 1),
                color@,
            );
        }
        y += 1;
    }
    proof {
        lemma_painting_inside(
            start,
            w,
            h,
            ringed_until(center, inner as int, outer as int, left as int, y as int),
            annulus(center, inner as int, outer as int),
            color@,
        );
    }
}

fn square(side: i64) -> (area: i64)
    requires
        -46340 <= side <= 46340,
    ensures
        area == side * side,
        0 <= area <= 0x8000_0000,
{
    assert(0 <= side * side <= 46340 * 46340) by (nonlinear_arith)
        requires
            -46340 <= side <= 46340,
    ;
    side * side
}

/// The four edges of a rectangle: top, bottom, left, and right.
pub open spec fn edges(rect: Rect, stroke: int) -> Seq<Rect> {
    seq![
        Rect { bottom: (rect.top + stroke) as i32, ..rect },
        Rect { top: (rect.bottom - stroke) as i32, ..rect },
        Rect { right: (rect.left + stroke) as i32, ..rect },
        Rect { left: (rect.right - stroke) as i32, ..rect },
    ]
}

/// A frame with a rectangle's edges painted in turn.
pub open spec fn outlined(
    rgba: Seq<u8>,
    width: int,
    height: int,
    rect: Rect,
    color: Seq<u8>,
    stroke: int,
) -> Seq<u8> {
    let sides = edges(rect, stroke);
    painted(
        painted(
            painted(
                painted(rgba, width, height, inside(sides[0]), color),
                width,
                height,
                inside(sides[1]),
                color,
            ),
            width,
            height,
            inside(sides[2]),
            color,
        ),
        width,
        height,
        inside(sides[3]),
        color,
    )
}

/// A rectangle whose inner edges stay within signed coordinates.
pub open spec fn strokable(rect: Rect, stroke: int) -> bool {
    &&& i32::MIN <= rect.top + stroke <= i32::MAX
    &&& i32::MIN <= rect.bottom - stroke <= i32::MAX
    &&& i32::MIN <= rect.left + stroke <= i32::MAX
    &&& i32::MIN <= rect.right - stroke <= i32::MAX
}

/// Paint a rectangle's edges.
pub fn outline(
    rgba: &mut Vec<u8>,
    width: u32,
    height: u32,
    rect: Rect,
    color: [u8; 4],
    stroke: i32,
)
    requires
        fits(old(rgba)@, width, height),
        strokable(rect, stroke as int),
    ensures
        final(rgba)@ == outlined(
            old(rgba)@,
            width as int,
            height as int,
            rect,
            color@,
            stroke as int,
        ),
{
    fill(rgba, width, height, Rect { bottom: rect.top + stroke, ..rect }, color);
    fill(rgba, width, height, Rect { top: rect.bottom - stroke, ..rect }, color);
    fill(rgba, width, height, Rect { right: rect.left + stroke, ..rect }, color);
    fill(rgba, width, height, Rect { left: rect.right - stroke, ..rect }, color);
}

// ---------------------------------------------------------------------------
// Lettering
// ---------------------------------------------------------------------------

/// The bitmap of a character in the basic font, when the font has it.
pub uninterp spec fn basic_glyph(character: char) -> Option<[u8; 8]>;

/// `BASIC_FONTS.get` of font8x8: eight rows of eight bits, the lowest bit
/// leftmost. The bitmap depends on the character alone; [`basic_glyph`] names
/// it.
#[verifier::external_body]
fn glyph(character: char) -> (bitmap: Option<[u8; 8]>)
    ensures
        bitmap == basic_glyph(character),
{
    BASIC_FONTS.get(character)
}

/// The bitmaps of a text, without the characters that the font lacks.
pub open spec fn glyphs(text: Seq<char>) -> Seq<[u8; 8]>
    decreases text.len(),
{
    if text.len() == 0 {
        Seq::empty()
    } else {
        match basic_glyph(text.last()) {
            Some(bitmap) => glyphs(text.drop_last()).push(bitmap),
            None => glyphs(text.drop_last()),
        }
    }
}

/// Collect the bitmaps of a text.
pub fn collect_glyphs(text: &str) -> (list: Vec<[u8; 8]>)
    ensures
        list@ == glyphs(text@),
        list@.len() <= text@.len(),
{
    let characters = text::characters(text);
    let mut list: Vec<[u8; 8]> = Vec::new();
    let mut index: usize = 0;
    assert(text@.take(0) =~= Seq::<char>::empty());
    while index < characters.len()
        invariant
            index <= characters.len(),
            characters@ == text@,
            list@ == glyphs(text@.take(index as int)),
            list@.len() <= index,
        decreases characters.len() - index,
    {
        assert(text@.take(index + 1).drop_last() =~= text@.take(index as int));
        match glyph(characters[index]) {
            Some(bitmap) => {
                list.push(bitmap);
            },
            None => {},
        }
        index += 1;
    }
    assert(text@.take(index as int) =~= text@);
    list
}

/// Bit `column` of row `row` of the glyph that owns it is set; columns count on
/// from glyph to glyph.
pub open spec fn lit(bitmaps: Seq<[u8; 8]>, column: int, row: int) -> bool {
    &&& 0 <= column < 8 * bitmaps.len()
    &&& 0 <= row < 8
    &&& bitmaps[column / 8]@[row] & (1u8 << ((column % 8) as u8)) != 0
}

/// A pixel lies in one cell of a grid.
pub open spec fn in_cell(origin: Point, scale: int, column: int, row: int, x: int, y: int) -> bool {
    &&& origin.x + column * scale <= x < origin.x + (column + 1) * scale
    &&& origin.y + row * scale <= y < origin.y + (row + 1) * scale
}

/// Lettering as a region: every cell whose bit is set.
pub open spec fn inked(bitmaps: Seq<[u8; 8]>, origin: Point, scale: int) -> spec_fn(int, int) -> bool {
    |x: int, y: int|
        exists|column: int, row: int|
            lit(bitmaps, column, row) && #[trigger] in_cell(origin, scale, column, row, x, y)
}

/// The order in which cells are painted: glyph by glyph, row by row.
spec fn earlier(column: int, row: int, glyph: int, at_row: int, at_column: int) -> bool {
    ||| column / 8 < glyph
    ||| column / 8 == glyph && row < at_row
    ||| column / 8 == glyph && row == at_row && column % 8 < at_column
}

spec fn inked_until(
    bitmaps: Seq<[u8; 8]>,
    origin: Point,
    scale: int,
    glyph: int,
    at_row: int,
    at_column: int,
) -> spec_fn(int, int) -> bool {
    |x: int, y: int|
        exists|column: int, row: int|
            lit(bitmaps, column, row) && earlier(column, row, glyph, at_row, at_column)
                && #[trigger] in_cell(origin, scale, column, row, x, y)
}

proof fn lemma_cells_are_disjoint(
    origin: Point,
    scale: int,
    column: int,
    row: int,
    other_column: int,
    other_row: int,
    x: int,
    y: int,
)
    requires
        scale > 0,
        in_cell(origin, scale, column, row, x, y),
        in_cell(origin, scale, other_column, other_row, x, y),
    ensures
        column == other_column,
        row == other_row,
{
    assert(column < other_column ==> (column + 1) * scale <= other_column * scale)
        by (nonlinear_arith)
        requires
            scale > 0,
    ;
    assert(other_column < column ==> (other_column + 1) * scale <= column * scale)
        by (nonlinear_arith)
        requires
            scale > 0,
    ;
    assert(row < other_row ==> (row + 1) * scale <= other_row * scale) by (nonlinear_arith)
        requires
            scale > 0,
    ;
    assert(other_row < row ==> (other_row + 1) * scale <= row * scale) by (nonlinear_arith)
        requires
            scale > 0,
    ;
}

proof fn lemma_ink_step(
    rgba: Seq<u8>,
    width: int,
    height: int,
    bitmaps: Seq<[u8; 8]>,
    origin: Point,
    scale: int,
    glyph: int,
    row: int,
    column: int,
    cell: Rect,
    color: Seq<u8>,
)
    requires
        0 <= width,
        scale > 0,
        0 <= glyph < bitmaps.len(),
        0 <= row < 8,
        0 <= column < 8,
        cell.left == origin.x + (8 * glyph + column) * scale,
        cell.right == origin.x + (8 * glyph + column + 1) * scale,
        cell.top == origin.y + row * scale,
        cell.bottom == origin.y + (row + 1) * scale,
    ensures
        ({
            let now = inked_until(bitmaps, origin, scale, glyph, row, column);
            let next = inked_until(bitmaps, origin, scale, glyph, row, column + 1);
            if lit(bitmaps, 8 * glyph + column, row) {
                painted(painted(rgba, width, height, now, color), width, height, inside(cell), color)
                    == painted(rgba, width, height, next, color)
            } else {
                painted(rgba, width, height, now, color) == painted(
                    rgba,
                    width,
                    height,
                    next,
                    color,
                )
            }
        }),
{
    let here = 8 * glyph + column;
    assert(here / 8 == glyph && here % 8 == column);
    let now = inked_until(bitmaps, origin, scale, glyph, row, column);
    let next = inked_until(bitmaps, origin, scale, glyph, row, column + 1);
    let is_lit = lit(bitmaps, here, row);
    assert forall|x: int, y: int|
        #![trigger now(x, y)]
        #![trigger next(x, y)]
        next(x, y) == (now(x, y) || (is_lit && cell.covers(x, y))) && !(now(x, y) && is_lit
            && cell.covers(x, y)) by {
        assert(cell.covers(x, y) == in_cell(origin, scale, here, row, x, y));
        if now(x, y) {
            let (c, r) = choose|c: int, r: int|
                lit(bitmaps, c, r) && earlier(c, r, glyph, row, column) && #[trigger] in_cell(
                    origin,
                    scale,
                    c,
                    r,
                    x,
                    y,
                );
            assert(earlier(c, r, glyph, row, column + 1));
            if cell.covers(x, y) {
                lemma_cells_are_disjoint(origin, scale, c, r, here, row, x, y);
            }
        }
        if next(x, y) {
            let (c, r) = choose|c: int, r: int|
                lit(bitmaps, c, r) && earlier(c, r, glyph, row, column + 1) && #[trigger] in_cell(
                    origin,
                    scale,
                    c,
                    r,
                    x,
                    y,
                );
            if !earlier(c, r, glyph, row, column) {
                assert(c / 8 == glyph && c % 8 == column);
                assert(c == here && r == row);
            }
        }
        if is_lit && cell.covers(x, y) {
            assert(earlier(here, row, glyph, row, column + 1));
        }
    }
    if is_lit {
        lemma_painting_accumulates(rgba, width, height, now, inside(cell), next, color);
    } else {
        lemma_painting_inside(rgba, width, height, now, next, color);
    }
}

/// Letter a text in square cells of `scale` pixels.
pub fn letter(
    rgba: &mut Vec<u8>,
    width: u32,
    height: u32,
    origin: Point,
    text: &str,
    scale: i32,
    color: [u8; 4],
)
    requires
        fits(old(rgba)@, width, height),
        1 <= scale,
        origin.x + 8 * scale * text@.len() <= i32::MAX,
        origin.y + 8 * scale <= i32::MAX,
    ensures
        final(rgba)@ == painted(
            old(rgba)@,
            width as int,
            height as int,
            inked(glyphs(text@), origin, scale as int),
            color@,
        ),
{
    let bitmaps = collect_glyphs(text);
    let ghost start = rgba@;
    let ghost w = width as int;
    let ghost h = height as int;
    let ghost s = scale as int;
    let count: usize = bitmaps.len();
    proof {
        assert(8 * s * count <= 8 * s * text@.len()) by (nonlinear_arith)
            requires
                count <= text@.len(),
                s >= 0,
        ;
        assert(8 * s * text@.len() == 8 * scale * text@.len());
        lemma_painting_inside(
            start,
            w,
            h,
            inked_until(bitmaps@, origin, s, 0, 0, 0),
            |px: int, py: int| false,
            color@,
        );
        assert(painted(start, w, h, |px: int, py: int| false, color@) =~= start);
    }
    let mut index: usize = 0;
    while index < count
        invariant
            index <= count,
            count == bitmaps@.len(),
            w == width,
            h == height,
            s == scale,
            1 <= s,
            fits(start, width, height),
            origin.x + 8 * s * count <= i32::MAX,
            origin.y + 8 * s <= i32::MAX,
            rgba@ == painted(
                start,
                w,
                h,
                inked_until(bitmaps@, origin, s, index as int, 0, 0),
                color@,
            ),
        decreases count - index,
    {
        let bitmap = bitmaps[index];
        let mut row: usize = 0;
        while row < 8
            invariant
                row <= 8,
                index < count,
                count == bitmaps@.len(),
                bitmap == bitmaps@[index as int],
                w == width,
                h == height,
                s == scale,
                1 <= s,
                fits(start, width, height),
                origin.x + 8 * s * count <= i32::MAX,
                origin.y + 8 * s <= i32::MAX,
                rgba@ == painted(
                    start,
                    w,
                    h,
                    inked_until(bitmaps@, origin, s, index as int, row as int, 0),
                    color@,
                ),
            decreases 8 - row,
        {
            let bits: u8 = bitmap[row];
            let mut column: u8 = 0;
            while column < 8
                invariant
                    column <= 8,
                    row < 8,
                    index < count,
                    count == bitmaps@.len(),
                    bitmap == bitmaps@[index as int],
                    bits == bitmap@[row as int],
                    w == width,
                    h == height,
                    s == scale,
                    1 <= s,
                    fits(start, width, height),
                    origin.x + 8 * s * count <= i32::MAX,
                    origin.y + 8 * s <= i32::MAX,
                    rgba@ == painted(
                        start,
                        w,
                        h,
                        inked_until(bitmaps@, origin, s, index as int, row as int, column as int),
                        color@,
                    ),
                decreases 8 - column,
            {
                let ghost here = 8 * index + column;
                proof {
                    assert(0 <= here * s && (here + 1) * s <= 8 * s * count) by (nonlinear_arith)
                        requires
                            0 <= here,
                            here + 1 <= 8 * count,
                            1 <= s,
                    ;
                    assert(here * s + s == (here + 1) * s) by (nonlinear_arith);
                    assert(0 <= row * s && (row + 1) * s <= 8 * s) by (nonlinear_arith)
                        requires
                            0 <= row < 8,
                            1 <= s,
                    ;
                    assert(row * s + s == (row + 1) * s) by (nonlinear_arith);
                    assert(here / 8 == index && here % 8 == column);
                }
                let x: i64 = origin.x as i64 + cell_offset(index, column, scale);
                let y: i64 = origin.y as i64 + row as i64 * scale as i64;
                let cell = Rect {
                    left: x as i32,
                    top: y as i32,
                    right: (x + scale as i64) as i32,
                    bottom: (y + scale as i64) as i32,
                };
                if bits & (1u8 << column) != 0 {
                    fill(rgba, width, height, cell, color);
                }
                proof {
                    lemma_ink_step(
                        start,
                        w,
                        h,
                        bitmaps@,
                        origin,
                        s,
                        index as int,
                        row as int,
                        column as int,
                        cell,
                        color@,
                    );
                }
                column += 1;
            }
            proof {
                lemma_ink_order(
                    start,
                    w,
                    h,
                    bitmaps@,
                    origin,
                    s,
                    (index as int, row as int, 8),
                    (index as int, row + 1, 0),
                    color@,
                );
            }
            row += 1;
        }
        proof {
            lemma_ink_order(
                start,
                w,
                h,
                bitmaps@,
                origin,
                s,
                (index as int, 8, 0),
                (index + 1, 0, 0),
                color@,
            );
        }
        index += 1;
    }
    proof {
        let all = inked(bitmaps@, origin, s);
        let until = inked_until(bitmaps@, origin, s, count as int, 0, 0);
        assert forall|x: int, y: int| #[trigger] until(x, y) == all(x, y) by {
            if all(x, y) {
                let (c, r) = choose|c: int, r: int|
                    lit(bitmaps@, c, r) && #[trigger] in_cell(origin, s, c, r, x, y);
                assert(earlier(c, r, count as int, 0, 0));
            }
        }
        lemma_painting_inside(start, w, h, until, all, color@);
    }
}

fn cell_offset(index: usize, column: u8, scale: i32) -> (offset: i64)
    requires
        column < 8,
        1 <= scale,
        (8 * index + column) * scale <= 0x1_0000_0000,
    ensures
        offset == (8 * index + column) * scale,
{
    assert(8 * index + column <= (8 * index + column) * scale) by (nonlinear_arith)
        requires
            0 <= 8 * index + column,
            1 <= scale,
    ;
    let cells: i64 = 8 * (index as i64) + column as i64;
    cells * scale as i64
}

proof fn lemma_ink_order(
    rgba: Seq<u8>,
    width: int,
    height: int,
    bitmaps: Seq<[u8; 8]>,
    origin: Point,
    scale: int,
    here: (int, int, int),
    there: (int, int, int),
    color: Seq<u8>,
)
    requires
        0 <= width,
        (here.2 == 8 && there == (here.0, here.1 + 1, 0int)) || (here.1 == 8 && here.2 == 0
            && there == (here.0 + 1, 0int, 0int)),
    ensures
        painted(
            rgba,
            width,
            height,
            inked_until(bitmaps, origin, scale, here.0, here.1, here.2),
            color,
        ) == painted(
            rgba,
            width,
            height,
            inked_until(bitmaps, origin, scale, there.0, there.1, there.2),
            color,
        ),
{
    let now = inked_until(bitmaps, origin, scale, here.0, here.1, here.2);
    let next = inked_until(bitmaps, origin, scale, there.0, there.1, there.2);
    assert forall|column: int, row: int| lit(bitmaps, column, row) implies #[trigger] earlier(
        column,
        row,
        here.0,
        here.1,
        here.2,
    ) == earlier(column, row, there.0, there.1, there.2) by {}
    assert forall|x: int, y: int| #[trigger] now(x, y) == next(x, y) by {
        if now(x, y) {
            let (c, r) = choose|c: int, r: int|
                lit(bitmaps, c, r) && earlier(c, r, here.0, here.1, here.2) && #[trigger] in_cell(
                    origin,
                    scale,
                    c,
                    r,
                    x,
                    y,
                );
            assert(earlier(c, r, there.0, there.1, there.2));
        }
        if next(x, y) {
            let (c, r) = choose|c: int, r: int|
                lit(bitmaps, c, r) && earlier(c, r, there.0, there.1, there.2)
                    && #[trigger] in_cell(origin, scale, c, r, x, y);
            assert(earlier(c, r, here.0, here.1, here.2));
        }
    }
    lemma_painting_inside(rgba, width, height, now, next, color);
}

// ---------------------------------------------------------------------------
// Scenes
// ---------------------------------------------------------------------------

/// Lettering scale of a frame width.
pub open spec fn lettering(width: u32) -> int {
    if width / 520 < 2 {
        2
    } else if width / 520 > 4 {
        4
    } else {
        (width / 520) as int
    }
}

/// The panel of a chapter card.
pub open spec fn panel(width: u32, height: u32, characters: nat) -> Rect {
    let scale = lettering(width);
    let wanted = characters * 8 * scale + 96;
    let room = if wanted < width - 64 {
        wanted
    } else {
        width - 64
    };
    let across = if room > 240 {
        room
    } else {
        240
    };
    let down = 8 * scale + 72;
    let left = truncated(width - across, 2);
    let top = truncated(height - down, 2);
    Rect {
        left: left as i32,
        top: top as i32,
        right: (left + across) as i32,
        bottom: (top + down) as i32,
    }
}

/// A chapter title that can be laid out in signed coordinates.
pub open spec fn titled(width: u32, title: Seq<char>) -> bool {
    title.len() * 8 * lettering(width) + 96 <= i32::MAX
}

/// A frame behind a chapter card: a veil, a panel with a bright edge, and the
/// title.
pub open spec fn carded(rgba: Seq<u8>, width: u32, height: u32, title: Seq<char>) -> Seq<u8> {
    let w = width as int;
    let h = height as int;
    let card = panel(width, height, title.len());
    let veiled = painted(
        rgba,
        w,
        h,
        inside(Rect { left: 0, top: 0, right: w as i32, bottom: h as i32 }),
        seq![4u8, 9, 13, 150],
    );
    let plated = painted(veiled, w, h, inside(card), seq![6u8, 13, 19, 225]);
    let edged = painted(
        plated,
        w,
        h,
        inside(Rect { right: (card.left + 8) as i32, ..card }),
        seq![35u8, 211, 255, 255],
    );
    painted(
        edged,
        w,
        h,
        inked(
            glyphs(title),
            Point { x: (card.left + 48) as i32, y: (card.top + 36) as i32 },
            lettering(width),
        ),
        seq![235u8, 245, 249, 255],
    )
}

fn half(value: i64) -> (quotient: i64)
    requires
        -0x1_0000_0000 <= value <= 0x1_0000_0000,
    ensures
        quotient == truncated(value as int, 2),
{
    if value >= 0 {
        value / 2
    } else {
        0 - ((0 - value) / 2)
    }
}

/// Veil a frame behind a chapter card.
pub fn chapter_card(rgba: &mut Vec<u8>, width: u32, height: u32, title: &str)
    requires
        fits(old(rgba)@, width, height),
        titled(width, title@),
    ensures
        final(rgba)@ == carded(old(rgba)@, width, height, title@),
{
    let veil: [u8; 4] = [4, 9, 13, 150];
    let plate: [u8; 4] = [6, 13, 19, 225];
    let edge: [u8; 4] = [35, 211, 255, 255];
    let ink: [u8; 4] = [235, 245, 249, 255];
    assert(veil@ =~= seq![4u8, 9, 13, 150]);
    assert(plate@ =~= seq![6u8, 13, 19, 225]);
    assert(edge@ =~= seq![35u8, 211, 255, 255]);
    assert(ink@ =~= seq![235u8, 245, 249, 255]);
    fill(
        rgba,
        width,
        height,
        Rect { left: 0, top: 0, right: width as i32, bottom: height as i32 },
        veil,
    );
    let scale: i64 = if width / 520 < 2 {
        2
    } else if width / 520 > 4 {
        4
    } else {
        (width / 520) as i64
    };
    let count: usize = text::characters(title).len();
    assert(count * 8 * scale <= i32::MAX - 96);
    assert(count <= count * 8 * scale) by (nonlinear_arith)
        requires
            count >= 0,
            scale >= 2,
    ;
    assert(count * 8 * scale == (count * 8) * scale);
    let cells: i64 = count as i64 * 8;
    assert(cells * scale == count * 8 * scale);
    let wanted: i64 = cells * scale + 96;
    let room: i64 = if wanted < width as i64 - 64 {
        wanted
    } else {
        width as i64 - 64
    };
    let across: i64 = if room > 240 {
        room
    } else {
        240
    };
    let down: i64 = 8 * scale + 72;
    let left: i64 = half(width as i64 - across);
    let top: i64 = half(height as i64 - down);
    let card = Rect {
        left: left as i32,
        top: top as i32,
        right: (left + across) as i32,
        bottom: (top + down) as i32,
    };
    assert(card == panel(width, height, title@.len()));
    fill(rgba, width, height, card, plate);
    fill(rgba, width, height, Rect { right: (left + 8) as i32, ..card }, edge);
    let origin = Point { x: (left + 48) as i32, y: (top + 36) as i32 };
    assert(8 * scale * title@.len() == count * 8 * scale) by (nonlinear_arith)
        requires
            count == title@.len(),
    ;
    letter(rgba, width, height, origin, title, scale as i32, ink);
}

#[allow(inconsistent_fields)]
/// What a film frame shows over the product.
#[derive(Clone, Copy, Debug)]
pub enum Scene<'a> {
    /// The pointer approaches its target.
    Target { pointer: Point },
    /// The pointer acts.
    Action { pointer: Option<Point>, phase: u32, phases: u32 },
    /// The product settles.
    Settled { pointer: Option<Point> },
    /// A chapter begins.
    Chapter { title: &'a str },
}

/// Radius of the action ring: it blooms by up to eight pixels over the action.
pub open spec fn bloom(phase: u32, phases: u32) -> int {
    let grown = (phase * 8) / (if phases == 0 {
        1
    } else {
        phases as int
    });
    if grown > i32::MAX {
        18
    } else {
        10 + grown
    }
}

/// A ring around a point stays within signed coordinates.
pub open spec fn ringable(point: Point, outer: int) -> bool {
    &&& outer <= 32767
    &&& i32::MIN + outer <= point.x <= i32::MAX - outer
    &&& i32::MIN + outer <= point.y <= i32::MAX - outer
}

/// A scene whose annotations stay within signed coordinates.
pub open spec fn paintable(width: u32, target: Option<Rect>, scene: Scene<'_>) -> bool {
    match scene {
        Scene::Target { pointer } => (target matches Some(rect) ==> strokable(rect, 2))
            && ringable(pointer, 14),
        Scene::Action { pointer, phase, phases } => {
            &&& target matches Some(rect) ==> strokable(rect, 2)
            &&& phase * 8 <= u32::MAX
            &&& pointer matches Some(point) ==> ringable(point, bloom(phase, phases) + 3)
        },
        Scene::Settled { pointer } => pointer matches Some(point) ==> ringable(point, 8),
        Scene::Chapter { title } => titled(width, title@),
    }
}

/// A frame with a scene painted over it.
pub open spec fn scenic(
    rgba: Seq<u8>,
    width: u32,
    height: u32,
    target: Option<Rect>,
    scene: Scene<'_>,
) -> Seq<u8> {
    let w = width as int;
    let h = height as int;
    match scene {
        Scene::Target { pointer } => {
            let framed = match target {
                Some(rect) => outlined(rgba, w, h, rect, seq![35u8, 211, 255, 210], 2),
                None => rgba,
            };
            painted(
                painted(framed, w, h, annulus(pointer, 8, 11), seq![255u8, 255, 255, 230]),
                w,
                h,
                annulus(pointer, 11, 14),
                seq![20u8, 170, 220, 210],
            )
        },
        Scene::Action { pointer, phase, phases } => {
            let framed = match target {
                Some(rect) => outlined(rgba, w, h, rect, seq![35u8, 211, 255, 180], 2),
                None => rgba,
            };
            match pointer {
                Some(point) => painted(
                    framed,
                    w,
                    h,
                    annulus(point, bloom(phase, phases), bloom(phase, phases) + 3),
                    seq![255u8, 206, 75, 230],
                ),
                None => framed,
            }
        },
        Scene::Settled { pointer } => match pointer {
            Some(point) => painted(rgba, w, h, annulus(point, 5, 8), seq![35u8, 211, 255, 150]),
            None => rgba,
        },
        Scene::Chapter { title } => carded(rgba, width, height, title@),
    }
}

/// Paint a scene over a frame.
pub fn paint_scene(
    rgba: &mut Vec<u8>,
    width: u32,
    height: u32,
    target: Option<Rect>,
    scene: Scene<'_>,
)
    requires
        fits(old(rgba)@, width, height),
        paintable(width, target, scene),
    ensures
        final(rgba)@ == scenic(old(rgba)@, width, height, target, scene),
{
    match scene {
        Scene::Target { pointer } => {
            let frame: [u8; 4] = [35, 211, 255, 210];
            let bright: [u8; 4] = [255, 255, 255, 230];
            let halo: [u8; 4] = [20, 170, 220, 210];
            assert(frame@ =~= seq![35u8, 211, 255, 210]);
            assert(bright@ =~= seq![255u8, 255, 255, 230]);
            assert(halo@ =~= seq![20u8, 170, 220, 210]);
            match target {
                Some(rect) => {
                    outline(rgba, width, height, rect, frame, 2);
                },
                None => {},
            }
            ring(rgba, width, height, pointer, 8, 11, bright);
            ring(rgba, width, height, pointer, 11, 14, halo);
        },
        Scene::Action { pointer, phase, phases } => {
            let frame: [u8; 4] = [35, 211, 255, 180];
            let flare: [u8; 4] = [255, 206, 75, 230];
            assert(frame@ =~= seq![35u8, 211, 255, 180]);
            assert(flare@ =~= seq![255u8, 206, 75, 230]);
            match target {
                Some(rect) => {
                    outline(rgba, width, height, rect, frame, 2);
                },
                None => {},
            }
            match pointer {
                Some(point) => {
                    let grown: u32 = phase * 8 / (if phases == 0 {
                        1
                    } else {
                        phases
                    });
                    let radius: i32 = if grown > 0x7fff_ffff {
                        18
                    } else {
                        10 + grown as i32
                    };
                    assert(radius == bloom(phase, phases));
                    ring(rgba, width, height, point, radius, radius + 3, flare);
                },
                None => {},
            }
        },
        Scene::Settled { pointer } => {
            let calm: [u8; 4] = [35, 211, 255, 150];
            assert(calm@ =~= seq![35u8, 211, 255, 150]);
            match pointer {
                Some(point) => {
                    ring(rgba, width, height, point, 5, 8, calm);
                },
                None => {},
            }
        },
        Scene::Chapter { title } => {
            chapter_card(rgba, width, height, title);
        },
    }
}

// ---------------------------------------------------------------------------
// Laws
// ---------------------------------------------------------------------------

/// Painting keeps a frame's size, leaves every byte outside the region and
/// behind the last pixel as it was, and makes every painted pixel opaque.
pub proof fn law_painting_stays_in_its_region(
    rgba: Seq<u8>,
    width: int,
    height: int,
    region: spec_fn(int, int) -> bool,
    color: Seq<u8>,
    index: int,
)
    requires
        0 <= index < rgba.len(),
    ensures
        painted(rgba, width, height, region, color).len() == rgba.len(),
        (index / 4 >= width * height || !region((index / 4) % width, (index / 4) / width))
            ==> painted(rgba, width, height, region, color)[index] == rgba[index],
        index / 4 < width * height && region((index / 4) % width, (index / 4) / width) && index % 4
            == 3 ==> painted(rgba, width, height, region, color)[index] == 255,
{
}

/// A scene keeps a frame's size and every byte behind its last pixel.
pub proof fn law_scenes_stay_in_the_frame(
    rgba: Seq<u8>,
    width: u32,
    height: u32,
    target: Option<Rect>,
    scene: Scene<'_>,
    index: int,
)
    requires
        0 <= index < rgba.len(),
    ensures
        scenic(rgba, width, height, target, scene).len() == rgba.len(),
        index / 4 >= width * height ==> scenic(rgba, width, height, target, scene)[index]
            == rgba[index],
{
}

/// A fully transparent color changes no channel, and a fully opaque one replaces
/// every channel.
pub proof fn law_mixing_extremes(under: u8, over: u8)
    ensures
        mixed(under, over, 0) == under,
        mixed(under, over, 255) == over,
{
}

/// Where the bytes of a pixel begin.
pub open spec fn pixel_at(width: u32, x: int, y: int) -> int {
    4 * (y * width + x)
}

/// Every channel of a painted pixel is the average of the color and of what was there,
/// weighted by the color's opacity and rounded down; the pixel becomes opaque, and a pixel
/// outside the region keeps its four bytes.
pub proof fn law_painted_pixels_are_weighted_averages(
    rgba: Seq<u8>,
    width: u32,
    height: u32,
    region: spec_fn(int, int) -> bool,
    color: Seq<u8>,
    x: int,
    y: int,
    channel: int,
)
    requires
        fits(rgba, width, height),
        0 <= x < width,
        0 <= y < height,
        0 <= channel < 4,
    ensures
        ({
            let at = pixel_at(width, x, y) + channel;
            let was = rgba[at] as int;
            let now = painted(rgba, width as int, height as int, region, color)[at] as int;
            let opacity = color[3] as int;
            &&& 0 <= at < rgba.len()
            &&& !region(x, y) ==> now == was
            &&& region(x, y) && channel == 3 ==> now == 255
            &&& region(x, y) && channel < 3 ==> 255 * now <= color[channel] * opacity + was * (255
                - opacity) < 255 * now + 255
        }),
{
    let at = pixel_at(width, x, y) + channel;
    let w = width as int;
    let h = height as int;
    lemma_pixel(w, h, x, y, at);
    assert(at / 4 == y * w + x);
    assert(at % 4 == channel);
    assert(width * height * 4 == w * h * 4);
    let was = rgba[at] as int;
    let opacity = color[3] as int;
    if channel < 3 {
        let sum = color[channel] * opacity + was * (255 - opacity);
        assert(0 <= sum <= 255 * 255) by (nonlinear_arith)
            requires
                sum == color[channel] * opacity + was * (255 - opacity),
                0 <= color[channel] <= 255,
                0 <= was <= 255,
                0 <= opacity <= 255,
        ;
    }
}

/// A filled rectangle covers the pixels from its left and top edges up to its right and
/// bottom ones, a ring those between its two radii, and a spot its own pixel.
pub proof fn law_regions_hold_their_pixels(
    rect: Rect,
    center: Point,
    inner: int,
    outer: int,
    x: int,
    y: int,
)
    ensures
        inside(rect)(x, y) <==> rect.left <= x && x < rect.right && rect.top <= y && y
            < rect.bottom,
        0 <= inner <= outer ==> (annulus(center, inner, outer)(x, y) <==> inner * inner <= (x
            - center.x) * (x - center.x) + (y - center.y) * (y - center.y) && (x - center.x) * (x
            - center.x) + (y - center.y) * (y - center.y) <= outer * outer),
        forall|px: int, py: int| #[trigger] spot(x, y)(px, py) <==> px == x && py == y,
{
    let dx = x - center.x;
    let dy = y - center.y;
    if 0 <= inner <= outer && dx * dx + dy * dy <= outer * outer {
        assert(-outer <= dx <= outer && -outer <= dy <= outer) by (nonlinear_arith)
            requires
                dx * dx + dy * dy <= outer * outer,
                0 <= outer,
        ;
    }
}

/// Outside the target and beyond the pointer's ring a scene shows the product's own pixels.
pub proof fn law_annotations_leave_the_rest_alone(
    rgba: Seq<u8>,
    width: u32,
    height: u32,
    target: Option<Rect>,
    scene: Scene<'_>,
    x: int,
    y: int,
    channel: int,
)
    requires
        fits(rgba, width, height),
        0 <= x < width,
        0 <= y < height,
        0 <= channel < 4,
        target matches Some(rect) ==> strokable(rect, 2) && rect.left + 2 <= rect.right && rect.top
            + 2 <= rect.bottom && !(rect.left <= x < rect.right && rect.top <= y < rect.bottom),
        ({
            let reach = match scene {
                Scene::Target { pointer } => Some((pointer, 14int)),
                Scene::Action { pointer: Some(pointer), phase, phases } => Some(
                    (pointer, bloom(phase, phases) + 3),
                ),
                Scene::Settled { pointer: Some(pointer) } => Some((pointer, 8int)),
                _ => None,
            };
            reach matches Some((pointer, radius)) ==> (x - pointer.x) * (x - pointer.x) + (y
                - pointer.y) * (y - pointer.y) > radius * radius
        }),
        !(scene is Chapter),
    ensures
        scenic(rgba, width, height, target, scene)[pixel_at(width, x, y) + channel]
            == rgba[pixel_at(width, x, y) + channel],
{
    let at = pixel_at(width, x, y) + channel;
    lemma_pixel(width as int, height as int, x, y, at);
    assert(at / 4 == y * width + x);
    assert(width * height * 4 == (width as int) * (height as int) * 4);
}

/// A targeted scene rings its pointer in white and then in blue, inside eleven and fourteen
/// pixels, over whatever stood there.
pub proof fn law_targets_are_ringed(
    rgba: Seq<u8>,
    width: u32,
    height: u32,
    pointer: Point,
    x: int,
    y: int,
    channel: int,
)
    requires
        fits(rgba, width, height),
        0 <= x < width,
        0 <= y < height,
        0 <= channel < 3,
    ensures
        ({
            let at = pixel_at(width, x, y) + channel;
            let away = (x - pointer.x) * (x - pointer.x) + (y - pointer.y) * (y - pointer.y);
            let now = scenic(rgba, width, height, None, Scene::Target { pointer })[at] as int;
            let white = 255 * 230 + rgba[at] * 25;
            &&& 64 <= away < 121 ==> 255 * now <= white < 255 * now + 255
            &&& away < 64 || away > 196 ==> now == rgba[at]
        }),
{
    let at = pixel_at(width, x, y) + channel;
    let w = width as int;
    let h = height as int;
    lemma_pixel(w, h, x, y, at);
    assert(at / 4 == y * w + x);
    assert(at % 4 == channel);
    assert(width * height * 4 == w * h * 4);
    law_regions_hold_their_pixels(Rect { left: 0, top: 0, right: 0, bottom: 0 }, pointer, 8, 11, x, y);
    law_regions_hold_their_pixels(Rect { left: 0, top: 0, right: 0, bottom: 0 }, pointer, 11, 14, x, y);
    let first = painted(rgba, w, h, annulus(pointer, 8, 11), seq![255u8, 255, 255, 230]);
    law_painted_pixels_are_weighted_averages(
        rgba,
        width,
        height,
        annulus(pointer, 8, 11),
        seq![255u8, 255, 255, 230],
        x,
        y,
        channel,
    );
    law_painted_pixels_are_weighted_averages(
        first,
        width,
        height,
        annulus(pointer, 11, 14),
        seq![20u8, 170, 220, 210],
        x,
        y,
        channel,
    );
}

/// A chapter card is centered, at least two hundred and forty pixels wide, and as high as its
/// lettering needs.
pub proof fn law_cards_are_centered(width: u32, height: u32, characters: nat)
    requires
        640 <= width <= 100_000,
        480 <= height <= 100_000,
        characters <= 100_000,
    ensures
        ({
            let card = panel(width, height, characters);
            let scale = lettering(width);
            &&& 2 <= scale <= 4
            &&& card.right - card.left >= 240
            &&& card.right - card.left <= width - 64
            &&& card.bottom - card.top == 8 * scale + 72
            &&& -1 <= card.left + card.right - width <= 1
            &&& -1 <= card.top + card.bottom - height <= 1
        }),
{
    let scale = lettering(width);
    let wanted = characters * 8 * scale + 96;
    assert(0 <= characters * 8 * scale <= 3_200_000) by (nonlinear_arith)
        requires
            0 <= characters <= 100_000,
            2 <= scale <= 4,
    ;
}

/// Above its card a chapter shows the product through a dark veil.
pub proof fn law_chapters_veil_the_product(
    rgba: Seq<u8>,
    width: u32,
    height: u32,
    title: &str,
    x: int,
    y: int,
    channel: int,
)
    requires
        fits(rgba, width, height),
        640 <= width <= 100_000,
        480 <= height <= 100_000,
        title@.len() <= 100_000,
        0 <= x < width,
        0 <= y < panel(width, height, title@.len()).top,
        0 <= channel < 3,
    ensures
        ({
            let at = pixel_at(width, x, y) + channel;
            let now = scenic(rgba, width, height, None, Scene::Chapter { title })[at] as int;
            let veil = if channel == 0 {
                4int
            } else if channel == 1 {
                9
            } else {
                13
            };
            255 * now <= veil * 150 + rgba[at] * 105 < 255 * now + 255
        }),
{
    let w = width as int;
    let h = height as int;
    let card = panel(width, height, title@.len());
    let scale = lettering(width);
    law_cards_are_centered(width, height, title@.len());
    let at = pixel_at(width, x, y) + channel;
    lemma_pixel(w, h, x, y, at);
    assert(at / 4 == y * w + x);
    assert(at % 4 == channel);
    assert(width * height * 4 == w * h * 4);
    let veil = seq![4u8, 9, 13, 150];
    let whole = inside(Rect { left: 0, top: 0, right: w as i32, bottom: h as i32 });
    assert(y < h);
    assert(whole(x, y));
    law_painted_pixels_are_weighted_averages(rgba, width, height, whole, veil, x, y, channel);
    let letters = inked(
        glyphs(title@),
        Point { x: (card.left + 48) as i32, y: (card.top + 36) as i32 },
        scale,
    );
    assert(!letters(x, y)) by {
        if letters(x, y) {
            let origin = Point { x: (card.left + 48) as i32, y: (card.top + 36) as i32 };
            let (column, row) = choose|column: int, row: int|
                lit(glyphs(title@), column, row) && #[trigger] in_cell(
                    origin,
                    scale,
                    column,
                    row,
                    x,
                    y,
                );
            assert(row * scale >= 0) by (nonlinear_arith)
                requires
                    row >= 0,
                    scale >= 0,
            ;
        }
    }
}

} // verus!
