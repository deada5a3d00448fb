//! Pixel helpers of the status display: colours, buffer indices and the
//! arrow patterns drawn on the keys.

use vstd::prelude::*;
use crate::processor::{UNIT, div_toward_zero};
use crate::gui::{Canvas, HEIGHT, WIDTH};

verus! {

/// Packs three 8-bit channels into one `0RGB` pixel.
pub fn from_rgb(red: u32, green: u32, blue: u32) -> (r: u32)
    ensures
        r == (red << 16u32) | (green << 8u32) | blue,
{
    (red << 16) | (green << 8) | blue
}

/// `min + value * (max - min)` for a signal `value` in fixed point, rounded
/// toward zero.
pub open spec fn mapped(value: int, min: int, max: int) -> int {
    div_toward_zero(min * UNIT + value * (max - min), UNIT as int)
}

/// Maps a magnitude in `[0, UNIT]` onto `[min, max]` (or `[max, min]`).
pub fn map_value(value: i64, min: i64, max: i64) -> (r: i64)
    requires
        0 <= value <= UNIT,
        0 <= min <= 0x1_0000,
        0 <= max <= 0x1_0000,
    ensures
        r == mapped(value as int, min as int, max as int),
        min <= max ==> min <= r <= max,
        max <= min ==> max <= r <= min,
{
    proof {
        lemma_mapped_between(value as int, min as int, max as int);
    }
    let total: i64 = min * UNIT + value * (max - min);
    (total / UNIT) as i64
}

proof fn lemma_mapped_between(value: int, min: int, max: int)
    requires
        0 <= value <= UNIT,
        0 <= min <= 0x1_0000,
        0 <= max <= 0x1_0000,
    ensures
        0 <= min * UNIT + value * (max - min) <= 0x1_0000 * UNIT,
        min <= max ==> min <= mapped(value, min, max) <= max,
        max <= min ==> max <= mapped(value, min, max) <= min,
{
    let total = min * UNIT + value * (max - min);
    assert(min <= max ==> min * UNIT <= total <= max * UNIT) by (nonlinear_arith)
        requires
            0 <= value <= UNIT,
            total == min * UNIT + value * (max - min),
    ;
    assert(max <= min ==> max * UNIT <= total <= min * UNIT) by (nonlinear_arith)
        requires
            0 <= value <= UNIT,
            total == min * UNIT + value * (max - min),
    ;
    assert(0 <= min * UNIT <= 0x1_0000 * UNIT) by (nonlinear_arith)
        requires
            0 <= min <= 0x1_0000,
    ;
    assert(0 <= max * UNIT <= 0x1_0000 * UNIT) by (nonlinear_arith)
        requires
            0 <= max <= 0x1_0000,
    ;
    vstd::arithmetic::div_mod::lemma_div_by_multiple(min, UNIT as int);
    vstd::arithmetic::div_mod::lemma_div_by_multiple(max, UNIT as int);
    if min <= max {
        vstd::arithmetic::div_mod::lemma_div_is_ordered(min * UNIT, total, UNIT as int);
        vstd::arithmetic::div_mod::lemma_div_is_ordered(total, max * UNIT, UNIT as int);
    } else {
        vstd::arithmetic::div_mod::lemma_div_is_ordered(max * UNIT, total, UNIT as int);
        vstd::arithmetic::div_mod::lemma_div_is_ordered(total, min * UNIT, UNIT as int);
    }
}

/// Index of pixel `(x, y)` in a row-major buffer of the given width.
pub fn get_index(x: usize, y: usize, width: usize) -> (r: usize)
    requires
        y * width + x <= usize::MAX,
    ensures
        r == y * width + x,
{
    y * width + x
}

/// Points of an arrow pattern: two wings of three-pixel-wide strokes, the
/// first of rows 0 to 7, the second of rows 1 to 7, `k` counting the
/// pixels in drawing order.
///
/// Orientation 0 points left, 1 up, 2 right and 4 down.
pub open spec fn arrow_point(orientation: int, k: int) -> (int, int) {
    let first = k < 24;
    let row = if first { k / 3 } else { (k - 24) / 3 + 1 };
    let col = k % 3;
    if orientation == 0 {
        (col + row - 6, if first { -row } else { row })
    } else if orientation == 1 {
        (if first { row } else { -row }, row - col - 3)
    } else if orientation == 2 {
        (col - row + 3, if first { -row } else { row })
    } else {
        (if first { row } else { -row }, col - row + 3)
    }
}

/// The pattern of an orientation: 45 points for 0, 1, 2 and 4, none for
/// any other.
pub open spec fn arrow_pattern(orientation: int) -> Seq<(int, int)> {
    if orientation == 0 || orientation == 1 || orientation == 2 || orientation == 4 {
        Seq::new(45, |k: int| arrow_point(orientation, k))
    } else {
        Seq::empty()
    }
}

/// The offsets of an arrow's pixels from its center.
pub fn get_arrow_pattern(orientation: usize) -> (r: Vec<(i16, i16)>)
    ensures
        r@.len() == arrow_pattern(orientation as int).len(),
        forall|k: int|
            0 <= k < r@.len() ==> (r@[k].0 as int, r@[k].1 as int) == #[trigger] arrow_pattern(
                orientation as int,
            )[k],
{
    let mut pattern: Vec<(i16, i16)> = Vec::new();
    if orientation == 0 || orientation == 1 || orientation == 2 || orientation == 4 {
        let mut k: i16 = 0;
        while k < 45
            invariant
                0 <= k <= 45,
                pattern@.len() == k,
                forall|j: int|
                    0 <= j < k ==> (pattern@[j].0 as int, pattern@[j].1 as int) == arrow_point(
                        orientation as int,
                        j,
                    ),
            decreases 45 - k,
        {
            let first = k < 24;
            let row: i16 = if first { k / 3 } else { (k - 24) / 3 + 1 };
            let col: i16 = k % 3;
            let point: (i16, i16) = if orientation == 0 {
                (col + row - 6, if first { -row } else { row })
            } else if orientation == 1 {
                (if first { row } else { -row }, row - col - 3)
            } else if orientation == 2 {
                (col - row + 3, if first { -row } else { row })
            } else {
                (if first { row } else { -row }, col - row + 3)
            };
            pattern.push(point);
            k = k + 1;
        }
    }
    pattern
}

/// A display of the steering and trigger bars drawn key by key onto a
/// canvas, which the caller presents and then clears.
pub struct Visualizer {
    pub canvas: Canvas,
}

/// Side of one container, in pixels.
const CONTAINER: usize = 64;

/// Every point of a pattern lies within `reach` pixels of its center on
/// both axes.
pub open spec fn pattern_within(pattern: Seq<(i16, i16)>, reach: int) -> bool {
    forall|k: int|
        0 <= k < pattern.len() ==> -reach <= #[trigger] pattern[k].0 <= reach && -reach
            <= pattern[k].1 <= reach
}

/// Arrow patterns stay within seven pixels of their center.
proof fn lemma_pattern_within(r: Seq<(i16, i16)>, orientation: int)
    requires
        r.len() == arrow_pattern(orientation).len(),
        forall|k: int|
            0 <= k < r.len() ==> (r[k].0 as int, r[k].1 as int) == #[trigger] arrow_pattern(
                orientation,
            )[k],
    ensures
        pattern_within(r, 7),
{
    assert forall|k: int| 0 <= k < r.len() implies -7 <= #[trigger] r[k].0 <= 7 && -7 <= r[k].1
        <= 7 by {
        assert((r[k].0 as int, r[k].1 as int) == arrow_pattern(orientation)[k]);
    }
}

impl Visualizer {
    /// The canvas holds the whole layout.
    pub open spec fn wf(&self) -> bool {
        &&& self.canvas.wf()
        &&& self.canvas.width >= WIDTH
        &&& self.canvas.height >= HEIGHT
    }

    /// A black display of the given size, which must hold the layout.
    pub fn new(width: usize, height: usize) -> (r: Visualizer)
        requires
            width >= WIDTH,
            height >= HEIGHT,
            width * height <= usize::MAX,
        ensures
            r.wf(),
            r.canvas.width == width,
            r.canvas.height == height,
            forall|i: int| 0 <= i < r.canvas.buffer@.len() ==> r.canvas.buffer@[i] == 0,
    {
        Visualizer { canvas: Canvas::new(width, height) }
    }

    /// Draws the two steering containers, filling the left one for a
    /// value at or below zero and the right one for a positive value, in
    /// proportion to its magnitude.
    pub fn update_steer(&mut self, value: i64)
        requires
            old(self).wf(),
            -UNIT <= value <= UNIT,
        ensures
            final(self).wf(),
            final(self).canvas.width == old(self).canvas.width,
            final(self).canvas.height == old(self).canvas.height,
    {
        let left_x: usize = 12;
        let right_x: usize = 12 * 3 + CONTAINER * 2;
        let start_y: usize = 12 * 2 + CONTAINER;
        let container_color = from_rgb(55, 55, 55);
        let border_color = from_rgb(95, 95, 95);

        self.canvas.draw_rect(left_x, start_y, CONTAINER, CONTAINER, Some(container_color));
        self.canvas.draw_rect(right_x, start_y, CONTAINER, CONTAINER, Some(container_color));

        let fill_color = from_rgb(55, 155, 255);
        if value <= 0 {
            let mapped = map_value(-value, CONTAINER as i64, 0) as usize;
            self.canvas.draw_rect(left_x + mapped, start_y, CONTAINER - mapped, CONTAINER, Some(fill_color));
        } else {
            let mapped = map_value(value, 0, CONTAINER as i64) as usize;
            self.canvas.draw_rect(right_x, start_y, mapped, CONTAINER, Some(fill_color));
        }

        self.draw_border(left_x, start_y, CONTAINER, CONTAINER, border_color);
        self.draw_border(right_x, start_y, CONTAINER, CONTAINER, border_color);

        let left = get_arrow_pattern(0);
        let right = get_arrow_pattern(2);
        proof {
            lemma_pattern_within(left@, 0);
            lemma_pattern_within(right@, 2);
        }
        self.draw_pattern(left_x + CONTAINER / 2, start_y + CONTAINER / 2, left);
        self.draw_pattern(right_x + CONTAINER / 2, start_y + CONTAINER / 2, right);
    }

    /// Draws the two trigger containers: the right trigger fills the top
    /// one from below, the left trigger the bottom one from above.
    pub fn update_triggers(&mut self, left_trigger: i64, right_trigger: i64)
        requires
            old(self).wf(),
            0 <= left_trigger <= UNIT,
            0 <= right_trigger <= UNIT,
        ensures
            final(self).wf(),
            final(self).canvas.width == old(self).canvas.width,
            final(self).canvas.height == old(self).canvas.height,
    {
        let start_x: usize = 12 * 2 + CONTAINER;
        let top_y: usize = 12;
        let bottom_y: usize = 12 * 2 + CONTAINER;
        let container_color = from_rgb(55, 55, 55);
        let border_color = from_rgb(95, 95, 95);

        self.canvas.draw_rect(start_x, top_y, CONTAINER, CONTAINER, Some(container_color));
        self.canvas.draw_rect(start_x, bottom_y, CONTAINER, CONTAINER, Some(container_color));

        let mapped_top = map_value(right_trigger, CONTAINER as i64, 0) as usize;
        let mapped_bottom = map_value(left_trigger, 0, CONTAINER as i64) as usize;
        let top_color = from_rgb(0, 215, 0);
        let bottom_color = from_rgb(255, 0, 0);

        self.canvas.draw_rect(start_x, top_y + mapped_top, CONTAINER, CONTAINER - mapped_top, Some(top_color));
        self.canvas.draw_rect(start_x, bottom_y, CONTAINER, mapped_bottom, Some(bottom_color));

        self.draw_border(start_x, top_y, CONTAINER, CONTAINER, border_color);
        self.draw_border(start_x, bottom_y, CONTAINER, CONTAINER, border_color);

        let up = get_arrow_pattern(1);
        let down = get_arrow_pattern(4);
        proof {
            lemma_pattern_within(up@, 1);
            lemma_pattern_within(down@, 4);
        }
        self.draw_pattern(start_x + CONTAINER / 2, top_y + CONTAINER / 2, up);
        self.draw_pattern(start_x + CONTAINER / 2, bottom_y + CONTAINER / 2, down);
    }

    /// Paints the one-pixel outline of a rectangle; every other pixel keeps
    /// its value.
    pub fn draw_border(&mut self, x: usize, y: usize, width: usize, height: usize, color: u32)
        requires
            old(self).wf(),
            x + width <= old(self).canvas.width,
            y + height <= old(self).canvas.height,
        ensures
            final(self).wf(),
            final(self).canvas.width == old(self).canvas.width,
            final(self).canvas.height == old(self).canvas.height,
            forall|px: int, py: int|
                old(self).canvas.on_grid(px, py) ==> #[trigger] final(self).canvas.pixel(px, py)
                    == if x <= px < x + width && y <= py < y + height && (px == x || py == y || px
                    == x + width - 1 || py == y + height - 1) {
                    color
                } else {
                    old(self).canvas.pixel(px, py)
                },
    {
        if width == 0 || height == 0 {
            return;
        }
        self.canvas.draw_rect(x, y, width, 1, Some(color));
        self.canvas.draw_rect(x, y + height - 1, width, 1, Some(color));
        self.canvas.draw_rect(x, y, 1, height, Some(color));
        self.canvas.draw_rect(x + width - 1, y, 1, height, Some(color));
    }

    /// Paints each offset of `pattern` from `(x, y)` white.
    pub fn draw_pattern(&mut self, x: usize, y: usize, pattern: Vec<(i16, i16)>)
        requires
            old(self).wf(),
            7 <= x < WIDTH - 7,
            7 <= y < HEIGHT - 7,
            pattern_within(pattern@, 7),
        ensures
            final(self).wf(),
            final(self).canvas.width == old(self).canvas.width,
            final(self).canvas.height == old(self).canvas.height,
    {
        let color = from_rgb(255, 255, 255);
        let mut i: usize = 0;
        while i < pattern.len()
            invariant
                self.wf(),
                self.canvas.width == old(self).canvas.width,
                self.canvas.height == old(self).canvas.height,
                7 <= x < WIDTH - 7,
                7 <= y < HEIGHT - 7,
                pattern_within(pattern@, 7),
                0 <= i <= pattern@.len(),
            decreases pattern@.len() - i,
        {
            let (dx, dy) = pattern[i];
            let px: usize = if dx >= 0 { x + dx as usize } else { x - (-dx) as usize };
            let py: usize = if dy >= 0 { y + dy as usize } else { y - (-dy) as usize };
            self.canvas.set_pixel(px, py, color);
            i = i + 1;
        }
    }
}

} // verus!
