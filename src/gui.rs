//! Shapes of the status display.

use vstd::prelude::*;
use crate::visualizer::{arrow_point, map_value};
use crate::processor::{Processor, UNIT};
use crate::pipeline::Output;

verus! {

/// Packs three 8-bit channels into one `0RGB` pixel.
pub fn rgb(red: u32, green: u32, blue: u32) -> (r: u32)
    ensures
        r == (red << 16u32) | (green << 8u32) | blue,
{
    (red << 16) | (green << 8) | blue
}

/// A set of pixel offsets from a center point.
pub struct Shape {
    pub shape: Vec<(i8, i8)>,
}

/// Whole quarter turns, from 0 to 3, in an angle given in degrees.
pub open spec fn quarter_turns(angle: int) -> int {
    (angle / 90) % 4
}

/// A point turned counterclockwise (in screen axes: clockwise) by `turns`
/// quarter turns.
pub open spec fn turned(p: (int, int), turns: int) -> (int, int) {
    if turns == 0 {
        p
    } else if turns == 1 {
        (-p.1, p.0)
    } else if turns == 2 {
        (-p.0, -p.1)
    } else {
        (p.1, -p.0)
    }
}

pub open spec fn as_ints(p: (i8, i8)) -> (int, int) {
    (p.0 as int, p.1 as int)
}

impl Shape {
    /// An arrow pointing right, turned by `angle` degrees if one is given.
    ///
    /// Turning is by whole quarter turns, which map the pixel grid onto
    /// itself exactly.
    pub fn arrow(angle: Option<i32>) -> (r: Shape)
        requires
            angle matches Some(a) ==> a % 90 == 0,
        ensures
            r.shape@.len() == 45,
            forall|k: int|
                0 <= k < 45 ==> #[trigger] as_ints(r.shape@[k]) == turned(
                    arrow_point(2, k),
                    match angle {
                        Some(a) => quarter_turns(a as int),
                        None => 0,
                    },
                ),
    {
        let mut shape: Vec<(i8, i8)> = Vec::new();
        let mut dy: i8 = 0;
        while dy < 8
            invariant
                0 <= dy <= 8,
                shape@.len() == 3 * dy,
                forall|k: int| 0 <= k < shape@.len() ==> #[trigger] as_ints(shape@[k]) == arrow_point(2, k),
            decreases 8 - dy,
        {
            let mut dx: i8 = 0;
            while dx < 3
                invariant
                    0 <= dy < 8,
                    0 <= dx <= 3,
                    shape@.len() == 3 * dy + dx,
                    forall|k: int| 0 <= k < shape@.len() ==> #[trigger] as_ints(shape@[k]) == arrow_point(2, k),
                decreases 3 - dx,
            {
                proof {
                    let k = 3 * dy + dx;
                    assert(k / 3 == dy && k % 3 == dx) by {
                        vstd::arithmetic::div_mod::lemma_fundamental_div_mod_converse(k, 3, dy as int, dx as int);
                    }
                }
                shape.push((dx - dy + 3, -dy));
                dx = dx + 1;
            }
            dy = dy + 1;
        }
        let mut dy: i8 = 1;
        while dy < 8
            invariant
                1 <= dy <= 8,
                shape@.len() == 21 + 3 * dy,
                forall|k: int| 0 <= k < shape@.len() ==> #[trigger] as_ints(shape@[k]) == arrow_point(2, k),
            decreases 8 - dy,
        {
            let mut dx: i8 = 0;
            while dx < 3
                invariant
                    1 <= dy < 8,
                    0 <= dx <= 3,
                    shape@.len() == 21 + 3 * dy + dx,
                    forall|k: int| 0 <= k < shape@.len() ==> #[trigger] as_ints(shape@[k]) == arrow_point(2, k),
                decreases 3 - dx,
            {
                proof {
                    let k = 21 + 3 * dy + dx;
                    assert((k - 24) / 3 == dy - 1 && k % 3 == dx) by {
                        vstd::arithmetic::div_mod::lemma_fundamental_div_mod_converse(k - 24, 3, dy - 1, dx as int);
                        vstd::arithmetic::div_mod::lemma_fundamental_div_mod_converse(k, 3, dy + 7, dx as int);
                    }
                }
                shape.push((dx - dy + 3, dy));
                dx = dx + 1;
            }
            dy = dy + 1;
        }
        assert forall|k: int| 0 <= k < shape@.len() implies shape@[k].0 > i8::MIN && shape@[k].1 > i8::MIN by {
            assert(as_ints(shape@[k]) == arrow_point(2, k));
        }
        match angle {
            Some(a) => {
                shape = Shape::rotate(&shape, a);
            },
            None => {},
        }
        Shape { shape }
    }

    /// Turns every point of a shape by `angle` degrees, a whole number of
    /// quarter turns.
    pub fn rotate(shape: &Vec<(i8, i8)>, angle: i32) -> (r: Vec<(i8, i8)>)
        requires
            angle % 90 == 0,
            forall|k: int| 0 <= k < shape@.len() ==> shape@[k].0 > i8::MIN && shape@[k].1 > i8::MIN,
        ensures
            r@.len() == shape@.len(),
            forall|k: int|
                0 <= k < r@.len() ==> #[trigger] as_ints(r@[k]) == turned(
                    as_ints(shape@[k]),
                    quarter_turns(angle as int),
                ),
    {
        let turns: i32 = quarter_turns_of(angle);
        let mut rotated_shape: Vec<(i8, i8)> = Vec::new();
        let mut i: usize = 0;
        while i < shape.len()
            invariant
                0 <= i <= shape@.len(),
                turns == quarter_turns(angle as int),
                rotated_shape@.len() == i,
                forall|k: int| 0 <= k < shape@.len() ==> shape@[k].0 > i8::MIN && shape@[k].1 > i8::MIN,
                forall|k: int|
                    0 <= k < i ==> #[trigger] as_ints(rotated_shape@[k]) == turned(
                        as_ints(shape@[k]),
                        turns as int,
                    ),
            decreases shape@.len() - i,
        {
            let (x, y) = shape[i];
            let point: (i8, i8) = if turns == 0 {
                (x, y)
            } else if turns == 1 {
                (-y, x)
            } else if turns == 2 {
                (-x, -y)
            } else {
                (y, -x)
            };
            rotated_shape.push(point);
            i = i + 1;
        }
        rotated_shape
    }
}

/// A row-major buffer of `0RGB` pixels.
pub struct Canvas {
    pub buffer: Vec<u32>,
    pub width: usize,
    pub height: usize,
}

/// Offsets of distinct pixels of a row-major grid land on distinct indices
/// inside the buffer.
proof fn lemma_index(width: int, height: int, x1: int, y1: int, x2: int, y2: int)
    requires
        0 <= x1 < width,
        0 <= y1 < height,
        0 <= x2 < width,
        0 <= y2 < height,
    ensures
        0 <= y1 * width + x1 < width * height,
        y1 * width + x1 == y2 * width + x2 ==> x1 == x2 && y1 == y2,
{
    assert(0 <= y1 * width + x1 < width * height) by (nonlinear_arith)
        requires
            0 <= x1 < width,
            0 <= y1 < height,
    ;
    if y1 * width + x1 == y2 * width + x2 {
        vstd::arithmetic::div_mod::lemma_fundamental_div_mod_converse(y1 * width + x1, width, y1, x1);
        vstd::arithmetic::div_mod::lemma_fundamental_div_mod_converse(y1 * width + x1, width, y2, x2);
    }
}

impl Canvas {
    /// The buffer holds one pixel per cell of the grid.
    pub open spec fn wf(&self) -> bool {
        &&& self.buffer@.len() == self.width * self.height
        &&& self.width * self.height <= usize::MAX
    }

    /// The pixel at column `x` and row `y`.
    pub open spec fn pixel(&self, x: int, y: int) -> u32 {
        self.buffer@[y * self.width + x]
    }

    /// Whether `(x, y)` lies on the grid.
    pub open spec fn on_grid(&self, x: int, y: int) -> bool {
        0 <= x < self.width && 0 <= y < self.height
    }

    /// A black canvas of the given size.
    pub fn new(width: usize, height: usize) -> (r: Canvas)
        requires
            width * height <= usize::MAX,
        ensures
            r.wf(),
            r.width == width,
            r.height == height,
            forall|i: int| 0 <= i < r.buffer@.len() ==> r.buffer@[i] == 0,
    {
        Canvas { buffer: vec![0; width * height], width, height }
    }

    /// Index of pixel `(x, y)` in the buffer.
    pub fn to_index(&self, x: usize, y: usize) -> (r: usize)
        requires
            self.wf(),
            self.on_grid(x as int, y as int),
        ensures
            r == y * self.width + x,
            r < self.buffer@.len(),
    {
        proof {
            lemma_index(self.width as int, self.height as int, x as int, y as int, x as int, y as int);
        }
        y * self.width + x
    }

    /// Sets pixel `(x, y)`.
    pub fn set_pixel(&mut self, x: usize, y: usize, value: u32)
        requires
            old(self).wf(),
            old(self).on_grid(x as int, y as int),
        ensures
            final(self).wf(),
            final(self).width == old(self).width,
            final(self).height == old(self).height,
            final(self).buffer@ == old(self).buffer@.update(y * old(self).width + x, value),
    {
        let index = self.to_index(x, y);
        self.buffer.set(index, value);
    }

    /// Paints every pixel black.
    pub fn clear_buffer(&mut self)
        requires
            old(self).wf(),
        ensures
            final(self).wf(),
            final(self).width == old(self).width,
            final(self).height == old(self).height,
            forall|i: int| 0 <= i < final(self).buffer@.len() ==> final(self).buffer@[i] == 0,
    {
        let mut i: usize = 0;
        while i < self.buffer.len()
            invariant
                self.wf(),
                self.width == old(self).width,
                self.height == old(self).height,
                0 <= i <= self.buffer@.len(),
                forall|j: int| 0 <= j < i ==> self.buffer@[j] == 0,
            decreases self.buffer@.len() - i,
        {
            self.buffer.set(i, 0);
            i = i + 1;
        }
    }

    /// Fills the rectangle of the given corner and size with `color`, white
    /// if none is given; every other pixel keeps its value.
    pub fn draw_rect(&mut self, x: usize, y: usize, width: usize, height: usize, color: Option<u32>)
        requires
            old(self).wf(),
            x + width <= old(self).width,
            y + height <= old(self).height,
        ensures
            final(self).wf(),
            final(self).width == old(self).width,
            final(self).height == old(self).height,
            forall|px: int, py: int|
                old(self).on_grid(px, py) ==> #[trigger] final(self).pixel(px, py) == if x <= px < x
                    + width && y <= py < y + height {
                    color.unwrap_or(0xFF_FFFF)
                } else {
                    old(self).pixel(px, py)
                },
    {
        let white = rgb(255, 255, 255);
        assert(white == 0xFF_FFFF) by (bit_vector)
            requires
                white == (255u32 << 16u32) | (255u32 << 8u32) | 255u32,
        ;
        let fill: u32 = color.unwrap_or(white);
        let ghost start = *self;
        let mut dy: usize = 0;
        while dy < height
            invariant
                self.wf(),
                self.width == start.width,
                self.height == start.height,
                start.wf(),
                x + width <= start.width,
                y + height <= start.height,
                0 <= dy <= height,
                forall|px: int, py: int|
                    start.on_grid(px, py) ==> #[trigger] self.pixel(px, py) == if x <= px < x + width
                        && y <= py < y + dy {
                        fill
                    } else {
                        start.pixel(px, py)
                    },
            decreases height - dy,
        {
            let mut dx: usize = 0;
            while dx < width
                invariant
                    self.wf(),
                    self.width == start.width,
                    self.height == start.height,
                    start.wf(),
                    x + width <= start.width,
                    y + height <= start.height,
                    0 <= dy < height,
                    0 <= dx <= width,
                    forall|px: int, py: int|
                        start.on_grid(px, py) ==> #[trigger] self.pixel(px, py) == if (x <= px < x
                            + width && y <= py < y + dy) || (py == y + dy && x <= px < x + dx) {
                            fill
                        } else {
                            start.pixel(px, py)
                        },
                decreases width - dx,
            {
                let ghost before = *self;
                self.set_pixel(x + dx, y + dy, fill);
                assert forall|px: int, py: int| start.on_grid(px, py) implies #[trigger] self.pixel(px, py)
                    == if (x <= px < x + width && y <= py < y + dy) || (py == y + dy && x <= px < x + dx
                    + 1) {
                    fill
                } else {
                    start.pixel(px, py)
                } by {
                    lemma_index(
                        start.width as int,
                        start.height as int,
                        px,
                        py,
                        (x + dx) as int,
                        (y + dy) as int,
                    );
                    lemma_index(
                        start.width as int,
                        start.height as int,
                        (x + dx) as int,
                        (y + dy) as int,
                        px,
                        py,
                    );
                    let i = py * start.width + px;
                    let j = (y + dy) * start.width + (x + dx);
                    assert(self.buffer@ == before.buffer@.update(j, fill));
                    assert(0 <= i < self.buffer@.len());
                    if px == x + dx && py == y + dy {
                        assert(self.buffer@[i] == fill);
                    } else {
                        assert(i != j);
                        assert(self.buffer@[i] == before.buffer@[i]);
                        assert(before.pixel(px, py) == before.buffer@[i]);
                    }
                }
                dx = dx + 1;
            }
            dy = dy + 1;
        }
    }

    /// Paints every point of `shape`, placed at `(x, y)`, with `color`,
    /// white if none is given; every other pixel keeps its value.
    pub fn draw_shape(&mut self, x: usize, y: usize, shape: Shape, color: Option<u32>)
        requires
            old(self).wf(),
            forall|k: int|
                0 <= k < shape.shape@.len() ==> old(self).on_grid(
                    x + #[trigger] shape.shape@[k].0,
                    y + shape.shape@[k].1,
                ),
        ensures
            final(self).wf(),
            final(self).width == old(self).width,
            final(self).height == old(self).height,
            forall|k: int|
                0 <= k < shape.shape@.len() ==> final(self).pixel(
                    x + #[trigger] shape.shape@[k].0,
                    y + shape.shape@[k].1,
                ) == color.unwrap_or(0xFF_FFFF),
            forall|px: int, py: int|
                old(self).on_grid(px, py) && (forall|k: int|
                    0 <= k < shape.shape@.len() ==> (x + #[trigger] shape.shape@[k].0, y
                        + shape.shape@[k].1) != (px, py)) ==> #[trigger] final(self).pixel(px, py)
                    == old(self).pixel(px, py),
    {
        let white = rgb(255, 255, 255);
        assert(white == 0xFF_FFFF) by (bit_vector)
            requires
                white == (255u32 << 16u32) | (255u32 << 8u32) | 255u32,
        ;
        let fill: u32 = color.unwrap_or(white);
        let ghost start = *self;
        let points = &shape.shape;
        let mut i: usize = 0;
        while i < points.len()
            invariant
                self.wf(),
                start.wf(),
                self.width == start.width,
                self.height == start.height,
                points == &shape.shape,
                0 <= i <= points@.len(),
                forall|k: int|
                    0 <= k < points@.len() ==> start.on_grid(
                        x + #[trigger] points@[k].0,
                        y + points@[k].1,
                    ),
                forall|k: int|
                    0 <= k < i ==> self.pixel(x + #[trigger] points@[k].0, y + points@[k].1)
                        == fill,
                forall|px: int, py: int|
                    start.on_grid(px, py) && (forall|k: int|
                        0 <= k < i ==> (x + #[trigger] points@[k].0, y + points@[k].1) != (px,
                            py)) ==> #[trigger] self.pixel(px, py) == start.pixel(px, py),
            decreases points@.len() - i,
        {
            let (dx, dy) = points[i];
            let px: usize = if dx >= 0 {
                x + dx as usize
            } else {
                x - (-(dx as i16)) as usize
            };
            let py: usize = if dy >= 0 {
                y + dy as usize
            } else {
                y - (-(dy as i16)) as usize
            };
            let ghost before = *self;
            self.set_pixel(px, py, fill);
            proof {
                let j = py * start.width + px;
                assert forall|k: int| 0 <= k < i + 1 implies self.pixel(
                    x + #[trigger] points@[k].0,
                    y + points@[k].1,
                ) == fill by {
                    let qx = x + points@[k].0;
                    let qy = y + points@[k].1;
                    lemma_index(start.width as int, start.height as int, qx, qy, px as int, py as int);
                    lemma_index(start.width as int, start.height as int, px as int, py as int, qx, qy);
                    if k < i && (qx, qy) != (px as int, py as int) {
                        assert(self.buffer@[qy * start.width + qx] == before.buffer@[qy * start.width + qx]);
                    }
                }
                assert forall|qx: int, qy: int|
                    start.on_grid(qx, qy) && (forall|k: int|
                        0 <= k < i + 1 ==> (x + #[trigger] points@[k].0, y + points@[k].1) != (qx,
                            qy)) implies #[trigger] self.pixel(qx, qy) == start.pixel(qx, qy) by {
                    assert((x + points@[i as int].0, y + points@[i as int].1) != (qx, qy));
                    lemma_index(start.width as int, start.height as int, qx, qy, px as int, py as int);
                    lemma_index(start.width as int, start.height as int, px as int, py as int, qx, qy);
                    assert(self.buffer@[qy * start.width + qx] == before.buffer@[qy * start.width + qx]);
                    assert(forall|k: int|
                        0 <= k < i ==> (x + #[trigger] points@[k].0, y + points@[k].1) != (qx, qy));
                    assert(before.pixel(qx, qy) == start.pixel(qx, qy));
                }
            }
            i = i + 1;
        }
    }
}

/// Side of one key of the display, in pixels.
pub const KEY_SIZE: usize = 64;

/// Gap between keys and around them, in pixels.
pub const GAP_SIZE: usize = 12;

/// Width of the display: three keys and four gaps.
pub const WIDTH: usize = 240;

/// Height of the display: two rows of keys and three gaps.
pub const HEIGHT: usize = 164;

pub const ROW_1: usize = GAP_SIZE;

pub const ROW_2: usize = KEY_SIZE + GAP_SIZE * 2;

pub const COL_1: usize = GAP_SIZE;

pub const COL_2: usize = ROW_2;

pub const COL_3: usize = COL_2 + KEY_SIZE + GAP_SIZE;

/// The status display: four keys laid out as arrow keys, each filled in
/// proportion to the signal it shows and darkened while its axis is
/// frozen.
pub struct Visualizer {
    pub canvas: Canvas,
    /// Up key: the right trigger.
    pub tval: i64,
    /// Left key: the lateral axis left of center.
    pub lval: i64,
    /// Down key: the left trigger.
    pub bval: i64,
    /// Right key: the lateral axis right of center.
    pub rval: i64,
    pub hor_lock: bool,
    pub ver_lock: bool,
}

/// Every point of a shape lies within `reach` pixels of its center on both
/// axes.
pub open spec fn within(shape: Seq<(i8, i8)>, reach: int) -> bool {
    forall|k: int|
        0 <= k < shape.len() ==> -reach <= #[trigger] shape[k].0 <= reach && -reach <= shape[k].1
            <= reach
}

/// The arrow shapes stay within seven pixels of their center.
proof fn lemma_arrow_within(r: Shape, turns: int)
    requires
        r.shape@.len() == 45,
        forall|k: int|
            0 <= k < 45 ==> #[trigger] as_ints(r.shape@[k]) == turned(arrow_point(2, k), turns),
    ensures
        within(r.shape@, 7),
{
    assert forall|k: int| 0 <= k < r.shape@.len() implies -7 <= #[trigger] r.shape@[k].0 <= 7 && -7
        <= r.shape@[k].1 <= 7 by {
        assert(as_ints(r.shape@[k]) == turned(arrow_point(2, k), turns));
    }
}

impl Visualizer {
    pub open spec fn wf(&self) -> bool {
        &&& self.canvas.wf()
        &&& self.canvas.width == WIDTH
        &&& self.canvas.height == HEIGHT
        &&& 0 <= self.tval <= UNIT
        &&& 0 <= self.lval <= UNIT
        &&& 0 <= self.bval <= UNIT
        &&& 0 <= self.rval <= UNIT
    }

    /// A blank display with every key empty and live.
    pub fn new() -> (r: Visualizer)
        ensures
            r.wf(),
            r.tval == 0 && r.lval == 0 && r.bval == 0 && r.rval == 0,
            !r.hor_lock && !r.ver_lock,
    {
        Visualizer {
            canvas: Canvas::new(WIDTH, HEIGHT),
            tval: 0,
            lval: 0,
            bval: 0,
            rval: 0,
            hor_lock: false,
            ver_lock: false,
        }
    }

    /// Takes the values of one tick: the lateral value split over the left
    /// and right keys, the two triggers on the down and up keys, and which
    /// axes are held at neutral.
    pub fn show(&mut self, output: &Output)
        requires
            old(self).wf(),
            -UNIT <= output.steer <= UNIT,
            -UNIT <= output.throttle <= UNIT,
        ensures
            final(self).wf(),
            final(self).canvas == old(self).canvas,
            final(self).lval == crate::processor::split_of(output.steer as int).0,
            final(self).rval == crate::processor::split_of(output.steer as int).1,
            final(self).bval == crate::processor::split_of(output.throttle as int).0,
            final(self).tval == crate::processor::split_of(output.throttle as int).1,
            final(self).hor_lock == output.steer_neutral,
            final(self).ver_lock == output.throttle_neutral,
    {
        let (lval, rval) = Processor::split(output.steer);
        let (bval, tval) = Processor::split(output.throttle);
        self.lval = lval;
        self.rval = rval;
        self.bval = bval;
        self.tval = tval;
        self.hor_lock = output.steer_neutral;
        self.ver_lock = output.throttle_neutral;
    }

    /// Renders the keys, their fill and their arrows into the canvas.
    pub fn draw(&mut self)
        requires
            old(self).wf(),
        ensures
            final(self).wf(),
            final(self).tval == old(self).tval && final(self).lval == old(self).lval,
            final(self).bval == old(self).bval && final(self).rval == old(self).rval,
            final(self).hor_lock == old(self).hor_lock && final(self).ver_lock == old(self).ver_lock,
    {
        self.draw_container_keys();
        self.draw_values();
        self.draw_arrows();
    }

    fn draw_values(&mut self)
        requires
            old(self).wf(),
        ensures
            final(self).wf(),
            final(self).tval == old(self).tval && final(self).lval == old(self).lval,
            final(self).bval == old(self).bval && final(self).rval == old(self).rval,
            final(self).hor_lock == old(self).hor_lock && final(self).ver_lock == old(self).ver_lock,
    {
        let top_color = rgb(0, 215, 0);
        let bottom_color = rgb(215, 0, 0);
        let side_color = rgb(55, 155, 255);
        let key = KEY_SIZE as i64;
        let top_mapped = map_value(self.tval, key, 0) as usize;
        let left_mapped = map_value(self.lval, key, 0) as usize;
        let bottom_mapped = map_value(self.bval, 0, key) as usize;
        let right_mapped = map_value(self.rval, 0, key) as usize;
        self.canvas.draw_rect(COL_2, ROW_1 + top_mapped, KEY_SIZE, KEY_SIZE - top_mapped, Some(top_color));
        self.canvas.draw_rect(COL_1 + left_mapped, ROW_2, KEY_SIZE - left_mapped, KEY_SIZE, Some(side_color));
        self.canvas.draw_rect(COL_2, ROW_2, KEY_SIZE, bottom_mapped, Some(bottom_color));
        self.canvas.draw_rect(COL_3, ROW_2, right_mapped, KEY_SIZE, Some(side_color));
    }

    fn draw_container_keys(&mut self)
        requires
            old(self).wf(),
        ensures
            final(self).wf(),
            final(self).tval == old(self).tval && final(self).lval == old(self).lval,
            final(self).bval == old(self).bval && final(self).rval == old(self).rval,
            final(self).hor_lock == old(self).hor_lock && final(self).ver_lock == old(self).ver_lock,
    {
        let ver_lock = self.ver_lock;
        let hor_lock = self.hor_lock;
        self.draw_container_key(COL_2, ROW_1, ver_lock);
        self.draw_container_key(COL_1, ROW_2, hor_lock);
        self.draw_container_key(COL_2, ROW_2, ver_lock);
        self.draw_container_key(COL_3, ROW_2, hor_lock);
    }

    fn draw_arrows(&mut self)
        requires
            old(self).wf(),
        ensures
            final(self).wf(),
            final(self).tval == old(self).tval && final(self).lval == old(self).lval,
            final(self).bval == old(self).bval && final(self).rval == old(self).rval,
            final(self).hor_lock == old(self).hor_lock && final(self).ver_lock == old(self).ver_lock,
    {
        let half_size = KEY_SIZE / 2;
        let up = Shape::arrow(Some(-90));
        let left = Shape::arrow(Some(180));
        let down = Shape::arrow(Some(90));
        let right = Shape::arrow(Some(0));
        proof {
            lemma_arrow_within(up, quarter_turns(-90));
            lemma_arrow_within(left, quarter_turns(180));
            lemma_arrow_within(down, quarter_turns(90));
            lemma_arrow_within(right, quarter_turns(0));
        }
        self.draw_arrow(COL_2 + half_size, ROW_1 + half_size, up);
        self.draw_arrow(COL_1 + half_size, ROW_2 + half_size, left);
        self.draw_arrow(COL_2 + half_size, ROW_2 + half_size, down);
        self.draw_arrow(COL_3 + half_size, ROW_2 + half_size, right);
    }

    fn draw_container_key(&mut self, x: usize, y: usize, locked: bool)
        requires
            old(self).wf(),
            x + KEY_SIZE <= WIDTH,
            y + KEY_SIZE <= HEIGHT,
        ensures
            final(self).wf(),
            final(self).tval == old(self).tval && final(self).lval == old(self).lval,
            final(self).bval == old(self).bval && final(self).rval == old(self).rval,
            final(self).hor_lock == old(self).hor_lock && final(self).ver_lock == old(self).ver_lock,
    {
        let color = if locked {
            rgb(25, 25, 25)
        } else {
            rgb(55, 55, 55)
        };
        self.canvas.draw_rect(x, y, KEY_SIZE, KEY_SIZE, Some(color));
    }

    fn draw_arrow(&mut self, x: usize, y: usize, shape: Shape)
        requires
            old(self).wf(),
            7 <= x < WIDTH - 7,
            7 <= y < HEIGHT - 7,
            within(shape.shape@, 7),
        ensures
            final(self).wf(),
            final(self).tval == old(self).tval && final(self).lval == old(self).lval,
            final(self).bval == old(self).bval && final(self).rval == old(self).rval,
            final(self).hor_lock == old(self).hor_lock && final(self).ver_lock == old(self).ver_lock,
    {
        let white = rgb(255, 255, 255);
        self.canvas.draw_shape(x, y, shape, Some(white));
    }
}

fn quarter_turns_of(angle: i32) -> (r: i32)
    requires
        angle % 90 == 0,
    ensures
        r == quarter_turns(angle as int),
        0 <= r < 4,
{
    if angle >= 0 {
        (angle / 90) % 4
    } else {
        let m: i32 = ((-(angle as i64)) / 90) as i32;
        proof {
            let a = angle as int;
            vstd::arithmetic::div_mod::lemma_fundamental_div_mod(a, 90);
            vstd::arithmetic::div_mod::lemma_fundamental_div_mod(-a, 90);
            assert(a / 90 == -m);
            vstd::arithmetic::div_mod::lemma_fundamental_div_mod(-m, 4);
            vstd::arithmetic::div_mod::lemma_fundamental_div_mod(m as int, 4);
            assert((-m) % 4 == (4 - m % 4) % 4) by {
                let r = m % 4;
                let q = m / 4;
                if r == 0 {
                    vstd::arithmetic::div_mod::lemma_fundamental_div_mod_converse(-m, 4, -q, 0);
                } else {
                    vstd::arithmetic::div_mod::lemma_fundamental_div_mod_converse(-m, 4, -q - 1, 4 - r);
                }
            }
        }
        (4 - m % 4) % 4
    }
}

} // verus!
