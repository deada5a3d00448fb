use mouse_steering::gui::{rgb, Canvas, Shape, Visualizer, HEIGHT, WIDTH};
use mouse_steering::pipeline::Output;
use mouse_steering::visualizer::Visualizer as Bars;
use mouse_steering::visualizer::{from_rgb, get_arrow_pattern, get_index, map_value};

#[test]
fn colours_pack_channels() {
    assert_eq!(from_rgb(55, 155, 255), 0x379BFF);
    assert_eq!(rgb(0, 215, 0), 0x00D700);
    assert_eq!(rgb(255, 255, 255), 0xFFFFFF);
}

#[test]
fn index_is_row_major() {
    assert_eq!(get_index(3, 2, 10), 23);
    assert_eq!(get_index(0, 0, 10), 0);
}

#[test]
fn map_value_between_bounds() {
    assert_eq!(map_value(500_000, 64, 0), 32);
    assert_eq!(map_value(10_000, 64, 0), 63);
    assert_eq!(map_value(1_000_000, 0, 64), 64);
    assert_eq!(map_value(0, 0, 64), 0);
}

#[test]
fn arrow_patterns() {
    let left = get_arrow_pattern(0);
    assert_eq!(left.len(), 45);
    assert_eq!(left[0], (-6, 0));
    assert_eq!(left[23], (3, -7));
    assert_eq!(left[24], (-5, 1));
    let up = get_arrow_pattern(1);
    assert_eq!(up[0], (0, -3));
    assert_eq!(up[44], (-7, 2));
    let down = get_arrow_pattern(4);
    assert_eq!(down[5], (1, 4));
    assert!(get_arrow_pattern(3).is_empty());
    assert!(get_arrow_pattern(9).is_empty());
}

#[test]
fn arrow_shape_and_turns() {
    let right = Shape::arrow(None);
    assert_eq!(right.shape.len(), 45);
    assert_eq!(right.shape, get_arrow_pattern(2).iter().map(|&(x, y)| (x as i8, y as i8)).collect::<Vec<_>>());
    let same = Shape::arrow(Some(0));
    assert_eq!(same.shape, right.shape);
    let down = Shape::arrow(Some(90));
    let left = Shape::arrow(Some(180));
    let up = Shape::arrow(Some(-90));
    let up_again = Shape::arrow(Some(270));
    for k in 0..45 {
        let (x, y) = right.shape[k];
        assert_eq!(down.shape[k], (-y, x));
        assert_eq!(left.shape[k], (-x, -y));
        assert_eq!(up.shape[k], (y, -x));
    }
    assert_eq!(up.shape, up_again.shape);
    assert_eq!(Shape::rotate(&vec![(1, 2)], -450), vec![(2, -1)]);
}

#[test]
fn canvas_rect_and_shape() {
    let mut canvas = Canvas::new(8, 4);
    canvas.draw_rect(1, 1, 3, 2, Some(7));
    assert_eq!(canvas.buffer[canvas.to_index(1, 1)], 7);
    assert_eq!(canvas.buffer[canvas.to_index(3, 2)], 7);
    assert_eq!(canvas.buffer[canvas.to_index(4, 2)], 0);
    assert_eq!(canvas.buffer[canvas.to_index(1, 3)], 0);
    canvas.draw_shape(5, 1, Shape { shape: vec![(-1, 0), (2, 2)] }, None);
    assert_eq!(canvas.buffer[canvas.to_index(4, 1)], 0xFFFFFF);
    assert_eq!(canvas.buffer[canvas.to_index(7, 3)], 0xFFFFFF);
    canvas.set_pixel(0, 0, 9);
    assert_eq!(canvas.buffer[0], 9);
    canvas.clear_buffer();
    assert!(canvas.buffer.iter().all(|&p| p == 0));
}

#[test]
fn display_shows_a_tick() {
    let mut display = Visualizer::new();
    assert_eq!(display.canvas.buffer.len(), WIDTH * HEIGHT);
    let output = Output {
        thumb_lx: -16383,
        left_trigger: 0,
        right_trigger: 63,
        steer: -500_000,
        throttle: 250_000,
        steer_neutral: false,
        throttle_neutral: true,
    };
    display.show(&output);
    assert_eq!((display.lval, display.rval), (500_000, 0));
    assert_eq!((display.bval, display.tval), (0, 250_000));
    assert!(!display.hor_lock && display.ver_lock);
    display.draw();
    // Left key: its right half is filled, its left edge is the key colour.
    assert_eq!(display.canvas.buffer[get_index(12 + 63, 88 + 1, WIDTH)], rgb(55, 155, 255));
    assert_eq!(display.canvas.buffer[get_index(12, 88 + 1, WIDTH)], rgb(55, 55, 55));
    // Up key is locked and darker.
    assert_eq!(display.canvas.buffer[get_index(88, 12, WIDTH)], rgb(25, 25, 25));
    // Arrow tip in the center of the right key.
    assert_eq!(display.canvas.buffer[get_index(164 + 32 + 3, 88 + 32, WIDTH)], 0xFFFFFF);
}

#[test]
fn steer_bars_fill_by_side() {
    let mut bars = Bars::new(WIDTH, HEIGHT);
    bars.update_steer(-500_000);
    let at = |b: &Bars, x: usize, y: usize| b.canvas.buffer[get_index(x, y, WIDTH)];
    // Left container: right half filled, left half empty; border at its edge.
    assert_eq!(at(&bars, 12 + 40, 88 + 2), from_rgb(55, 155, 255));
    assert_eq!(at(&bars, 12 + 10, 88 + 2), from_rgb(55, 55, 55));
    assert_eq!(at(&bars, 12, 88 + 2), from_rgb(95, 95, 95));
    // Right container stays empty.
    assert_eq!(at(&bars, 164 + 10, 88 + 2), from_rgb(55, 55, 55));
    bars.canvas.clear_buffer();
    bars.update_steer(1_000_000);
    assert_eq!(at(&bars, 164 + 62, 88 + 2), from_rgb(55, 155, 255));
    assert_eq!(at(&bars, 12 + 62, 88 + 2), from_rgb(55, 55, 55));
}

#[test]
fn trigger_bars_fill_toward_the_center() {
    let mut bars = Bars::new(WIDTH, HEIGHT);
    bars.update_triggers(250_000, 1_000_000);
    let at = |b: &Bars, x: usize, y: usize| b.canvas.buffer[get_index(x, y, WIDTH)];
    // Right trigger at full: the top container is green inside its border.
    assert_eq!(at(&bars, 88 + 5, 12 + 5), from_rgb(0, 215, 0));
    // Left trigger at a quarter: the bottom container's top 16 rows are red.
    assert_eq!(at(&bars, 88 + 5, 88 + 10), from_rgb(255, 0, 0));
    assert_eq!(at(&bars, 88 + 5, 88 + 20), from_rgb(55, 55, 55));
}

#[test]
fn border_outlines_only() {
    let mut bars = Bars::new(WIDTH, HEIGHT);
    bars.draw_border(2, 3, 4, 5, 6);
    let at = |b: &Bars, x: usize, y: usize| b.canvas.buffer[get_index(x, y, WIDTH)];
    assert_eq!(at(&bars, 2, 3), 6);
    assert_eq!(at(&bars, 5, 7), 6);
    assert_eq!(at(&bars, 3, 7), 6);
    assert_eq!(at(&bars, 3, 4), 0);
    assert_eq!(at(&bars, 6, 7), 0);
    bars.draw_pattern(20, 20, vec![(-3, 2)]);
    assert_eq!(at(&bars, 17, 22), 0xFFFFFF);
}
