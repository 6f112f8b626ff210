use linden_tree::canvas::{Canvas, Color};
use linden_tree::geometry::Point;
use linden_tree::raster::draw_line;

const WHITE: Color = Color { r: 255, g: 255, b: 255 };
const BLACK: Color = Color { r: 0, g: 0, b: 0 };

fn pt(x: f32, y: f32) -> Point {
    Point { x: x.to_bits(), y: y.to_bits() }
}

fn count_color(canvas: &Canvas, color: Color) -> usize {
    let mut n = 0;
    for y in 0..canvas.height() {
        for x in 0..canvas.width() {
            if canvas.get_pixel(x, y) == color {
                n += 1;
            }
        }
    }
    n
}

#[test]
fn new_canvas_is_background() {
    let canvas = Canvas::new(8, 8, WHITE);
    assert_eq!(canvas.width(), 8);
    assert_eq!(canvas.height(), 8);
    assert_eq!(count_color(&canvas, WHITE), 64);
}

#[test]
fn put_and_get_pixel_round_trip() {
    let mut canvas = Canvas::new(8, 8, WHITE);
    canvas.put_pixel(3, 5, BLACK);
    assert_eq!(canvas.get_pixel(3, 5), BLACK);
    assert_eq!(canvas.get_pixel(5, 3), WHITE);
    assert_eq!(count_color(&canvas, BLACK), 1);
}

#[test]
fn out_of_range_write_is_discarded() {
    let mut canvas = Canvas::new(8, 8, WHITE);
    canvas.put_pixel(8, 0, BLACK);
    canvas.put_pixel(0, 8, BLACK);
    canvas.put_pixel(1000, 1000, BLACK);
    assert_eq!(count_color(&canvas, WHITE), 64);
}

#[test]
fn degenerate_segment_plots_exactly_one_pixel() {
    let mut canvas = Canvas::new(8, 8, WHITE);
    // Equal endpoints: the steps are ignored and no division by the zero
    // length ever happens; exactly the one pixel at the endpoint is set.
    draw_line(&mut canvas, pt(0.0, 0.0), pt(0.0, 0.0), &vec![(4, 4), (5, 5)], BLACK);
    assert_eq!(canvas.get_pixel(0, 0), BLACK);
    assert_eq!(count_color(&canvas, BLACK), 1);
}

#[test]
fn degenerate_segment_with_negative_zero() {
    let mut canvas = Canvas::new(8, 8, WHITE);
    // Minus zero equals plus zero numerically, so this is still degenerate.
    draw_line(&mut canvas, pt(0.0, -0.0), pt(-0.0, 0.0), &Vec::new(), BLACK);
    assert_eq!(canvas.get_pixel(0, 0), BLACK);
    assert_eq!(count_color(&canvas, BLACK), 1);
}

#[test]
fn steps_are_plotted_in_range_only() {
    let mut canvas = Canvas::new(8, 8, WHITE);
    let steps = vec![(0, 0), (1, 1), (2, 2), (100, 100)];
    draw_line(&mut canvas, pt(0.0, 0.0), pt(3.0, 3.0), &steps, BLACK);
    assert_eq!(canvas.get_pixel(0, 0), BLACK);
    assert_eq!(canvas.get_pixel(1, 1), BLACK);
    assert_eq!(canvas.get_pixel(2, 2), BLACK);
    assert_eq!(count_color(&canvas, BLACK), 3);
}

#[test]
fn stepping_interpolation_draws_horizontal_line() {
    let mut canvas = Canvas::new(8, 8, WHITE);
    let (p0, p1) = (pt(0.0, 2.0), pt(5.0, 2.0));
    // The caller's interpolation: one pixel per unit of the longer axis
    // span, truncated.
    let (x0, y0) = (0.0f32, 2.0f32);
    let (dx, dy) = (5.0f32 - x0, 2.0f32 - y0);
    let length = dx.abs().max(dy.abs());
    let (x_step, y_step) = (dx / length, dy / length);
    let mut steps = Vec::new();
    for i in 0..(length as u32) {
        let x = x0 + x_step * (i as f32);
        let y = y0 + y_step * (i as f32);
        steps.push((x as u32, y as u32));
    }
    draw_line(&mut canvas, p0, p1, &steps, BLACK);
    for x in 0..5 {
        assert_eq!(canvas.get_pixel(x, 2), BLACK);
    }
    assert_eq!(count_color(&canvas, BLACK), 5);
}
