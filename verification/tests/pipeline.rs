use linden_tree::canvas::{Canvas, Color};
use linden_tree::geometry::{compute_bounds, Point, Vertex};
use linden_tree::raster::draw_line;
use linden_tree::rule::TableRule;
use linden_tree::symbol::Symbol;
use linden_tree::system::System;
use linden_tree::turtle::Turtle;

const SIZE: u32 = 64;
const WHITE: Color = Color { r: 255, g: 255, b: 255 };
const BLACK: Color = Color { r: 0, g: 0, b: 0 };

fn grammar() -> Vec<(u32, Vec<Symbol>)> {
    let pi = std::f64::consts::PI;
    vec![
        (
            0,
            vec![
                Symbol::Push,
                Symbol::Turn((-pi / 6.0).to_bits()),
                Symbol::Translate(10.0f64.to_bits()),
                Symbol::Generic(1),
                Symbol::Pop,
                Symbol::Push,
                Symbol::Turn((pi / 4.0).to_bits()),
                Symbol::Translate(15.0f64.to_bits()),
                Symbol::Generic(0),
                Symbol::Pop,
            ],
        ),
        (
            1,
            vec![
                Symbol::Push,
                Symbol::Turn((-pi / 12.0).to_bits()),
                Symbol::Translate(12.0f64.to_bits()),
                Symbol::Generic(1),
                Symbol::Pop,
                Symbol::Push,
                Symbol::Turn((pi / 8.0).to_bits()),
                Symbol::Translate(45.0f64.to_bits()),
                Symbol::Generic(0),
                Symbol::Pop,
            ],
        ),
    ]
}

fn interpret(symbols: &[Symbol]) -> Vec<Vertex> {
    let mut t = Turtle::new();
    for sym in symbols {
        match *sym {
            Symbol::Push => t.save(),
            Symbol::Pop => t.restore().expect("Pop with an empty state stack"),
            Symbol::Turn(a) => {
                let st = t.state();
                t.turn_to((f64::from_bits(st.heading) + f64::from_bits(a)).to_bits());
            }
            Symbol::Translate(d) => {
                let st = t.state();
                let h = f64::from_bits(st.heading);
                let dist = f64::from_bits(d);
                let nx = f64::from_bits(st.x) + dist * h.cos();
                let ny = f64::from_bits(st.y) + dist * h.sin();
                t.advance_to(nx.to_bits(), ny.to_bits());
            }
            Symbol::Generic(_) => {}
        }
    }
    t.into_points()
}

/// Runs the whole pipeline: expand the grammar, interpret it, fit the
/// geometry into the canvas, rasterize every segment.
fn render(generations: usize) -> (Vec<Vertex>, Canvas) {
    let mut system = System::new(TableRule::new(grammar()));
    system.init(vec![Symbol::Generic(0)]);
    system.run(generations).expect("the grammar covers its ids");
    let vertices = interpret(system.symbols());

    // Demote to single precision before fitting the geometry.
    let points: Vec<Point> = vertices
        .iter()
        .map(|v| Point {
            x: (f64::from_bits(v.x) as f32).to_bits(),
            y: (f64::from_bits(v.y) as f32).to_bits(),
        })
        .collect();

    let b = compute_bounds(&points);
    let margin = 2.0f32;
    let (sxmin, symin) = (f32::from_bits(b.xmin) - margin, f32::from_bits(b.ymin) - margin);
    let (sxmax, symax) = (f32::from_bits(b.xmax) + margin, f32::from_bits(b.ymax) + margin);
    let (txmin, tymin, txmax, tymax) = (0.0f32, 0.0f32, SIZE as f32, SIZE as f32);

    let map = |x: f32, y: f32| -> (f32, f32) {
        (
            (txmax - txmin) * (x - sxmin) / (sxmax - sxmin) + txmin,
            (tymax - tymin) * (y - symin) / (symax - symin) + tymin,
        )
    };

    let mut canvas = Canvas::new(SIZE, SIZE, WHITE);
    let mut i = 0;
    while i + 1 < points.len() {
        let (x0, y0) = map(f32::from_bits(points[i].x), f32::from_bits(points[i].y));
        let (x1, y1) = map(f32::from_bits(points[i + 1].x), f32::from_bits(points[i + 1].y));
        let (dx, dy) = (x1 - x0, y1 - y0);
        let length = dx.abs().max(dy.abs());
        let mut steps = Vec::new();
        if length != 0.0 {
            let (x_step, y_step) = (dx / length, dy / length);
            for s in 0..(length as u32) {
                let x = x0 + x_step * (s as f32);
                let y = y0 + y_step * (s as f32);
                steps.push((x as u32, y as u32));
            }
        }
        draw_line(
            &mut canvas,
            Point { x: x0.to_bits(), y: y0.to_bits() },
            Point { x: x1.to_bits(), y: y1.to_bits() },
            &steps,
            BLACK,
        );
        i += 2;
    }
    (vertices, canvas)
}

#[test]
fn pipeline_is_deterministic() {
    let (points_a, canvas_a) = render(5);
    let (points_b, canvas_b) = render(5);
    assert_eq!(points_a, points_b);
    for y in 0..SIZE {
        for x in 0..SIZE {
            assert_eq!(canvas_a.get_pixel(x, y), canvas_b.get_pixel(x, y));
        }
    }
}

#[test]
fn pipeline_draws_something_inside_the_canvas() {
    let (points, canvas) = render(4);
    assert!(!points.is_empty());
    assert_eq!(points.len() % 2, 0);
    let mut black = 0;
    for y in 0..SIZE {
        for x in 0..SIZE {
            if canvas.get_pixel(x, y) == BLACK {
                black += 1;
            }
        }
    }
    assert!(black > 0);
}
