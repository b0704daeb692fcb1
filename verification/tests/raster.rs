use std::rc::Rc;

use rasterizer::color_shader::execute;
use rasterizer::common::{
    combine_interpolated, interpolated_zeros, Color, FaceShader, Interpolator, Light, PixelInfo,
    Point, Point3D,
};
use rasterizer::drawable::{line_points, triangle_points, Drawable};
use rasterizer::fixed::{FX_HALF, FX_ONE};
use rasterizer::normal_drawable::{DeferredDrawable, NormalDrawable};

fn payload(depth: i64) -> [i64; 9] {
    let mut p = interpolated_zeros();
    p[0] = depth;
    p
}

fn flat_shader(color: Color) -> Rc<FaceShader> {
    Rc::new(FaceShader { color, lights: Vec::new(), texture: None })
}

fn shade_flat(color: Color, depth: i64) -> Color {
    let info = PixelInfo {
        shader: Some(flat_shader(color)),
        interpolated: payload(depth),
    };
    execute(&info)
}

#[test]
fn interpolator_yields_exact_samples() {
    // From 0.3 to 0.9 in eight steps: nine samples, evenly spaced, the
    // endpoints exact.
    let a = 5033165i64;
    let b = 15099494i64;
    let mut lows = interpolated_zeros();
    let mut highs = interpolated_zeros();
    for k in 0..9 {
        lows[k] = a;
        highs[k] = b;
    }
    let interpolator = Interpolator::new(combine_interpolated(lows, highs));
    let mut sampler = interpolator.interpolator(8);
    for i in 0..9i64 {
        let values = sampler.next();
        for k in 0..9 {
            assert_eq!(values[k], a + (b - a) * i / 8);
        }
    }
}

#[test]
fn horizontal_line_carries_exact_payloads() {
    let a = payload(100);
    let b = payload(900);
    let p0 = Point { x: 0usize, y: 0usize, interpolated: a };
    let p1 = Point { x: 8usize, y: 0usize, interpolated: b };
    let pts = line_points(p0, p1);
    assert_eq!(pts.len(), 9);
    assert_eq!(pts[0].interpolated, a);
    assert_eq!(pts[8].interpolated, b);
    for i in 0..9usize {
        assert_eq!(pts[i].x, i);
        assert_eq!(pts[i].y, 0);
        assert_eq!(pts[i].interpolated[0], 100 + 800 * (i as i64) / 8);
    }
}

#[test]
fn diagonal_line_visits_every_column() {
    let p0 = Point { x: 0usize, y: 0usize, interpolated: payload(0) };
    let p1 = Point { x: 5usize, y: 2usize, interpolated: payload(0) };
    let pts = line_points(p0, p1);
    assert_eq!(pts.len(), 6);
    for i in 0..6usize {
        assert_eq!(pts[i].x, i);
        assert!(pts[i].y <= 2);
    }
    assert_eq!(pts[0].y, 0);
    assert_eq!(pts[5].y, 2);
}

#[test]
fn line_is_symmetric_in_its_endpoints() {
    // The walk normalizes its direction: either endpoint order visits the
    // same pixels, with the channel endpoints swapped to match.
    let p0 = Point { x: 1usize, y: 1usize, interpolated: payload(0) };
    let p1 = Point { x: 6usize, y: 4usize, interpolated: payload(FX_ONE / 2) };
    let forward = line_points(p0, p1);
    let backward = line_points(p1, p0);
    assert_eq!(forward.len(), backward.len());
    for i in 0..forward.len() {
        assert_eq!(forward[i].x, backward[i].x);
        assert_eq!(forward[i].y, backward[i].y);
        assert_eq!(forward[i].interpolated, backward[i].interpolated);
    }
    let last = forward.len() - 1;
    assert_eq!(forward[0].interpolated[0], 0);
    assert_eq!(forward[last].interpolated[0], FX_ONE / 2);
}

#[test]
fn triangle_fills_its_interior() {
    let p0 = Point { x: 0usize, y: 0usize, interpolated: payload(0) };
    let p1 = Point { x: 4usize, y: 0usize, interpolated: payload(0) };
    let p2 = Point { x: 0usize, y: 4usize, interpolated: payload(0) };
    let pts = triangle_points(p0, p1, p2);
    // Every pixel of the right triangle under the diagonal is visited.
    for x in 0..5usize {
        for y in 0..(5 - x) {
            assert!(pts.iter().any(|p| p.x == x && p.y == y));
        }
    }
}

#[test]
fn depth_test_keeps_the_nearer_write_in_either_order() {
    let red = Color::new(FX_ONE, 0, 0);
    let blue = Color::new(0, 0, FX_ONE);
    let near = Point { x: 0usize, y: 0usize, interpolated: payload(FX_HALF / 2) };
    let far = Point { x: 0usize, y: 0usize, interpolated: payload(FX_HALF) };
    let expected = shade_flat(blue, FX_HALF / 2);

    let mut surface = NormalDrawable::new((1, 1));
    surface.set_pixel_data(far, &flat_shader(red));
    surface.set_pixel_data(near, &flat_shader(blue));
    let frame = surface.display();
    assert_eq!(frame[0].r, expected.r);
    assert_eq!(frame[0].b, expected.b);

    let mut surface = NormalDrawable::new((1, 1));
    surface.set_pixel_data(near, &flat_shader(blue));
    surface.set_pixel_data(far, &flat_shader(red));
    let frame = surface.display();
    assert_eq!(frame[0].r, expected.r);
    assert_eq!(frame[0].b, expected.b);
}

#[test]
fn depth_test_keeps_the_first_of_equal_writes() {
    let red = Color::new(FX_ONE, 0, 0);
    let blue = Color::new(0, 0, FX_ONE);
    let at = Point { x: 0usize, y: 0usize, interpolated: payload(FX_HALF) };
    let expected = shade_flat(red, FX_HALF);

    let mut surface = NormalDrawable::new((1, 1));
    surface.set_pixel_data(at, &flat_shader(red));
    surface.set_pixel_data(at, &flat_shader(blue));
    let frame = surface.display();
    assert_eq!(frame[0].r, expected.r);
    assert_eq!(frame[0].b, expected.b);
}

#[test]
fn out_of_range_depth_is_discarded() {
    let red = Color::new(FX_ONE, 0, 0);
    let mut surface = NormalDrawable::new((2, 2));
    surface.set_pixel_data(
        Point { x: 0usize, y: 0usize, interpolated: payload(2 * FX_ONE) },
        &flat_shader(red),
    );
    surface.set_pixel_data(
        Point { x: 1usize, y: 1usize, interpolated: payload(-2 * FX_ONE) },
        &flat_shader(red),
    );
    let frame = surface.display();
    for c in frame.iter() {
        assert_eq!(c.r, 0);
        assert_eq!(c.g, 0);
        assert_eq!(c.b, 0);
    }
}

#[test]
fn out_of_bounds_pixels_are_discarded() {
    let red = Color::new(FX_ONE, 0, 0);
    let mut surface = NormalDrawable::new((2, 2));
    surface.set_pixel_data(
        Point { x: 5usize, y: 0usize, interpolated: payload(0) },
        &flat_shader(red),
    );
    surface.set_pixel_data(
        Point { x: 0usize, y: 7usize, interpolated: payload(0) },
        &flat_shader(red),
    );
    let frame = surface.display();
    for c in frame.iter() {
        assert_eq!(c.r, 0);
    }
}

fn viewport_point(x: i64, y: i64, depth: i64, normal_y: i64) -> Point<i64> {
    let mut p = interpolated_zeros();
    p[0] = depth;
    // The world position stays at the origin and the normal points up, so
    // every pixel of the quad shades identically.
    p[5] = normal_y;
    Point { x, y, interpolated: p }
}

fn draw_full_quad<D: Drawable>(surface: &mut D, shader: &Rc<FaceShader>, depth: i64) {
    let a = viewport_point(0, 0, depth, FX_ONE);
    let b = viewport_point(FX_ONE, 0, depth, FX_ONE);
    let c = viewport_point(FX_ONE, FX_ONE, depth, FX_ONE);
    let d = viewport_point(0, FX_ONE, depth, FX_ONE);
    surface.triangle(a, b, c, shader);
    surface.triangle(a, c, d, shader);
}

#[test]
fn quad_under_one_light_shades_every_pixel_alike() {
    let gray = Color::new(FX_HALF, FX_HALF, FX_HALF);
    let lights = vec![Light {
        position: Point3D { x: 0, y: 50 * FX_ONE, z: 0 },
        intensity: 6710886,
    }];
    let shader = Rc::new(FaceShader { color: gray, lights, texture: None });
    let mut surface = NormalDrawable::new((4, 4));
    draw_full_quad(&mut surface, &shader, 0);
    let frame = surface.display();
    assert_eq!(frame.len(), 16);
    let first = frame[0];
    // The light sits straight above: every pixel carries one identical,
    // lit (nonzero) color.
    assert!(first.r > 0);
    for c in frame.iter() {
        assert_eq!(c.r, first.r);
        assert_eq!(c.g, first.g);
        assert_eq!(c.b, first.b);
    }
}

#[test]
fn triangle_outside_depth_range_leaves_background() {
    let gray = Color::new(FX_HALF, FX_HALF, FX_HALF);
    let shader = flat_shader(gray);
    let mut surface = NormalDrawable::new((4, 4));
    let a = viewport_point(0, 0, 2 * FX_ONE, FX_ONE);
    let b = viewport_point(FX_ONE, 0, 2 * FX_ONE, FX_ONE);
    let c = viewport_point(0, FX_ONE, 2 * FX_ONE, FX_ONE);
    surface.triangle(a, b, c, &shader);
    let frame = surface.display();
    for p in frame.iter() {
        assert_eq!(p.r, 0);
        assert_eq!(p.g, 0);
        assert_eq!(p.b, 0);
    }
}

#[test]
fn deferred_and_immediate_agree_on_a_scene() {
    let gray = Color::new(FX_HALF, FX_HALF, FX_HALF);
    let red = Color::new(FX_ONE, FX_HALF / 2, 0);
    let lights = vec![Light {
        position: Point3D { x: 10 * FX_ONE, y: 20 * FX_ONE, z: 5 * FX_ONE },
        intensity: FX_HALF,
    }];
    let shader_a = Rc::new(FaceShader { color: gray, lights: lights.clone(), texture: None });
    let shader_b = Rc::new(FaceShader { color: red, lights, texture: None });

    let mut immediate = NormalDrawable::new((8, 8));
    let mut deferred = DeferredDrawable::new((8, 8));
    for surface_pass in 0..2 {
        let a = viewport_point(0, 0, 0, FX_ONE);
        let b = viewport_point(FX_HALF, 0, 0, FX_ONE);
        let c = viewport_point(0, FX_HALF, 0, FX_ONE);
        let d = viewport_point(FX_ONE, FX_ONE, -FX_HALF, FX_ONE);
        let e = viewport_point(FX_HALF, FX_ONE, -FX_HALF, FX_ONE);
        let f = viewport_point(FX_ONE, FX_HALF, -FX_HALF, FX_ONE);
        if surface_pass == 0 {
            immediate.triangle(a, b, c, &shader_a);
            immediate.triangle(d, e, f, &shader_b);
        } else {
            deferred.triangle(a, b, c, &shader_a);
            deferred.triangle(d, e, f, &shader_b);
        }
    }
    let left = immediate.display();
    let right = deferred.display();
    assert_eq!(left.len(), right.len());
    for i in 0..left.len() {
        assert_eq!(left[i].r, right[i].r);
        assert_eq!(left[i].g, right[i].g);
        assert_eq!(left[i].b, right[i].b);
    }
}

#[test]
fn wireframe_draws_only_edges() {
    let gray = flat_shader(Color::new(FX_HALF, FX_HALF, FX_HALF));
    let mut surface = NormalDrawable::new((8, 8));
    let a = viewport_point(0, 0, 0, FX_ONE);
    let b = viewport_point(FX_ONE, 0, 0, FX_ONE);
    let c = viewport_point(0, FX_ONE, 0, FX_ONE);
    surface.triangle_wireframe(a, b, c, &gray);
    let frame = surface.display();
    // The row above the bottom edge is lit only at its ends' columns.
    let shaded = shade_flat(Color::new(FX_HALF, FX_HALF, FX_HALF), 0);
    let row = 8 - 1 - 2;
    let mut lit = 0;
    for x in 0..8usize {
        if frame[row * 8 + x].r == shaded.r {
            lit += 1;
        }
    }
    assert!(lit >= 1 && lit <= 3);
}
