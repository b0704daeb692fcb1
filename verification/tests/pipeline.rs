use rasterizer::common::{combine_interpolated, interpolated_zeros, Interpolator, Light, Point3D};
use rasterizer::fixed::FX_ONE;
use rasterizer::model::Model;
use rasterizer::normal_drawable::{DeferredDrawable, NormalDrawable};
use rasterizer::renderer::{Camera, Object, Transform};

fn to_fx(v: f64) -> i64 {
    (v * FX_ONE as f64) as i64
}

#[test]
fn interpolation() {
    // From 0.3 in every channel to 0.9 in every channel over eight steps:
    // the samples are evenly spaced over the closed interval, each within a
    // thousandth of the exact line.
    let mut values0 = interpolated_zeros();
    for value in values0.iter_mut() {
        *value = to_fx(0.3);
    }

    let mut values1 = interpolated_zeros();
    for value in values1.iter_mut() {
        *value = to_fx(0.9);
    }

    let interpolator = Interpolator::new(combine_interpolated(values0, values1));

    let amount = 8;
    let mut interpolator = interpolator.interpolator(amount);

    for a in 0..amount {
        let values = interpolator.next();

        let iter = values0.iter().zip(values1.iter()).zip(values.iter());
        for ((value0, value1), test_value) in iter {
            let a = a as f64 / amount as f64;
            let correct = *value0 as f64 * (1.0 - a) + *value1 as f64 * a;

            assert!((correct - *test_value as f64).abs() < 0.001 * FX_ONE as f64);
        }
    }
}

fn quad_model(flip_winding: bool) -> Model {
    let mut model = Model::new();
    let corners = [
        (-0.5f64, -0.5f64),
        (0.5, -0.5),
        (0.5, 0.5),
        (-0.5, 0.5),
    ];
    for (x, y) in corners.iter() {
        model.vertices.push(to_fx(*x));
        model.vertices.push(to_fx(*y));
        model.vertices.push(0);
    }
    let faces: [[usize; 3]; 2] = if flip_winding {
        [[0, 2, 1], [0, 3, 2]]
    } else {
        [[0, 1, 2], [0, 2, 3]]
    };
    for face in faces.iter() {
        for corner in face.iter() {
            model.indices.push(*corner);
        }
        model.material_indices.push(None);
    }
    assert!(model.check_draw_wf());
    model
}

fn scene_object<'a>(model: &'a Model, camera: &'a Camera, lights: &'a Vec<Light>) -> Object<'a> {
    let transform = Transform::new(
        (0, 0, -2 * FX_ONE),
        (FX_ONE, FX_ONE, FX_ONE),
        0,
        (to_fx(0.2), to_fx(0.3), to_fx(0.4)),
    );
    Object::new(model, transform, camera, lights)
}

#[test]
fn the_full_pipeline_renders_the_same_frame_on_both_surfaces() {
    let model = quad_model(false);
    let camera = Camera::new(to_fx(0.1), 100 * FX_ONE, to_fx(1.047), FX_ONE);
    let lights = vec![Light {
        position: Point3D { x: 0, y: 20 * FX_ONE, z: 10 * FX_ONE },
        intensity: to_fx(0.4),
    }];
    let object = scene_object(&model, &camera, &lights);

    let mut immediate = NormalDrawable::new((16, 16));
    object.draw(&mut immediate);
    let left = immediate.display();

    let mut deferred = DeferredDrawable::new((16, 16));
    object.draw(&mut deferred);
    let right = deferred.display();

    assert_eq!(left.len(), right.len());
    let mut lit = 0;
    for i in 0..left.len() {
        assert_eq!(left[i].r, right[i].r);
        assert_eq!(left[i].g, right[i].g);
        assert_eq!(left[i].b, right[i].b);
        if left[i].r != 0 || left[i].g != 0 || left[i].b != 0 {
            lit += 1;
        }
    }
    // The quad faces the camera, so some pixels are shaded.
    assert!(lit > 0);
}

#[test]
fn a_backfacing_quad_contributes_no_pixels() {
    let model = quad_model(true);
    let camera = Camera::new(to_fx(0.1), 100 * FX_ONE, to_fx(1.047), FX_ONE);
    let lights = vec![Light {
        position: Point3D { x: 0, y: 20 * FX_ONE, z: 10 * FX_ONE },
        intensity: to_fx(0.4),
    }];
    let object = scene_object(&model, &camera, &lights);

    let mut surface = NormalDrawable::new((16, 16));
    object.draw(&mut surface);
    let frame = surface.display();
    for c in frame.iter() {
        assert_eq!(c.r, 0);
        assert_eq!(c.g, 0);
        assert_eq!(c.b, 0);
    }
}
