//! The shading function: a pure map from one pixel's interpolated
//! attributes and its face shader to a final color, computing ambient,
//! diffuse and specular light with a stylized two-sided tone blend.

use vstd::prelude::*;

use crate::common::{
    color_lerp_spec, v3_dot_spec, v3_neg_spec, v3_normalized_spec, v3_reflect_spec, v3_sub_spec,
    Color, ColorV, LightV, PixelInfo, PixelInfoV, Point2D, Point3D, ShaderValue, V3,
};
use crate::fixed::{fx_add, fx_add_spec, fx_mul, fx_mul_spec, fx_sub, fx_sub_spec, FX_ONE};
use crate::texture::tex_pixel_spec;

verus! {

/// The ambient brightness added to every lit pixel: one fifth of full.
pub const AMBIENT: i64 = 3355443;

/// The offset of the stylized tone blend: three tenths of full brightness.
pub const TONE_OFFSET: i64 = 5033165;

/// Zero if the scalar is negative, the scalar itself otherwise.
pub open spec fn fx_max0_spec(v: int) -> int {
    if v >= 0 {
        v
    } else {
        0
    }
}

/// The scalar clamped from above by one.
pub open spec fn fx_min1_spec(v: int) -> int {
    if v <= FX_ONE as int {
        v
    } else {
        FX_ONE as int
    }
}

/// The thirty-second power by five squarings: the specular exponent.
pub open spec fn pow32_spec(v: int) -> int {
    let p2 = fx_mul_spec(v, v);
    let p4 = fx_mul_spec(p2, p2);
    let p8 = fx_mul_spec(p4, p4);
    let p16 = fx_mul_spec(p8, p8);
    fx_mul_spec(p16, p16)
}

/// One light's contribution to a pixel's brightness: clamped diffuse plus
/// clamped specular, scaled by the light's intensity. The camera sits at
/// the world origin.
pub open spec fn light_term_spec(light: LightV, world: V3, normal: V3) -> int {
    let light_direction = v3_normalized_spec(v3_sub_spec(light.position, world));
    let diffuse = fx_max0_spec(v3_dot_spec(normal, light_direction));
    let camera_direction = v3_normalized_spec(v3_neg_spec(world));
    let reflect_direction = v3_neg_spec(v3_reflect_spec(light_direction, normal));
    let specular = pow32_spec(fx_max0_spec(v3_dot_spec(camera_direction, reflect_direction)));
    fx_mul_spec(fx_add_spec(diffuse, specular), light.intensity)
}

/// The summed brightness of a light list over a pixel, first light first.
pub open spec fn brightness_spec(lights: Seq<LightV>, world: V3, normal: V3) -> int
    decreases lights.len(),
{
    if lights.len() == 0 {
        0
    } else {
        fx_add_spec(
            brightness_spec(lights.drop_last(), world, normal),
            light_term_spec(lights.last(), world, normal),
        )
    }
}

/// The color of one shaded pixel: the object's base color (flat or sampled
/// from the texture at the interpolated UV), blended from black toward the
/// base color and on toward white by the accumulated brightness. A pixel no
/// write has won stays black.
pub open spec fn execute_spec(pixel: PixelInfoV) -> ColorV {
    match pixel.shader {
        Option::Some(shader) => {
            let world = V3 {
                x: pixel.interpolated[1] as int,
                y: pixel.interpolated[2] as int,
                z: pixel.interpolated[3] as int,
            };
            let normal = V3 {
                x: pixel.interpolated[4] as int,
                y: pixel.interpolated[5] as int,
                z: pixel.interpolated[6] as int,
            };
            let object_color = match shader.texture {
                Option::Some(texture) => tex_pixel_spec(
                    texture,
                    pixel.interpolated[7] as int,
                    pixel.interpolated[8] as int,
                ),
                Option::None => shader.color,
            };
            let brightness = fx_add_spec(
                AMBIENT as int,
                brightness_spec(shader.lights, world, normal),
            );
            let black = ColorV { r: 0, g: 0, b: 0 };
            let white = ColorV { r: FX_ONE as int, g: FX_ONE as int, b: FX_ONE as int };
            let darkened = color_lerp_spec(
                black,
                object_color,
                fx_min1_spec(fx_add_spec(brightness, TONE_OFFSET as int)),
            );
            color_lerp_spec(darkened, white, fx_max0_spec(fx_sub_spec(brightness, TONE_OFFSET as int)))
        },
        Option::None => ColorV { r: 0, g: 0, b: 0 },
    }
}

fn fx_max0(v: i64) -> (r: i64)
    ensures
        r as int == fx_max0_spec(v as int),
{
    if v >= 0 {
        v
    } else {
        0
    }
}

fn fx_min1(v: i64) -> (r: i64)
    ensures
        r as int == fx_min1_spec(v as int),
{
    if v <= FX_ONE {
        v
    } else {
        FX_ONE
    }
}

fn pow32(v: i64) -> (r: i64)
    ensures
        r as int == pow32_spec(v as int),
{
    let p2 = fx_mul(v, v);
    let p4 = fx_mul(p2, p2);
    let p8 = fx_mul(p4, p4);
    let p16 = fx_mul(p8, p8);
    fx_mul(p16, p16)
}

fn light_term(light: &crate::common::Light, world: Point3D, normal: Point3D) -> (r: i64)
    ensures
        r as int == light_term_spec(light@, world@, normal@),
{
    let light_direction = light.position.sub(world).normalized();
    let diffuse = fx_max0(normal.dot(light_direction));
    let camera_direction = world.neg().normalized();
    let reflect_direction = light_direction.reflect(normal).neg();
    let specular = pow32(fx_max0(camera_direction.dot(reflect_direction)));
    fx_mul(fx_add(diffuse, specular), light.intensity)
}

/// Shades one pixel.
pub fn execute(pixel: &PixelInfo) -> (c: Color)
    requires
        pixel.wf(),
    ensures
        c@ == execute_spec(pixel@),
{
    if let Some(shader) = &pixel.shader {
        let world = Point3D {
            x: pixel.get(ShaderValue::PositionX),
            y: pixel.get(ShaderValue::PositionY),
            z: pixel.get(ShaderValue::PositionZ),
        };
        let normal = Point3D {
            x: pixel.get(ShaderValue::NormalX),
            y: pixel.get(ShaderValue::NormalY),
            z: pixel.get(ShaderValue::NormalZ),
        };
        let object_color = if let Some(texture) = &shader.texture {
            let uv = Point2D { x: pixel.get(ShaderValue::UvX), y: pixel.get(ShaderValue::UvY) };
            texture.pixel(uv)
        } else {
            shader.color
        };
        let mut brightness: i64 = 0;
        let mut i: usize = 0;
        while i < shader.lights.len()
            invariant
                i <= shader.lights@.len(),
                brightness as int == brightness_spec(
                    shader.lights@.map_values(|l: crate::common::Light| l@).take(i as int),
                    world@,
                    normal@,
                ),
            decreases shader.lights@.len() - i,
        {
            let ghost lights_v = shader.lights@.map_values(|l: crate::common::Light| l@);
            proof {
                assert(lights_v.take(i as int + 1).drop_last() =~= lights_v.take(i as int));
                assert(lights_v.take(i as int + 1).last() == lights_v[i as int]);
            }
            brightness = fx_add(brightness, light_term(&shader.lights[i], world, normal));
            i = i + 1;
        }
        proof {
            let lights_v = shader.lights@.map_values(|l: crate::common::Light| l@);
            assert(lights_v.take(lights_v.len() as int) =~= lights_v);
        }
        let brightness = fx_add(AMBIENT, brightness);
        let darkened = Color::new(0, 0, 0).lerp(
            &object_color,
            fx_min1(fx_add(brightness, TONE_OFFSET)),
        );
        darkened.lerp(&Color::new(FX_ONE, FX_ONE, FX_ONE), fx_max0(fx_sub(brightness, TONE_OFFSET)))
    } else {
        Color::new(0, 0, 0)
    }
}

} // verus!
