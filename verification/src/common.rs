//! Shared value types of the pipeline: colors, vectors, the fixed channel
//! tuple carried per vertex and per pixel, and the linear interpolator that
//! produces evenly spaced channel tuples along a line.

use vstd::prelude::*;
use std::rc::Rc;

use crate::fixed::{
    fx_add, fx_add_spec, fx_div, fx_div_spec, fx_mul, fx_mul_spec, fx_neg, fx_neg_spec, fx_sqrt,
    fx_sqrt_spec, fx_sub, fx_sub_spec, tdiv, FX_ONE,
};
use crate::texture::Texture;

verus! {

/// A color with fixed-point red, green and blue channels, nominally in
/// `[0, FX_ONE]`.
#[derive(Debug, Clone, Copy)]
pub struct Color {
    pub r: i64,
    pub g: i64,
    pub b: i64,
}

/// The mathematical value of a `Color`: one integer per channel.
pub struct ColorV {
    pub r: int,
    pub g: int,
    pub b: int,
}

impl View for Color {
    type V = ColorV;

    open spec fn view(&self) -> ColorV {
        ColorV { r: self.r as int, g: self.g as int, b: self.b as int }
    }
}

/// Linear interpolation of one scalar channel: `p0 * (1 - a) + p1 * a`.
pub open spec fn lerp_single_spec(p0: int, p1: int, a: int) -> int {
    fx_add_spec(fx_mul_spec(p0, fx_sub_spec(FX_ONE as int, a)), fx_mul_spec(p1, a))
}

/// Channel-wise linear interpolation of two colors.
pub open spec fn color_lerp_spec(c0: ColorV, c1: ColorV, a: int) -> ColorV {
    ColorV {
        r: lerp_single_spec(c0.r, c1.r, a),
        g: lerp_single_spec(c0.g, c1.g, a),
        b: lerp_single_spec(c0.b, c1.b, a),
    }
}

impl Color {
    pub fn new(r: i64, g: i64, b: i64) -> (c: Color)
        ensures
            c@ == (ColorV { r: r as int, g: g as int, b: b as int }),
    {
        Color { r, g, b }
    }

    /// Blends `self` toward `other` by the fixed-point weight `a`.
    pub fn lerp(&self, other: &Color, a: i64) -> (c: Color)
        ensures
            c@ == color_lerp_spec(self@, other@, a as int),
    {
        Color {
            r: Self::lerp_single(self.r, other.r, a),
            g: Self::lerp_single(self.g, other.g, a),
            b: Self::lerp_single(self.b, other.b, a),
        }
    }

    fn lerp_single(p0: i64, p1: i64, a: i64) -> (r: i64)
        ensures
            r as int == lerp_single_spec(p0 as int, p1 as int, a as int),
    {
        fx_add(fx_mul(p0, fx_sub(FX_ONE, a)), fx_mul(p1, a))
    }
}

/// A two-component point; `T` is a fixed-point scalar for continuous
/// coordinates or `usize` for pixel coordinates.
#[derive(Debug, Clone, Copy)]
pub struct Point2D<T> {
    pub x: T,
    pub y: T,
}

/// A three-component fixed-point vector.
#[derive(Debug, Clone, Copy)]
pub struct Point3D {
    pub x: i64,
    pub y: i64,
    pub z: i64,
}

/// The mathematical value of a `Point3D`.
pub struct V3 {
    pub x: int,
    pub y: int,
    pub z: int,
}

impl View for Point3D {
    type V = V3;

    open spec fn view(&self) -> V3 {
        V3 { x: self.x as int, y: self.y as int, z: self.z as int }
    }
}

/// The saturating fixed-point dot product, summed left to right.
pub open spec fn v3_dot_spec(a: V3, b: V3) -> int {
    fx_add_spec(
        fx_add_spec(fx_mul_spec(a.x, b.x), fx_mul_spec(a.y, b.y)),
        fx_mul_spec(a.z, b.z),
    )
}

/// The fixed-point cross product.
pub open spec fn v3_cross_spec(a: V3, b: V3) -> V3 {
    V3 {
        x: fx_sub_spec(fx_mul_spec(a.y, b.z), fx_mul_spec(a.z, b.y)),
        y: fx_sub_spec(fx_mul_spec(a.z, b.x), fx_mul_spec(a.x, b.z)),
        z: fx_sub_spec(fx_mul_spec(a.x, b.y), fx_mul_spec(a.y, b.x)),
    }
}

/// Component-wise difference.
pub open spec fn v3_sub_spec(a: V3, b: V3) -> V3 {
    V3 { x: fx_sub_spec(a.x, b.x), y: fx_sub_spec(a.y, b.y), z: fx_sub_spec(a.z, b.z) }
}

/// Component-wise negation.
pub open spec fn v3_neg_spec(a: V3) -> V3 {
    V3 { x: fx_neg_spec(a.x), y: fx_neg_spec(a.y), z: fx_neg_spec(a.z) }
}

/// Scaling by one fixed-point factor.
pub open spec fn v3_scale_spec(a: V3, k: int) -> V3 {
    V3 { x: fx_mul_spec(a.x, k), y: fx_mul_spec(a.y, k), z: fx_mul_spec(a.z, k) }
}

/// The vector scaled to unit length by the fixed-point square root of its
/// squared magnitude; the zero-magnitude case gives the zero vector (the
/// real-valued normalization is undefined there).
pub open spec fn v3_normalized_spec(a: V3) -> V3 {
    let m = fx_sqrt_spec(v3_dot_spec(a, a));
    if m == 0 {
        V3 { x: 0, y: 0, z: 0 }
    } else {
        V3 { x: fx_div_spec(a.x, m), y: fx_div_spec(a.y, m), z: fx_div_spec(a.z, m) }
    }
}

/// The reflection of `a` about the plane with normal `n`:
/// `a - n * 2 * dot(n, a)`.
pub open spec fn v3_reflect_spec(a: V3, n: V3) -> V3 {
    v3_sub_spec(a, v3_scale_spec(v3_scale_spec(n, 2 * FX_ONE as int), v3_dot_spec(n, a)))
}

impl Point3D {
    /// Scales the vector to unit length; a zero magnitude gives the zero
    /// vector.
    pub fn normalized(self) -> (r: Point3D)
        ensures
            r@ == v3_normalized_spec(self@),
    {
        let magnitude = fx_sqrt(self.dot(self));
        if magnitude == 0 {
            Point3D { x: 0, y: 0, z: 0 }
        } else {
            Point3D {
                x: fx_div(self.x, magnitude),
                y: fx_div(self.y, magnitude),
                z: fx_div(self.z, magnitude),
            }
        }
    }

    pub fn dot(self, other: Point3D) -> (r: i64)
        ensures
            r as int == v3_dot_spec(self@, other@),
    {
        fx_add(
            fx_add(fx_mul(self.x, other.x), fx_mul(self.y, other.y)),
            fx_mul(self.z, other.z),
        )
    }

    pub fn cross(self, other: Point3D) -> (r: Point3D)
        ensures
            r@ == v3_cross_spec(self@, other@),
    {
        Point3D {
            x: fx_sub(fx_mul(self.y, other.z), fx_mul(self.z, other.y)),
            y: fx_sub(fx_mul(self.z, other.x), fx_mul(self.x, other.z)),
            z: fx_sub(fx_mul(self.x, other.y), fx_mul(self.y, other.x)),
        }
    }

    pub fn reflect(self, normal: Point3D) -> (r: Point3D)
        ensures
            r@ == v3_reflect_spec(self@, normal@),
    {
        self.sub(normal.scale(2 * FX_ONE).scale(normal.dot(self)))
    }

    /// Component-wise scaling by a fixed-point factor.
    pub fn scale(self, rhs: i64) -> (r: Point3D)
        ensures
            r@ == v3_scale_spec(self@, rhs as int),
    {
        Point3D { x: fx_mul(self.x, rhs), y: fx_mul(self.y, rhs), z: fx_mul(self.z, rhs) }
    }

    /// Component-wise difference.
    pub fn sub(self, other: Point3D) -> (r: Point3D)
        ensures
            r@ == v3_sub_spec(self@, other@),
    {
        Point3D {
            x: fx_sub(self.x, other.x),
            y: fx_sub(self.y, other.y),
            z: fx_sub(self.z, other.z),
        }
    }

    /// Component-wise negation.
    pub fn neg(self) -> (r: Point3D)
        ensures
            r@ == v3_neg_spec(self@),
    {
        Point3D { x: fx_neg(self.x), y: fx_neg(self.y), z: fx_neg(self.z) }
    }
}

/// The vector with the given mathematical value; meaningful when every
/// component lies in the scalar range, as every fixed-point result does.
pub open spec fn v3_to_p3(v: V3) -> Point3D {
    Point3D { x: v.x as i64, y: v.y as i64, z: v.z as i64 }
}

/// The channels of the per-vertex and per-pixel attribute tuple, in their
/// fixed order.
pub enum ShaderValue {
    Depth,
    PositionX,
    PositionY,
    PositionZ,
    NormalX,
    NormalY,
    NormalZ,
    UvX,
    UvY,
    LAST,
}

/// The number of scalar channels carried per vertex and per pixel.
pub const VALUES_AMOUNT: usize = 9;

impl ShaderValue {
    /// The channel's position in the attribute tuple; `LAST` is the channel
    /// count itself.
    pub fn index(&self) -> (i: usize)
        ensures
            i == self.index_spec(),
    {
        match self {
            ShaderValue::Depth => 0,
            ShaderValue::PositionX => 1,
            ShaderValue::PositionY => 2,
            ShaderValue::PositionZ => 3,
            ShaderValue::NormalX => 4,
            ShaderValue::NormalY => 5,
            ShaderValue::NormalZ => 6,
            ShaderValue::UvX => 7,
            ShaderValue::UvY => 8,
            ShaderValue::LAST => 9,
        }
    }

    pub open spec fn index_spec(&self) -> usize {
        match self {
            ShaderValue::Depth => 0,
            ShaderValue::PositionX => 1,
            ShaderValue::PositionY => 2,
            ShaderValue::PositionZ => 3,
            ShaderValue::NormalX => 4,
            ShaderValue::NormalY => 5,
            ShaderValue::NormalZ => 6,
            ShaderValue::UvX => 7,
            ShaderValue::UvY => 8,
            ShaderValue::LAST => 9,
        }
    }
}

/// One attribute tuple: exactly `VALUES_AMOUNT` fixed-point channels.
pub type Interpolated = [i64; VALUES_AMOUNT];

/// The all-zero attribute tuple.
pub fn interpolated_zeros() -> (r: Interpolated)
    ensures
        forall|k: int| 0 <= k < VALUES_AMOUNT ==> r[k] == 0i64,
{
    [0i64, 0i64, 0i64, 0i64, 0i64, 0i64, 0i64, 0i64, 0i64]
}

/// The two endpoint values of one channel along a line.
#[derive(Debug, Clone, Copy)]
pub struct IValue {
    pub lower: i64,
    pub upper: i64,
}

/// The evenly spaced sample `i` of `steps + 1` samples running from `lo`
/// (sample `0`) to `up` (sample `steps`): `lo + (up - lo) * i / steps`,
/// truncated toward zero. With `steps == 0` the single sample is `lo`.
pub open spec fn interp_at(lo: int, up: int, steps: int, i: int) -> int {
    lo + tdiv((up - lo) * i, steps)
}

/// An interpolated sample lies between its endpoints, hence in the scalar
/// range whenever both endpoints are.
pub proof fn lemma_interp_at_between(lo: int, up: int, steps: int, i: int)
    requires
        0 <= i <= steps,
    ensures
        lo <= up ==> lo <= interp_at(lo, up, steps, i) <= up,
        up < lo ==> up <= interp_at(lo, up, steps, i) <= lo,
{
    let d = up - lo;
    if steps == 0 || i == 0 || d == 0 {
        assert(d * i == 0 || steps == 0) by (nonlinear_arith)
            requires
                steps == 0 || i == 0 || d == 0,
        ;
        assert(tdiv(d * i, steps) == 0);
    } else if d > 0 {
        assert(0 <= (d * i) / steps <= d) by (nonlinear_arith)
            requires
                d > 0,
                0 < i <= steps,
        ;
        assert(tdiv(d * i, steps) == (d * i) / steps);
    } else {
        let m = d * -1;
        assert(0 <= (m * i) / steps <= m) by (nonlinear_arith)
            requires
                m > 0,
                0 < i <= steps,
        ;
        assert((d * i) * -1 == m * i) by (nonlinear_arith)
            requires
                m == d * -1,
        ;
        assert(tdiv(d * i, steps) == ((m * i) / steps) * -1);
    }
}

/// The first sample of a channel is its lower endpoint and the last its
/// upper endpoint, exactly.
pub proof fn lemma_interp_at_endpoints(lo: int, up: int, steps: int)
    requires
        steps >= 0,
    ensures
        interp_at(lo, up, steps, 0) == lo,
        steps > 0 ==> interp_at(lo, up, steps, steps) == up,
{
    let d = up - lo;
    assert(d * 0 == 0);
    assert(tdiv(0, steps) == 0);
    if steps > 0 && d == 0 {
        assert(d * steps == 0) by (nonlinear_arith)
            requires
                d == 0,
        ;
    }
    if steps > 0 && d != 0 {
        if d > 0 {
            assert((d * steps) / steps == d) by (nonlinear_arith)
                requires
                    steps > 0,
            ;
            assert(tdiv(d * steps, steps) == (d * steps) / steps) by {
                assert(d * steps > 0) by (nonlinear_arith)
                    requires
                        d > 0,
                        steps > 0,
                ;
            }
        } else {
            let m = d * -1;
            assert((m * steps) / steps == m) by (nonlinear_arith)
                requires
                    steps > 0,
            ;
            assert(d * steps < 0 && (d * steps) * -1 == m * steps) by (nonlinear_arith)
                requires
                    d < 0,
                    steps > 0,
                    m == d * -1,
            ;
            assert(tdiv(d * steps, steps) == ((m * steps) / steps) * -1);
        }
    }
}

impl IValue {
    pub fn reversed(self) -> (r: IValue)
        ensures
            r.lower == self.upper,
            r.upper == self.lower,
    {
        IValue { lower: self.upper, upper: self.lower }
    }
}

/// Samples one channel at an index; the exact sample value.
fn interp_sample(lo: i64, up: i64, steps: usize, i: usize) -> (r: i64)
    requires
        i <= steps,
        steps <= 0x7fff_ffff,
    ensures
        r as int == interp_at(lo as int, up as int, steps as int, i as int),
{
    let d: i128 = up as i128 - lo as i128;
    proof {
        lemma_interp_at_between(lo as int, up as int, steps as int, i as int);
        crate::fixed::lemma_abs_mul_le(d as int, i as int, 0x1_0000_0000_0000_0000, 0x8000_0000);
    }
    let p: i128 = d * (i as i128);
    let q: i128 = if steps == 0 {
        assert(tdiv(p as int, 0) == 0);
        0
    } else {
        proof {
            crate::fixed::lemma_tdiv_shrinks(p as int, steps as int);
        }
        p.checked_div(steps as i128).unwrap()
    };
    (lo as i128 + q) as i64
}

/// The fixed set of channel endpoint pairs fed to the interpolator.
pub type ValuesType = [IValue; VALUES_AMOUNT];

/// The per-channel endpoint pairs of a line running from tuple `p0` to
/// tuple `p1`.
pub open spec fn combine_spec(p0: Interpolated, p1: Interpolated) -> ValuesType {
    [
        IValue { lower: p0[0], upper: p1[0] },
        IValue { lower: p0[1], upper: p1[1] },
        IValue { lower: p0[2], upper: p1[2] },
        IValue { lower: p0[3], upper: p1[3] },
        IValue { lower: p0[4], upper: p1[4] },
        IValue { lower: p0[5], upper: p1[5] },
        IValue { lower: p0[6], upper: p1[6] },
        IValue { lower: p0[7], upper: p1[7] },
        IValue { lower: p0[8], upper: p1[8] },
    ]
}

/// Pairs two attribute tuples into per-channel endpoint pairs.
pub fn combine_interpolated(p0: Interpolated, p1: Interpolated) -> (r: ValuesType)
    ensures
        r == combine_spec(p0, p1),
{
    proof {
        broadcast use vstd::array::group_array_axioms;

    }
    [
        IValue { lower: p0[0], upper: p1[0] },
        IValue { lower: p0[1], upper: p1[1] },
        IValue { lower: p0[2], upper: p1[2] },
        IValue { lower: p0[3], upper: p1[3] },
        IValue { lower: p0[4], upper: p1[4] },
        IValue { lower: p0[5], upper: p1[5] },
        IValue { lower: p0[6], upper: p1[6] },
        IValue { lower: p0[7], upper: p1[7] },
        IValue { lower: p0[8], upper: p1[8] },
    ]
}

/// A screen point: a pair of coordinates plus the attribute tuple carried
/// with it. `T` is a fixed-point scalar before viewport mapping and `usize`
/// after.
#[derive(Debug, Clone, Copy)]
pub struct Point<T> {
    pub x: T,
    pub y: T,
    pub interpolated: Interpolated,
}

impl<T> Point<T> {
    /// Reads one named channel of the point's attribute tuple.
    pub fn get(&self, value: ShaderValue) -> (r: i64)
        requires
            value.index_spec() < VALUES_AMOUNT,
        ensures
            r == self.interpolated[value.index_spec() as int],
    {
        self.interpolated[value.index()]
    }
}

/// The attribute tuple of sample `i` of a walk of `steps` steps: channel `k`
/// is `interp_at` of endpoint pair `k`.
pub open spec fn sample_tuple(values: ValuesType, steps: int, i: int) -> Interpolated {
    [
        interp_at(values[0].lower as int, values[0].upper as int, steps, i) as i64,
        interp_at(values[1].lower as int, values[1].upper as int, steps, i) as i64,
        interp_at(values[2].lower as int, values[2].upper as int, steps, i) as i64,
        interp_at(values[3].lower as int, values[3].upper as int, steps, i) as i64,
        interp_at(values[4].lower as int, values[4].upper as int, steps, i) as i64,
        interp_at(values[5].lower as int, values[5].upper as int, steps, i) as i64,
        interp_at(values[6].lower as int, values[6].upper as int, steps, i) as i64,
        interp_at(values[7].lower as int, values[7].upper as int, steps, i) as i64,
        interp_at(values[8].lower as int, values[8].upper as int, steps, i) as i64,
    ]
}

/// Within the walk every sample value lies between its endpoints, so the
/// fixed-width entries of `sample_tuple` carry the exact sample values.
pub proof fn lemma_sample_tuple_exact(values: ValuesType, steps: int, i: int)
    requires
        0 <= i <= steps,
    ensures
        forall|k: int|
            0 <= k < VALUES_AMOUNT ==> #[trigger] sample_tuple(values, steps, i)[k] as int
                == interp_at(values[k].lower as int, values[k].upper as int, steps, i),
{
    assert forall|k: int| 0 <= k < VALUES_AMOUNT implies #[trigger] sample_tuple(
        values,
        steps,
        i,
    )[k] as int == interp_at(values[k].lower as int, values[k].upper as int, steps, i) by {
        lemma_interp_at_between(values[k].lower as int, values[k].upper as int, steps, i);
    }
}

/// A tuple whose every channel carries the sample value is the sample tuple.
pub proof fn lemma_sample_tuple_eq(values: ValuesType, steps: int, i: int, r: Interpolated)
    requires
        0 <= i <= steps,
        interp_tuple_at(values, steps, i, r),
    ensures
        r == sample_tuple(values, steps, i),
{
    broadcast use vstd::array::group_array_axioms;

    lemma_sample_tuple_exact(values, steps, i);
    let s = sample_tuple(values, steps, i);
    assert forall|k: int| 0 <= k < 9 implies r[k] == s[k] by {
        assert(r[k] as int == interp_at(values[k].lower as int, values[k].upper as int, steps, i));
    }
    assert(r =~= s);
}

/// Every channel's endpoint pair swapped: the same line walked backward.
pub open spec fn reversed_values_spec(values: ValuesType) -> ValuesType {
    [
        IValue { lower: values[0].upper, upper: values[0].lower },
        IValue { lower: values[1].upper, upper: values[1].lower },
        IValue { lower: values[2].upper, upper: values[2].lower },
        IValue { lower: values[3].upper, upper: values[3].lower },
        IValue { lower: values[4].upper, upper: values[4].lower },
        IValue { lower: values[5].upper, upper: values[5].lower },
        IValue { lower: values[6].upper, upper: values[6].lower },
        IValue { lower: values[7].upper, upper: values[7].lower },
        IValue { lower: values[8].upper, upper: values[8].lower },
    ]
}

/// Holds the per-channel endpoint pairs of a line and hands out samplers.
pub struct Interpolator {
    values: ValuesType,
}

/// The sample `i` of all channels at once, as the attribute tuple whose
/// channel `k` is `interp_at` of endpoint pair `k`.
pub open spec fn interp_tuple_at(values: ValuesType, steps: int, i: int, r: Interpolated) -> bool {
    forall|k: int|
        0 <= k < VALUES_AMOUNT ==> r[k] as int == interp_at(
            values[k].lower as int,
            values[k].upper as int,
            steps,
            i,
        )
}

impl Interpolator {
    pub closed spec fn values_spec(&self) -> ValuesType {
        self.values
    }

    pub fn new(values: ValuesType) -> (r: Interpolator)
        ensures
            r.values_spec() == values,
    {
        Interpolator { values }
    }

    /// As `new`, with every channel's endpoints swapped.
    pub fn new_reversed(values: ValuesType) -> (r: Interpolator)
        ensures
            r.values_spec() == reversed_values_spec(values),
    {
        proof {
            broadcast use vstd::array::group_array_axioms;

        }
        Self::new(
            [
                values[0].reversed(),
                values[1].reversed(),
                values[2].reversed(),
                values[3].reversed(),
                values[4].reversed(),
                values[5].reversed(),
                values[6].reversed(),
                values[7].reversed(),
                values[8].reversed(),
            ],
        )
    }

    /// A sampler producing the `amount + 1` evenly spaced attribute tuples
    /// of a walk of `amount` steps.
    pub fn interpolator(&self, amount: usize) -> (r: InterpolaterIter)
        requires
            amount <= 0x7fff_ffff,
        ensures
            r.values_spec() == self.values_spec(),
            r.steps_spec() == amount,
            r.at_spec() == 0,
    {
        InterpolaterIter { values: self.values, steps: amount, at: 0 }
    }
}

/// Yields the samples of an `Interpolator` in index order; past the final
/// sample it keeps yielding the final sample.
pub struct InterpolaterIter {
    values: ValuesType,
    steps: usize,
    at: usize,
}

impl InterpolaterIter {
    pub closed spec fn values_spec(&self) -> ValuesType {
        self.values
    }

    pub closed spec fn steps_spec(&self) -> usize {
        self.steps
    }

    pub closed spec fn at_spec(&self) -> usize {
        self.at
    }

    /// The next attribute tuple of the walk.
    pub fn next(&mut self) -> (r: Interpolated)
        requires
            old(self).steps_spec() <= 0x7fff_ffff,
        ensures
            final(self).values_spec() == old(self).values_spec(),
            final(self).steps_spec() == old(self).steps_spec(),
            final(self).at_spec() == if old(self).at_spec() <= old(self).steps_spec() {
                old(self).at_spec() + 1
            } else {
                old(self).at_spec() as int
            },
            interp_tuple_at(
                old(self).values_spec(),
                old(self).steps_spec() as int,
                if old(self).at_spec() <= old(self).steps_spec() {
                    old(self).at_spec() as int
                } else {
                    old(self).steps_spec() as int
                },
                r,
            ),
    {
        let i = if self.at <= self.steps {
            self.at
        } else {
            self.steps
        };
        let r = [
            interp_sample(self.values[0].lower, self.values[0].upper, self.steps, i),
            interp_sample(self.values[1].lower, self.values[1].upper, self.steps, i),
            interp_sample(self.values[2].lower, self.values[2].upper, self.steps, i),
            interp_sample(self.values[3].lower, self.values[3].upper, self.steps, i),
            interp_sample(self.values[4].lower, self.values[4].upper, self.steps, i),
            interp_sample(self.values[5].lower, self.values[5].upper, self.steps, i),
            interp_sample(self.values[6].lower, self.values[6].upper, self.steps, i),
            interp_sample(self.values[7].lower, self.values[7].upper, self.steps, i),
            interp_sample(self.values[8].lower, self.values[8].upper, self.steps, i),
        ];
        if self.at <= self.steps {
            self.at = self.at + 1;
        }
        r
    }
}

/// A point light: a world-space position and a scalar intensity.
#[derive(Debug, Clone, Copy)]
pub struct Light {
    pub position: Point3D,
    pub intensity: i64,
}

/// The mathematical value of a `Light`.
pub struct LightV {
    pub position: V3,
    pub intensity: int,
}

impl View for Light {
    type V = LightV;

    open spec fn view(&self) -> LightV {
        LightV { position: self.position@, intensity: self.intensity as int }
    }
}

/// Everything needed to shade the pixels of one face: the flat color, the
/// lights of the scene, and the optional texture.
#[derive(Debug, Clone)]
pub struct FaceShader {
    pub color: Color,
    pub lights: Vec<Light>,
    pub texture: Option<Rc<Texture>>,
}

/// The mathematical value of a `FaceShader`.
pub struct FaceShaderV {
    pub color: ColorV,
    pub lights: Seq<LightV>,
    pub texture: Option<crate::texture::TextureV>,
}

/// A face shader value is well formed when its texture, if any, is.
pub open spec fn shader_v_wf(s: FaceShaderV) -> bool {
    match s.texture {
        Option::Some(t) => crate::texture::tex_v_wf(t),
        Option::None => true,
    }
}

impl FaceShader {
    /// A face shader is well formed when its value is.
    pub open spec fn wf(&self) -> bool {
        shader_v_wf(self@)
    }
}

impl View for FaceShader {
    type V = FaceShaderV;

    open spec fn view(&self) -> FaceShaderV {
        FaceShaderV {
            color: self.color@,
            lights: self.lights@.map_values(|l: Light| l@),
            texture: match self.texture {
                Option::Some(t) => Option::Some(t@),
                Option::None => Option::None,
            },
        }
    }
}

/// The per-pixel record of the deferred surface: the winning attribute tuple
/// and the face shader that produced it, if any write won the pixel yet.
#[derive(Debug, Clone)]
pub struct PixelInfo {
    pub shader: Option<Rc<FaceShader>>,
    pub interpolated: Interpolated,
}

/// The mathematical value of a `PixelInfo`.
pub struct PixelInfoV {
    pub shader: Option<FaceShaderV>,
    pub interpolated: Seq<i64>,
}

impl View for PixelInfo {
    type V = PixelInfoV;

    open spec fn view(&self) -> PixelInfoV {
        PixelInfoV {
            shader: match self.shader {
                Option::Some(s) => Option::Some(s@),
                Option::None => Option::None,
            },
            interpolated: self.interpolated@,
        }
    }
}

impl PixelInfo {
    /// A record is well formed when the face shader it holds, if any, is.
    pub open spec fn wf(&self) -> bool {
        match self@.shader {
            Option::Some(s) => shader_v_wf(s),
            Option::None => true,
        }
    }

    /// A record that no write has won yet.
    pub fn new(interpolated: Interpolated) -> (r: PixelInfo)
        ensures
            r@.shader is None,
            r@.interpolated == interpolated@,
    {
        PixelInfo { shader: None, interpolated }
    }

    /// Overwrites the record with a winning write.
    pub fn set(&mut self, shader: &Rc<FaceShader>, interpolated: Interpolated)
        ensures
            final(self)@.shader == Option::Some(shader@),
            final(self)@.interpolated == interpolated@,
    {
        self.shader = Some(shader.clone());
        self.interpolated = interpolated;
    }

    /// Reads one named channel of the record's attribute tuple.
    pub fn get(&self, value: ShaderValue) -> (r: i64)
        requires
            value.index_spec() < VALUES_AMOUNT,
        ensures
            r == self@.interpolated[value.index_spec() as int],
    {
        self.interpolated[value.index()]
    }
}

} // verus!
