//! The scene orchestration: the model transform, the perspective camera,
//! and the object that projects a mesh's vertices once per frame and feeds
//! its surviving triangles to a frame surface.

use vstd::prelude::*;
use std::rc::Rc;

use crate::common::{
    shader_v_wf, v3_cross_spec, v3_dot_spec, v3_normalized_spec, v3_sub_spec, v3_to_p3, Color,
    FaceShader, Light, Point, Point2D, Point3D,
};
use crate::drawable::{apply_writes, to_local_spec, triangle_points_seq, Drawable, Surf};
use crate::fixed::{
    tdiv, fx_add, fx_add_spec, fx_cos, fx_cos_spec, fx_div, fx_div_spec, fx_divi, fx_divi_spec, fx_mul,
    fx_mul_spec, fx_neg, fx_neg_spec, fx_sin, fx_sin_spec, fx_sqrt, fx_sqrt_spec, fx_sub,
    fx_sub_spec, fx_tan, fx_tan_spec, FX_HALF, FX_ONE,
};
use crate::matrices::{
    det3_spec, lemma_m3_adjoint_val, lemma_m3_transpose_val, lemma_m3v_val, lemma_m4_val,
    lemma_m4v_val, m3_from4_val, m3_inverse_val, m3_transpose_val, m3v_val, m4_mul_val, m4v_val,
    Mat3x3, Mat4x4,
};
use crate::model::{Material, Model};

verus! {

/// The scale matrix of a transform.
pub open spec fn scale_mat_spec(s: (i64, i64, i64)) -> [[i64; 4]; 4] {
    [
        [s.0, 0i64, 0i64, 0i64],
        [0i64, s.1, 0i64, 0i64],
        [0i64, 0i64, s.2, 0i64],
        [0i64, 0i64, 0i64, FX_ONE],
    ]
}

/// The translation matrix of a transform.
pub open spec fn translate_mat_spec(p: (i64, i64, i64)) -> [[i64; 4]; 4] {
    [
        [FX_ONE, 0i64, 0i64, p.0],
        [0i64, FX_ONE, 0i64, p.1],
        [0i64, 0i64, FX_ONE, p.2],
        [0i64, 0i64, 0i64, FX_ONE],
    ]
}

/// The axis-angle rotation matrix of a transform, with the axis scaled to
/// unit length first. An axis of zero magnitude saturates the division; a
/// rotation about no axis is the caller's mistake either way.
pub open spec fn rotate_mat_spec(rotation: i64, axis: (i64, i64, i64)) -> [[i64; 4]; 4] {
    let mag = fx_sqrt_spec(
        fx_add_spec(
            fx_add_spec(
                fx_mul_spec(axis.0 as int, axis.0 as int),
                fx_mul_spec(axis.1 as int, axis.1 as int),
            ),
            fx_mul_spec(axis.2 as int, axis.2 as int),
        ),
    );
    let ax = fx_div_spec(axis.0 as int, mag);
    let ay = fx_div_spec(axis.1 as int, mag);
    let az = fx_div_spec(axis.2 as int, mag);
    let ca = fx_cos_spec(rotation as int);
    let nca = fx_sub_spec(FX_ONE as int, ca);
    let sa = fx_sin_spec(rotation as int);
    [
        [
            fx_add_spec(ca, fx_mul_spec(fx_mul_spec(ax, ax), nca)) as i64,
            fx_sub_spec(fx_mul_spec(fx_mul_spec(ax, ay), nca), fx_mul_spec(az, sa)) as i64,
            fx_add_spec(fx_mul_spec(fx_mul_spec(ax, az), nca), fx_mul_spec(ay, sa)) as i64,
            0i64,
        ],
        [
            fx_add_spec(fx_mul_spec(fx_mul_spec(ay, ax), nca), fx_mul_spec(az, sa)) as i64,
            fx_add_spec(ca, fx_mul_spec(fx_mul_spec(ay, ay), nca)) as i64,
            fx_sub_spec(fx_mul_spec(fx_mul_spec(ay, az), nca), fx_mul_spec(ax, sa)) as i64,
            0i64,
        ],
        [
            fx_sub_spec(fx_mul_spec(fx_mul_spec(az, ax), nca), fx_mul_spec(ay, sa)) as i64,
            fx_add_spec(fx_mul_spec(fx_mul_spec(az, ay), nca), fx_mul_spec(ax, sa)) as i64,
            fx_add_spec(ca, fx_mul_spec(fx_mul_spec(az, az), nca)) as i64,
            0i64,
        ],
        [0i64, 0i64, 0i64, FX_ONE],
    ]
}

/// The combined model matrix: translation times rotation times scale.
pub open spec fn transform_combined_spec(
    position: (i64, i64, i64),
    scale: (i64, i64, i64),
    rotation: i64,
    rotation_axis: (i64, i64, i64),
) -> [[i64; 4]; 4] {
    m4_mul_val(
        m4_mul_val(translate_mat_spec(position), rotate_mat_spec(rotation, rotation_axis)),
        scale_mat_spec(scale),
    )
}

/// The model transform: a translation, a non-uniform scale and an
/// axis-angle rotation, kept combined into one matrix; the combination is
/// recomputed whenever the rotation changes.
pub struct Transform {
    position: (i64, i64, i64),
    scale: (i64, i64, i64),
    rotation: i64,
    rotation_axis: (i64, i64, i64),
    combined: Mat4x4,
}

impl Transform {
    /// The stored translation.
    pub closed spec fn position_spec(&self) -> (i64, i64, i64) {
        self.position
    }

    /// The stored scale.
    pub closed spec fn scale_spec(&self) -> (i64, i64, i64) {
        self.scale
    }

    /// The stored rotation angle.
    pub closed spec fn rotation_spec(&self) -> i64 {
        self.rotation
    }

    /// The stored rotation axis.
    pub closed spec fn axis_spec(&self) -> (i64, i64, i64) {
        self.rotation_axis
    }

    /// The stored combined matrix.
    pub closed spec fn matrix_spec(&self) -> [[i64; 4]; 4] {
        self.combined.mat
    }

    /// The combined matrix is the combination of the stored parts.
    pub open spec fn wf(&self) -> bool {
        self.matrix_spec() == transform_combined_spec(
            self.position_spec(),
            self.scale_spec(),
            self.rotation_spec(),
            self.axis_spec(),
        )
    }

    /// Builds a transform and combines its matrix.
    pub fn new(
        position: (i64, i64, i64),
        scale: (i64, i64, i64),
        rotation: i64,
        rotation_axis: (i64, i64, i64),
    ) -> (r: Transform)
        ensures
            r.position_spec() == position,
            r.scale_spec() == scale,
            r.rotation_spec() == rotation,
            r.axis_spec() == rotation_axis,
            r.wf(),
    {
        let mut out = Transform {
            position,
            scale,
            rotation,
            rotation_axis,
            combined: Mat4x4::new(),
        };
        out.combine();
        out
    }

    /// Recombines the stored matrix from the stored parts.
    pub fn combine(&mut self)
        ensures
            final(self).position_spec() == old(self).position_spec(),
            final(self).scale_spec() == old(self).scale_spec(),
            final(self).rotation_spec() == old(self).rotation_spec(),
            final(self).axis_spec() == old(self).axis_spec(),
            final(self).wf(),
    {
        let scale_mat = Mat4x4 {
            mat: [
                [self.scale.0, 0, 0, 0],
                [0, self.scale.1, 0, 0],
                [0, 0, self.scale.2, 0],
                [0, 0, 0, FX_ONE],
            ],
        };
        let translate_mat = Mat4x4 {
            mat: [
                [FX_ONE, 0, 0, self.position.0],
                [0, FX_ONE, 0, self.position.1],
                [0, 0, FX_ONE, self.position.2],
                [0, 0, 0, FX_ONE],
            ],
        };
        let axis_magnitude = fx_sqrt(
            fx_add(
                fx_add(
                    fx_mul(self.rotation_axis.0, self.rotation_axis.0),
                    fx_mul(self.rotation_axis.1, self.rotation_axis.1),
                ),
                fx_mul(self.rotation_axis.2, self.rotation_axis.2),
            ),
        );
        let axis = (
            fx_div(self.rotation_axis.0, axis_magnitude),
            fx_div(self.rotation_axis.1, axis_magnitude),
            fx_div(self.rotation_axis.2, axis_magnitude),
        );
        let ca = fx_cos(self.rotation);
        let nca = fx_sub(FX_ONE, ca);
        let sa = fx_sin(self.rotation);
        let rotate_mat = Mat4x4 {
            mat: [
                [
                    fx_add(ca, fx_mul(fx_mul(axis.0, axis.0), nca)),
                    fx_sub(fx_mul(fx_mul(axis.0, axis.1), nca), fx_mul(axis.2, sa)),
                    fx_add(fx_mul(fx_mul(axis.0, axis.2), nca), fx_mul(axis.1, sa)),
                    0,
                ],
                [
                    fx_add(fx_mul(fx_mul(axis.1, axis.0), nca), fx_mul(axis.2, sa)),
                    fx_add(ca, fx_mul(fx_mul(axis.1, axis.1), nca)),
                    fx_sub(fx_mul(fx_mul(axis.1, axis.2), nca), fx_mul(axis.0, sa)),
                    0,
                ],
                [
                    fx_sub(fx_mul(fx_mul(axis.2, axis.0), nca), fx_mul(axis.1, sa)),
                    fx_add(fx_mul(fx_mul(axis.2, axis.1), nca), fx_mul(axis.0, sa)),
                    fx_add(ca, fx_mul(fx_mul(axis.2, axis.2), nca)),
                    0,
                ],
                [0, 0, 0, FX_ONE],
            ],
        };
        proof {
            broadcast use vstd::array::group_array_axioms;

            let sm = scale_mat_spec(self.scale);
            assert(scale_mat.mat[0] =~= sm[0]);
            assert(scale_mat.mat[1] =~= sm[1]);
            assert(scale_mat.mat[2] =~= sm[2]);
            assert(scale_mat.mat[3] =~= sm[3]);
            assert(scale_mat.mat =~= sm);
            let tm = translate_mat_spec(self.position);
            assert(translate_mat.mat[0] =~= tm[0]);
            assert(translate_mat.mat[1] =~= tm[1]);
            assert(translate_mat.mat[2] =~= tm[2]);
            assert(translate_mat.mat[3] =~= tm[3]);
            assert(translate_mat.mat =~= tm);
            let rm = rotate_mat_spec(self.rotation, self.rotation_axis);
            assert(rotate_mat.mat[0] =~= rm[0]);
            assert(rotate_mat.mat[1] =~= rm[1]);
            assert(rotate_mat.mat[2] =~= rm[2]);
            assert(rotate_mat.mat[3] =~= rm[3]);
            assert(rotate_mat.mat =~= rm);
        }
        let tr = translate_mat.mul_mat(&rotate_mat);
        proof {
            lemma_m4_val(tr.mat, translate_mat.mat, rotate_mat.mat);
        }
        let trs = tr.mul_mat(&scale_mat);
        proof {
            lemma_m4_val(trs.mat, tr.mat, scale_mat.mat);
        }
        self.combined = trs;
    }

    /// Stores a new rotation angle and recombines the matrix.
    pub fn set_rotation(&mut self, rotation: i64)
        ensures
            final(self).position_spec() == old(self).position_spec(),
            final(self).scale_spec() == old(self).scale_spec(),
            final(self).rotation_spec() == rotation,
            final(self).axis_spec() == old(self).axis_spec(),
            final(self).wf(),
    {
        self.rotation = rotation;
        self.combine();
    }

    /// The stored rotation angle.
    pub fn rotation(&self) -> (r: i64)
        ensures
            r == self.rotation_spec(),
    {
        self.rotation
    }

    /// The combined model matrix.
    pub fn matrix(&self) -> (r: Mat4x4)
        ensures
            r.mat == self.matrix_spec(),
    {
        self.combined
    }
}

/// The perspective projection matrix of a camera.
pub open spec fn camera_mat_spec(near: i64, far: i64, fov: i64, aspect: i64) -> [[i64; 4]; 4] {
    let th_fov = fx_tan_spec(fx_divi_spec(fov as int, 2));
    let a = fx_neg_spec(
        fx_div_spec(fx_add_spec(far as int, near as int), fx_sub_spec(far as int, near as int)),
    );
    let b = fx_neg_spec(
        fx_div_spec(
            fx_mul_spec(fx_mul_spec(2 * FX_ONE as int, far as int), near as int),
            fx_sub_spec(far as int, near as int),
        ),
    );
    [
        [fx_div_spec(FX_ONE as int, fx_mul_spec(aspect as int, th_fov)) as i64, 0i64, 0i64, 0i64],
        [0i64, fx_div_spec(FX_ONE as int, th_fov) as i64, 0i64, 0i64],
        [0i64, 0i64, a as i64, b as i64],
        [0i64, 0i64, (-FX_ONE) as i64, 0i64],
    ]
}

/// The perspective camera: near and far plane, vertical field of view and
/// aspect ratio, kept as the projection matrix; immutable after
/// construction. The perspective division happens downstream.
pub struct Camera {
    near: i64,
    far: i64,
    fov: i64,
    aspect: i64,
    mat: Mat4x4,
}

impl Camera {
    /// The stored near plane.
    pub closed spec fn near_spec(&self) -> i64 {
        self.near
    }

    /// The stored far plane.
    pub closed spec fn far_spec(&self) -> i64 {
        self.far
    }

    /// The stored field of view.
    pub closed spec fn fov_spec(&self) -> i64 {
        self.fov
    }

    /// The stored aspect ratio.
    pub closed spec fn aspect_spec(&self) -> i64 {
        self.aspect
    }

    /// The stored projection matrix.
    pub closed spec fn matrix_spec(&self) -> [[i64; 4]; 4] {
        self.mat.mat
    }

    /// The stored matrix is the projection of the stored parameters.
    pub open spec fn wf(&self) -> bool {
        self.matrix_spec() == camera_mat_spec(
            self.near_spec(),
            self.far_spec(),
            self.fov_spec(),
            self.aspect_spec(),
        )
    }

    /// Builds a camera and computes its projection matrix.
    pub fn new(near: i64, far: i64, fov: i64, aspect: i64) -> (r: Camera)
        ensures
            r.near_spec() == near,
            r.far_spec() == far,
            r.fov_spec() == fov,
            r.aspect_spec() == aspect,
            r.wf(),
    {
        let mut out = Camera { near, far, fov, aspect, mat: Mat4x4::new() };
        out.calculate_matrix();
        out
    }

    fn calculate_matrix(&mut self)
        ensures
            final(self).near_spec() == old(self).near_spec(),
            final(self).far_spec() == old(self).far_spec(),
            final(self).fov_spec() == old(self).fov_spec(),
            final(self).aspect_spec() == old(self).aspect_spec(),
            final(self).wf(),
    {
        let th_fov = fx_tan(fx_divi(self.fov, 2));
        let a = fx_neg(fx_div(fx_add(self.far, self.near), fx_sub(self.far, self.near)));
        let b = fx_neg(
            fx_div(
                fx_mul(fx_mul(2 * FX_ONE, self.far), self.near),
                fx_sub(self.far, self.near),
            ),
        );
        let mat = Mat4x4 {
            mat: [
                [fx_div(FX_ONE, fx_mul(self.aspect, th_fov)), 0, 0, 0],
                [0, fx_div(FX_ONE, th_fov), 0, 0],
                [0, 0, a, b],
                [0, 0, -FX_ONE, 0],
            ],
        };
        proof {
            broadcast use vstd::array::group_array_axioms;

            let cm = camera_mat_spec(self.near, self.far, self.fov, self.aspect);
            assert(mat.mat[0] =~= cm[0]);
            assert(mat.mat[1] =~= cm[1]);
            assert(mat.mat[2] =~= cm[2]);
            assert(mat.mat[3] =~= cm[3]);
            assert(mat.mat =~= cm);
        }
        self.mat = mat;
    }

    /// The projection matrix.
    pub fn matrix(&self) -> (r: Mat4x4)
        ensures
            r.mat == self.matrix_spec(),
    {
        self.mat
    }
}

/// The homogeneous position of vertex `i` of a flat vertex buffer.
pub open spec fn vertex4_spec(vertices: Seq<i64>, i: int) -> [i64; 4] {
    [vertices[3 * i], vertices[3 * i + 1], vertices[3 * i + 2], FX_ONE]
}

/// The world position of a transformed homogeneous vertex.
pub open spec fn world_point_spec(tm: [[i64; 4]; 4], v: [i64; 4]) -> Point3D {
    let w = m4v_val(tm, v);
    Point3D { x: w[0], y: w[1], z: w[2] }
}

/// The screen position of a projected vertex: the perspective division by
/// the clip w-coordinate, with x and y remapped from `[-1, 1]` to `[0, 1]`
/// and z kept in clip range for the depth test.
pub open spec fn projected_point_spec(pm: [[i64; 4]; 4], world: [i64; 4]) -> Point3D {
    let t = m4v_val(pm, world);
    Point3D {
        x: fx_divi_spec(
            fx_add_spec(fx_div_spec(t[0] as int, t[3] as int), FX_ONE as int),
            2,
        ) as i64,
        y: fx_divi_spec(
            fx_add_spec(fx_div_spec(t[1] as int, t[3] as int), FX_ONE as int),
            2,
        ) as i64,
        z: fx_div_spec(t[2] as int, t[3] as int) as i64,
    }
}

/// The matrix normals are transformed by: the inverse transpose of the
/// model matrix's upper-left block.
pub open spec fn normal_matrix_spec(tm: [[i64; 4]; 4]) -> [[i64; 3]; 3] {
    m3_inverse_val(m3_transpose_val(m3_from4_val(tm)))
}

/// A normal taken through the normal matrix.
pub open spec fn transformed_normal_spec(nm: [[i64; 3]; 3], n: Point3D) -> Point3D {
    let r = m3v_val(nm, [n.x, n.y, n.z]);
    Point3D { x: r[0], y: r[1], z: r[2] }
}

/// The mid-gray color a triangle without material color falls back to.
pub open spec fn gray_spec() -> Color {
    Color { r: FX_HALF, g: FX_HALF, b: FX_HALF }
}

/// The face shader of triangle `i`: its material's color and texture (the
/// gray fallback without them) and the scene's lights.
pub open spec fn face_shader_at_spec(
    materials: Seq<Material>,
    material_index: Option<usize>,
    lights: Seq<Light>,
) -> crate::common::FaceShaderV {
    match material_index {
        Option::Some(idx) => crate::common::FaceShaderV {
            color: match materials[idx as int].diffuse_color {
                Option::Some(c) => c@,
                Option::None => gray_spec()@,
            },
            lights: lights.map_values(|l: Light| l@),
            texture: match materials[idx as int].diffuse_texture {
                Option::Some(t) => Option::Some(t@),
                Option::None => Option::None,
            },
        },
        Option::None => crate::common::FaceShaderV {
            color: gray_spec()@,
            lights: lights.map_values(|l: Light| l@),
            texture: Option::None,
        },
    }
}

fn copy_lights(v: &Vec<Light>) -> (r: Vec<Light>)
    ensures
        r@ == v@,
{
    let mut out: Vec<Light> = Vec::new();
    let mut i: usize = 0;
    while i < v.len()
        invariant
            i <= v@.len(),
            out@.len() == i,
            forall|j: int| 0 <= j < i ==> out@[j] == v@[j],
        decreases v@.len() - i,
    {
        out.push(v[i]);
        i = i + 1;
    }
    proof {
        assert(out@ =~= v@);
    }
    out
}

/// A mesh being rendered: the borrowed scene inputs and the per-frame
/// caches the vertex transform fills.
pub struct Object<'a> {
    pub model: &'a Model,
    pub transform: Transform,
    pub camera: &'a Camera,
    pub lights: &'a Vec<Light>,
    pub points: Vec<Point3D>,
    pub world_points: Vec<Point3D>,
    pub normals: Vec<Point3D>,
    pub face_shaders: Vec<Rc<FaceShader>>,
}

/// The world positions of triangle `t`'s three corners.
pub open spec fn tri_world(o: &Object, t: int, j: int) -> Point3D {
    o.world_points@[o.model.indices@[3 * t + j] as int]
}

/// The face normal of a triangle: the cross product of two edges.
pub open spec fn face_normal_spec(p0: Point3D, p1: Point3D, p2: Point3D) -> crate::common::V3 {
    v3_cross_spec(v3_sub_spec(p1@, p0@), v3_sub_spec(p2@, p0@))
}

/// Whether triangle `t` faces away from the viewer: the dot product of the
/// first corner's position and the face normal is not negative (the camera
/// sits at the origin of view space).
pub open spec fn tri_backface(o: &Object, t: int) -> bool {
    v3_dot_spec(
        tri_world(o, t, 0)@,
        face_normal_spec(tri_world(o, t, 0), tri_world(o, t, 1), tri_world(o, t, 2)),
    ) >= 0
}

/// Corner `j` of triangle `t` assembled for the rasterizer: the screen
/// position with the full attribute tuple — clip depth, world position, the
/// corner's normal (the scaled face normal when the mesh brought none), and
/// the texture coordinates (zero when the mesh brought none).
pub open spec fn point_at_spec(o: &Object, t: int, j: int) -> Point<i64> {
    let meta = 3 * t + j;
    let index = o.model.indices@[meta] as int;
    let normal = if o.normals@.len() > 0 {
        o.normals@[meta]
    } else {
        v3_to_p3(
            v3_normalized_spec(
                face_normal_spec(tri_world(o, t, 0), tri_world(o, t, 1), tri_world(o, t, 2)),
            ),
        )
    };
    let uv = if o.model.uvs@.len() > 0 {
        o.model.uvs@[meta]
    } else {
        Point2D { x: 0i64, y: 0i64 }
    };
    let point = o.points@[index];
    let world = o.world_points@[index];
    Point {
        x: point.x,
        y: point.y,
        interpolated: [
            point.z,
            world.x,
            world.y,
            world.z,
            normal.x,
            normal.y,
            normal.z,
            uv.x,
            uv.y,
        ],
    }
}

/// What drawing triangle `t` does to a surface: nothing when the triangle
/// faces away, otherwise the writes of its filled rasterization under its
/// face shader.
pub open spec fn draw_step_spec(s: Surf, o: &Object, t: int) -> Surf {
    if tri_backface(o, t) {
        s
    } else {
        apply_writes(
            s,
            triangle_points_seq(
                to_local_spec(s, point_at_spec(o, t, 0)),
                to_local_spec(s, point_at_spec(o, t, 1)),
                to_local_spec(s, point_at_spec(o, t, 2)),
            ),
            o.face_shaders@[t]@,
        )
    }
}

/// The surface after drawing the first `n` triangles in order.
pub open spec fn draw_upto_spec(s: Surf, o: &Object, n: int) -> Surf
    decreases n,
{
    if n <= 0 {
        s
    } else {
        draw_step_spec(draw_upto_spec(s, o, n - 1), o, n - 1)
    }
}

impl<'a> Object<'a> {
    /// The per-frame caches cover the mesh: one screen and one world
    /// position per vertex, one transformed normal per brought normal, one
    /// well-formed face shader per triangle, against a mesh meeting the
    /// loader's input contract.
    pub open spec fn wf(&self) -> bool {
        &&& self.model.draw_wf()
        &&& self.points@.len() == self.model.vertices@.len() / 3
        &&& self.world_points@.len() == self.model.vertices@.len() / 3
        &&& self.normals@.len() == self.model.normals@.len()
        &&& self.face_shaders@.len() == self.model.material_indices@.len()
        &&& forall|i: int|
            0 <= i < self.face_shaders@.len() ==> shader_v_wf(#[trigger] self.face_shaders@[i]@)
    }

    /// Builds an object for one frame and runs the vertex transform once.
    pub fn new(
        model: &'a Model,
        transform: Transform,
        camera: &'a Camera,
        lights: &'a Vec<Light>,
    ) -> (r: Object<'a>)
        requires
            model.draw_wf(),
        ensures
            r.wf(),
            r.model == model,
            r.camera == camera,
            r.lights == lights,
            r.transform == transform,
    {
        let mut out = Object {
            model,
            transform,
            camera,
            lights,
            points: Vec::new(),
            world_points: Vec::new(),
            normals: Vec::new(),
            face_shaders: Vec::new(),
        };
        out.update_transform();
        out
    }

    /// The stored rotation angle of the model transform.
    pub fn rotation(&self) -> (r: i64)
        ensures
            r == self.transform.rotation_spec(),
    {
        self.transform.rotation()
    }

    /// Stores a new rotation angle; the caches stay until the next vertex
    /// transform.
    pub fn set_rotation(&mut self, rotation: i64)
        ensures
            final(self).transform.rotation_spec() == rotation,
            final(self).transform.position_spec() == old(self).transform.position_spec(),
            final(self).transform.scale_spec() == old(self).transform.scale_spec(),
            final(self).transform.axis_spec() == old(self).transform.axis_spec(),
            final(self).transform.wf(),
            final(self).model == old(self).model,
            final(self).camera == old(self).camera,
            final(self).lights == old(self).lights,
            final(self).points == old(self).points,
            final(self).world_points == old(self).world_points,
            final(self).normals == old(self).normals,
            final(self).face_shaders == old(self).face_shaders,
    {
        self.transform.set_rotation(rotation);
    }

    fn backface(p0: Point3D, p1: Point3D, p2: Point3D) -> (r: (bool, Point3D))
        ensures
            r.1@ == face_normal_spec(p0, p1, p2),
            r.0 == (v3_dot_spec(p0@, face_normal_spec(p0, p1, p2)) >= 0),
    {
        let normal = p1.sub(p0).cross(p2.sub(p0));
        (p0.dot(normal) >= 0, normal)
    }

    /// Recomputes the per-frame caches from the stored transform and the
    /// borrowed scene: projects every vertex, transforms every normal by
    /// the inverse transpose of the model matrix's upper-left block, and
    /// builds every triangle's face shader.
    pub fn update_transform(&mut self)
        requires
            old(self).model.draw_wf(),
        ensures
            final(self).wf(),
            final(self).model == old(self).model,
            final(self).camera == old(self).camera,
            final(self).lights == old(self).lights,
            final(self).transform == old(self).transform,
            forall|i: int|
                0 <= i < final(self).points@.len() ==> #[trigger] final(self).points@[i]
                    == projected_point_spec(
                    old(self).camera.matrix_spec(),
                    m4v_val(
                        old(self).transform.matrix_spec(),
                        vertex4_spec(old(self).model.vertices@, i),
                    ),
                ),
            forall|i: int|
                0 <= i < final(self).world_points@.len()
                    ==> #[trigger] final(self).world_points@[i] == world_point_spec(
                    old(self).transform.matrix_spec(),
                    vertex4_spec(old(self).model.vertices@, i),
                ),
            forall|i: int|
                0 <= i < final(self).normals@.len() ==> #[trigger] final(self).normals@[i]
                    == transformed_normal_spec(
                    normal_matrix_spec(old(self).transform.matrix_spec()),
                    old(self).model.normals@[i],
                ),
            forall|i: int|
                0 <= i < final(self).face_shaders@.len()
                    ==> #[trigger] final(self).face_shaders@[i]@ == face_shader_at_spec(
                    old(self).model.materials@,
                    old(self).model.material_indices@[i],
                    old(self).lights@,
                ),
    {
        let transform_matrix = self.transform.matrix();
        let projection_matrix = self.camera.matrix();
        let vertex_total = self.model.vertices.len();
        let vertex_count = vertex_total / 3;
        proof {
            assert(3 * (self.model.vertices@.len() / 3) == self.model.vertices@.len())
                by (nonlinear_arith)
                requires
                    self.model.vertices@.len() % 3 == 0,
            ;
            assert(self.model.vertices@.len() == vertex_total as int);
        }
        let mut points: Vec<Point3D> = Vec::new();
        let mut world_points: Vec<Point3D> = Vec::new();
        let mut i: usize = 0;
        while i < vertex_count
            invariant
                vertex_count == self.model.vertices@.len() / 3,
                3 * vertex_count == self.model.vertices@.len(),
                self.model.vertices@.len() <= usize::MAX,
                i <= vertex_count,
                transform_matrix.mat == self.transform.matrix_spec(),
                projection_matrix.mat == self.camera.matrix_spec(),
                points@.len() == i,
                world_points@.len() == i,
                forall|j: int|
                    0 <= j < i ==> #[trigger] points@[j] == projected_point_spec(
                        self.camera.matrix_spec(),
                        m4v_val(
                            self.transform.matrix_spec(),
                            vertex4_spec(self.model.vertices@, j),
                        ),
                    ),
                forall|j: int|
                    0 <= j < i ==> #[trigger] world_points@[j] == world_point_spec(
                        self.transform.matrix_spec(),
                        vertex4_spec(self.model.vertices@, j),
                    ),
            decreases vertex_count - i,
        {
            let v4: [i64; 4] = [
                self.model.vertices[3 * i],
                self.model.vertices[3 * i + 1],
                self.model.vertices[3 * i + 2],
                FX_ONE,
            ];
            proof {
                broadcast use vstd::array::group_array_axioms;

                assert(v4 =~= vertex4_spec(self.model.vertices@, i as int));
            }
            let world = transform_matrix.mul_vec(v4);
            proof {
                lemma_m4v_val(world, transform_matrix.mat, v4);
            }
            let transformed = projection_matrix.mul_vec(world);
            proof {
                lemma_m4v_val(transformed, projection_matrix.mat, world);
            }
            points.push(
                Point3D {
                    x: fx_divi(fx_add(fx_div(transformed[0], transformed[3]), FX_ONE), 2),
                    y: fx_divi(fx_add(fx_div(transformed[1], transformed[3]), FX_ONE), 2),
                    z: fx_div(transformed[2], transformed[3]),
                },
            );
            world_points.push(Point3D { x: world[0], y: world[1], z: world[2] });
            i = i + 1;
        }
        self.points = points;
        self.world_points = world_points;
        let m3 = Mat3x3::from(transform_matrix);
        proof {
            broadcast use vstd::array::group_array_axioms;

            assert(m3.mat =~= m3_from4_val(transform_matrix.mat));
        }
        let transposed = m3.transpose();
        proof {
            lemma_m3_transpose_val(transposed.mat, m3.mat);
        }
        let normal_matrix = transposed.inverse();
        proof {
            lemma_m3_adjoint_val(
                normal_matrix.mat,
                transposed.mat,
                fx_div_spec(FX_ONE as int, det3_spec(transposed.mat)),
            );
        }
        let normal_count = self.model.normals.len();
        let mut normals: Vec<Point3D> = Vec::new();
        let mut i: usize = 0;
        while i < normal_count
            invariant
                normal_count == self.model.normals@.len(),
                i <= normal_count,
                normal_matrix.mat == normal_matrix_spec(self.transform.matrix_spec()),
                normals@.len() == i,
                forall|j: int|
                    0 <= j < i ==> #[trigger] normals@[j] == transformed_normal_spec(
                        normal_matrix_spec(self.transform.matrix_spec()),
                        self.model.normals@[j],
                    ),
            decreases normal_count - i,
        {
            let n = self.model.normals[i];
            let v3: [i64; 3] = [n.x, n.y, n.z];
            let transformed = normal_matrix.mul_vec(v3);
            proof {
                lemma_m3v_val(transformed, normal_matrix.mat, v3);
            }
            normals.push(Point3D { x: transformed[0], y: transformed[1], z: transformed[2] });
            i = i + 1;
        }
        self.normals = normals;
        let shader_count = self.model.material_indices.len();
        let mut face_shaders: Vec<Rc<FaceShader>> = Vec::new();
        let mut i: usize = 0;
        while i < shader_count
            invariant
                self.model.draw_wf(),
                shader_count == self.model.material_indices@.len(),
                i <= shader_count,
                face_shaders@.len() == i,
                forall|j: int|
                    0 <= j < i ==> #[trigger] face_shaders@[j]@ == face_shader_at_spec(
                        self.model.materials@,
                        self.model.material_indices@[j],
                        self.lights@,
                    ),
                forall|j: int|
                    0 <= j < i ==> shader_v_wf(#[trigger] face_shaders@[j]@),
            decreases shader_count - i,
        {
            let lights = copy_lights(self.lights);
            let shader = match self.model.material_indices[i] {
                Some(index) => {
                    let material = &self.model.materials[index];
                    let color = match material.diffuse_color {
                        Some(c) => c,
                        None => Color::new(FX_HALF, FX_HALF, FX_HALF),
                    };
                    let texture = match &material.diffuse_texture {
                        Some(t) => Some(t.clone()),
                        None => None,
                    };
                    FaceShader { color, lights, texture }
                },
                None => FaceShader {
                    color: Color::new(FX_HALF, FX_HALF, FX_HALF),
                    lights,
                    texture: None,
                },
            };
            face_shaders.push(Rc::new(shader));
            i = i + 1;
        }
        self.face_shaders = face_shaders;
    }

    /// Rasterizes one triangle into the surface: culled entirely — the
    /// surface untouched — when it faces away from the viewer, filled under
    /// its face shader otherwise.
    pub fn draw_triangle<D: Drawable>(&self, drawable: &mut D, start_index: usize)
        requires
            self.wf(),
            old(drawable).wf(),
            start_index < self.model.indices@.len() / 3,
        ensures
            final(drawable).wf(),
            final(drawable).surf() == draw_step_spec(old(drawable).surf(), self, start_index as int),
            tri_backface(self, start_index as int)
                ==> final(drawable).surf() == old(drawable).surf(),
    {
        let index_total = self.model.indices.len();
        proof {
            assert(3 * (self.model.indices@.len() / 3) <= self.model.indices@.len())
                by (nonlinear_arith);
            assert(self.model.indices@.len() == index_total as int);
        }
        let world_0 = self.world_points[self.model.indices[3 * start_index]];
        let world_1 = self.world_points[self.model.indices[3 * start_index + 1]];
        let world_2 = self.world_points[self.model.indices[3 * start_index + 2]];
        let (is_backface, normal) = Self::backface(world_0, world_1, world_2);
        if is_backface {
            return ;
        }
        let fallback_normal = normal.normalized();
        let p0 = self.point_at(start_index, 0, fallback_normal);
        let p1 = self.point_at(start_index, 1, fallback_normal);
        let p2 = self.point_at(start_index, 2, fallback_normal);
        let shader = &self.face_shaders[start_index];
        drawable.triangle(p0, p1, p2, shader);
    }

    fn point_at(&self, t: usize, j: usize, fallback_normal: Point3D) -> (r: Point<i64>)
        requires
            self.wf(),
            t < self.model.indices@.len() / 3,
            j < 3,
            fallback_normal == v3_to_p3(
                v3_normalized_spec(
                    face_normal_spec(
                        tri_world(self, t as int, 0),
                        tri_world(self, t as int, 1),
                        tri_world(self, t as int, 2),
                    ),
                ),
            ),
        ensures
            r == point_at_spec(self, t as int, j as int),
    {
        let index_total = self.model.indices.len();
        proof {
            assert(3 * (self.model.indices@.len() / 3) <= self.model.indices@.len())
                by (nonlinear_arith);
            assert(self.model.indices@.len() == index_total as int);
        }
        let meta_index = 3 * t + j;
        let index = self.model.indices[meta_index];
        let normal = if self.normals.len() > 0 {
            self.normals[meta_index]
        } else {
            fallback_normal
        };
        let uv = if self.model.uvs.len() > 0 {
            self.model.uvs[meta_index]
        } else {
            Point2D { x: 0, y: 0 }
        };
        let point = self.points[index];
        let world = self.world_points[index];
        let r = Point {
            x: point.x,
            y: point.y,
            interpolated: [
                point.z,
                world.x,
                world.y,
                world.z,
                normal.x,
                normal.y,
                normal.z,
                uv.x,
                uv.y,
            ],
        };
        proof {
            broadcast use vstd::array::group_array_axioms;

            assert(r.interpolated =~= point_at_spec(self, t as int, j as int).interpolated);
        }
        r
    }

    /// Rasterizes every triangle of the mesh in order.
    pub fn draw<D: Drawable>(&self, drawable: &mut D)
        requires
            self.wf(),
            old(drawable).wf(),
        ensures
            final(drawable).wf(),
            final(drawable).surf() == draw_upto_spec(
                old(drawable).surf(),
                self,
                self.model.indices@.len() as int / 3,
            ),
    {
        let triangle_count = self.model.indices.len() / 3;
        let mut t: usize = 0;
        while t < triangle_count
            invariant
                self.wf(),
                triangle_count == self.model.indices@.len() / 3,
                t <= triangle_count,
                drawable.wf(),
                drawable.surf() == draw_upto_spec(old(drawable).surf(), self, t as int),
            decreases triangle_count - t,
        {
            self.draw_triangle(drawable, t);
            t = t + 1;
        }
    }
}


/// The identity matrix as a value.
pub open spec fn m4_identity_val() -> [[i64; 4]; 4] {
    [
        [FX_ONE, 0i64, 0i64, 0i64],
        [0i64, FX_ONE, 0i64, 0i64],
        [0i64, 0i64, FX_ONE, 0i64],
        [0i64, 0i64, 0i64, FX_ONE],
    ]
}

#[verifier::rlimit(60)]
proof fn lemma_identity_mul_identity()
    ensures
        m4_mul_val(m4_identity_val(), m4_identity_val()) == m4_identity_val(),
{
    broadcast use vstd::array::group_array_axioms;

    let ii = m4_identity_val();
    let p = m4_mul_val(ii, ii);
    assert forall|y: int, x: int| 0 <= y < 4 && 0 <= x < 4 implies crate::matrices::m4m_entry(
        ii,
        ii,
        y,
        x,
    ) == ii[y][x] as int by {
        crate::fixed::lemma_fx_mul_one(ii[y][x] as int);
        crate::fixed::lemma_fx_mul_zero(ii[0][x] as int);
        crate::fixed::lemma_fx_mul_zero(ii[1][x] as int);
        crate::fixed::lemma_fx_mul_zero(ii[2][x] as int);
        crate::fixed::lemma_fx_mul_zero(ii[3][x] as int);
    }
    assert forall|y: int| 0 <= y < 4 implies p[y] == ii[y] by {
        assert forall|x: int| 0 <= x < 4 implies p[y][x] == ii[y][x] by {
            assert(crate::matrices::m4m_entry(ii, ii, y, x) == ii[y][x] as int);
        }
        assert(p[y] =~= ii[y]);
    }
    assert(p =~= ii);
}

/// Law: the identity transform is a round trip. With unit scale, zero
/// rotation and zero translation the combined model matrix maps every
/// homogeneous point to itself, bit for bit.
pub proof fn lemma_identity_transform(t: &Transform, v: [i64; 4])
    requires
        t.wf(),
        t.position_spec() == (0i64, 0i64, 0i64),
        t.scale_spec() == (FX_ONE, FX_ONE, FX_ONE),
        t.rotation_spec() == 0i64,
    ensures
        m4v_val(t.matrix_spec(), v) == v,
{
    broadcast use vstd::array::group_array_axioms;

    let ii = m4_identity_val();
    crate::fixed::lemma_trig_zero();
    let rot = rotate_mat_spec(0i64, t.axis_spec());
    let mag = fx_sqrt_spec(
        fx_add_spec(
            fx_add_spec(
                fx_mul_spec(t.axis_spec().0 as int, t.axis_spec().0 as int),
                fx_mul_spec(t.axis_spec().1 as int, t.axis_spec().1 as int),
            ),
            fx_mul_spec(t.axis_spec().2 as int, t.axis_spec().2 as int),
        ),
    );
    let ax = fx_div_spec(t.axis_spec().0 as int, mag);
    let ay = fx_div_spec(t.axis_spec().1 as int, mag);
    let az = fx_div_spec(t.axis_spec().2 as int, mag);
    assert(fx_cos_spec(0) == FX_ONE as int);
    assert(fx_sin_spec(0) == 0);
    assert(fx_sub_spec(FX_ONE as int, FX_ONE as int) == 0);
    crate::fixed::lemma_fx_mul_zero(fx_mul_spec(ax, ax));
    crate::fixed::lemma_fx_mul_zero(fx_mul_spec(ax, ay));
    crate::fixed::lemma_fx_mul_zero(fx_mul_spec(ax, az));
    crate::fixed::lemma_fx_mul_zero(fx_mul_spec(ay, ax));
    crate::fixed::lemma_fx_mul_zero(fx_mul_spec(ay, ay));
    crate::fixed::lemma_fx_mul_zero(fx_mul_spec(ay, az));
    crate::fixed::lemma_fx_mul_zero(fx_mul_spec(az, ax));
    crate::fixed::lemma_fx_mul_zero(fx_mul_spec(az, ay));
    crate::fixed::lemma_fx_mul_zero(fx_mul_spec(az, az));
    crate::fixed::lemma_fx_mul_zero(ax);
    crate::fixed::lemma_fx_mul_zero(ay);
    crate::fixed::lemma_fx_mul_zero(az);
    assert(rot[0] =~= ii[0]);
    assert(rot[1] =~= ii[1]);
    assert(rot[2] =~= ii[2]);
    assert(rot[3] =~= ii[3]);
    assert(rot =~= ii);
    assert(translate_mat_spec(t.position_spec()) =~= ii) by {
        assert(translate_mat_spec((0i64, 0i64, 0i64))[0] =~= ii[0]);
        assert(translate_mat_spec((0i64, 0i64, 0i64))[1] =~= ii[1]);
        assert(translate_mat_spec((0i64, 0i64, 0i64))[2] =~= ii[2]);
        assert(translate_mat_spec((0i64, 0i64, 0i64))[3] =~= ii[3]);
    }
    assert(scale_mat_spec(t.scale_spec()) =~= ii) by {
        assert(scale_mat_spec((FX_ONE, FX_ONE, FX_ONE))[0] =~= ii[0]);
        assert(scale_mat_spec((FX_ONE, FX_ONE, FX_ONE))[1] =~= ii[1]);
        assert(scale_mat_spec((FX_ONE, FX_ONE, FX_ONE))[2] =~= ii[2]);
        assert(scale_mat_spec((FX_ONE, FX_ONE, FX_ONE))[3] =~= ii[3]);
    }
    lemma_identity_mul_identity();
    assert(t.matrix_spec() == ii);
    let r = m4v_val(ii, v);
    assert forall|i: int| 0 <= i < 4 implies crate::matrices::m4v_entry(ii, v, i) == v[i] as int by {
        crate::fixed::lemma_fx_mul_one(v[i] as int);
        crate::fixed::lemma_fx_mul_zero(v[0] as int);
        crate::fixed::lemma_fx_mul_zero(v[1] as int);
        crate::fixed::lemma_fx_mul_zero(v[2] as int);
        crate::fixed::lemma_fx_mul_zero(v[3] as int);
    }
    assert forall|i: int| 0 <= i < 4 implies r[i] == v[i] by {
        assert(crate::matrices::m4v_entry(ii, v, i) == v[i] as int);
    }
    assert(r =~= v);
}


/// Law: the projection of the near-plane center. A view-space point at the
/// center of the near plane — straight ahead at distance `near` — maps to
/// clip-space depth exactly minus one after the perspective division,
/// whenever the plane fractions of the projection matrix divide without
/// remainder (with truncating division the general case holds to within a
/// few scalar steps; the divisibility premises name the inputs on which the
/// value is exact).
pub proof fn lemma_camera_near_center(near: i64, far: i64, fov: i64, aspect: i64)
    requires
        0 < near,
        near < far,
        far <= 0x100_0000_0000,
        far - near >= FX_ONE,
        ((far + near) * (FX_ONE as int)) % (far - near) == 0,
        (2 * far * near) % (FX_ONE as int) == 0,
        (2 * far * near) % (far - near) == 0,
        ((far + near) * near) % (far - near) == 0,
    ensures
        ({
            let cm = camera_mat_spec(near, far, fov, aspect);
            let v = [0i64, 0i64, (-near) as i64, FX_ONE];
            let t = m4v_val(cm, v);
            fx_div_spec(t[2] as int, t[3] as int) == -(FX_ONE as int)
        }),
{
    broadcast use vstd::array::group_array_axioms;

    let s = FX_ONE as int;
    let p = far as int + near;
    let d = far as int - near;
    let cm = camera_mat_spec(near, far, fov, aspect);
    let v = [0i64, 0i64, (-near) as i64, FX_ONE];
    crate::fixed::lemma_fx_mul_zero(0);
    crate::fixed::lemma_fx_mul_zero(cm[2][0] as int);
    crate::fixed::lemma_fx_mul_zero(cm[2][1] as int);
    crate::fixed::lemma_fx_mul_zero(cm[3][0] as int);
    crate::fixed::lemma_fx_mul_zero(cm[3][1] as int);
    // The fraction of the third row's diagonal entry.
    let pa = p * s;
    let qa = pa / d;
    assert(pa > 0) by (nonlinear_arith)
        requires
            pa == p * s,
            p > 0,
            s > 0,
    ;
    vstd::arithmetic::div_mod::lemma_fundamental_div_mod(pa, d);
    assert(qa * d == pa) by (nonlinear_arith)
        requires
            pa == d * qa + pa % d,
            pa % d == 0,
    ;
    assert(qa >= 0 && qa <= p) by (nonlinear_arith)
        requires
            qa * d == p * s,
            0 < s <= d,
            p > 0,
    ;
    assert(tdiv(pa, d) == qa);
    assert(fx_div_spec(p, d) == qa);
    assert(cm[2][2] as int == -qa);
    // The fraction of the third row's offset entry.
    assert(fx_mul_spec(2 * s, far as int) == 2 * far) by {
        assert((2 * s) * (far as int) == s * (2 * far) && s * (2 * far) > 0 && (s * (2 * far)) / s
            == 2 * far) by (nonlinear_arith)
            requires
                far > 0,
                s == 0x100_0000,
        ;
        assert(tdiv((2 * s) * (far as int), s) == 2 * far);
    }
    let fn2 = 2 * (far as int) * near;
    let b2 = fn2 / s;
    vstd::arithmetic::div_mod::lemma_fundamental_div_mod(fn2, s);
    assert(b2 * s == fn2) by (nonlinear_arith)
        requires
            fn2 == s * b2 + fn2 % s,
            fn2 % s == 0,
    ;
    assert(fn2 > 0 && fn2 <= 2 * 0x100_0000_0000int * 0x100_0000_0000) by (nonlinear_arith)
        requires
            0 < near,
            near < far,
            far <= 0x100_0000_0000,
            fn2 == 2 * (far as int) * near,
    ;
    assert(0 <= b2 && b2 * s == fn2 && b2 <= 0x2_0000_0000_0000_0000_0000int / 0x100_0000)
        by (nonlinear_arith)
        requires
            b2 * s == fn2,
            0 < fn2 <= 0x2_0000_0000_0000_0000_0000int,
            s == 0x100_0000,
    ;
    assert((2 * (far as int)) * near == fn2) by (nonlinear_arith)
        requires
            fn2 == 2 * (far as int) * near,
    ;
    assert(tdiv((2 * (far as int)) * near, s) == b2) by {
        assert(fn2 / s == b2);
    }
    assert(fx_mul_spec(2 * far, near as int) == b2);
    let b3 = fn2 / d;
    vstd::arithmetic::div_mod::lemma_fundamental_div_mod(fn2, d);
    assert(b3 * d == fn2) by (nonlinear_arith)
        requires
            fn2 == d * b3 + fn2 % d,
            fn2 % d == 0,
    ;
    assert((b2 * s) % d == 0) by {
        assert(b2 * s == fn2);
    }
    assert((b2 * s) / d == b3) by {
        assert(b2 * s == fn2);
    }
    assert(b2 * s > 0);
    assert(tdiv(b2 * s, d) == b3);
    assert(0 <= b3 && b3 <= b2) by (nonlinear_arith)
        requires
            b3 * d == b2 * s,
            0 < s <= d,
            b2 >= 0,
    ;
    assert(fx_div_spec(b2, d) == b3);
    assert(cm[2][3] as int == -b3);
    // The third row applied to the point: qa picks up the near distance.
    let c = (p * near) / d;
    vstd::arithmetic::div_mod::lemma_fundamental_div_mod(p * near, d);
    assert(c * d == p * near) by (nonlinear_arith)
        requires
            p * near == d * c + (p * near) % d,
            (p * near) % d == 0,
    ;
    assert(0 <= c && c * s <= p * near) by (nonlinear_arith)
        requires
            c * d == p * near,
            0 < s <= d,
            p > 0,
            near > 0,
    ;
    assert(c <= 0x200_0000_0000int * 0x100_0000_0000 / 0x100_0000) by (nonlinear_arith)
        requires
            c * s <= p * near,
            0 < p <= 0x200_0000_0000int,
            0 < (near as int) <= 0x100_0000_0000,
            s == 0x100_0000,
            c >= 0,
    ;
    assert((-qa) * (-(near as int)) == qa * near) by (nonlinear_arith);
    assert(qa * near == s * c) by (nonlinear_arith)
        requires
            qa * d == p * s,
            c * d == p * near,
            d != 0,
    ;
    assert(tdiv(qa * near, s) == c) by {
        if c == 0 {
            assert(qa * near == 0);
        } else {
            assert(qa * near > 0 && (s * c) / s == c) by (nonlinear_arith)
                requires
                    qa * near == s * c,
                    c > 0,
                    s > 0,
            ;
        }
    }
    assert(fx_mul_spec(-qa, -(near as int)) == c);
    crate::fixed::lemma_fx_mul_one(-b3);
    assert(fx_mul_spec(-b3, s) == -b3);
    // The third row applied to the point is minus the near distance.
    let t2 = crate::matrices::m4v_entry(cm, v, 2);
    assert(v[0] == 0i64 && v[1] == 0i64 && v[2] as int == -(near as int) && v[3] as int == s);
    assert(t2 == fx_add_spec(c, -b3)) by {
        assert(fx_mul_spec(cm[2][0] as int, 0) == 0);
        assert(fx_mul_spec(cm[2][1] as int, 0) == 0);
        assert(fx_add_spec(0, 0) == 0);
        assert(fx_add_spec(0, c) == c);
    }
    assert((c - b3) * d == -near * d) by (nonlinear_arith)
        requires
            c * d == p * near,
            b3 * d == fn2,
            fn2 == 2 * (far as int) * near,
            p == far as int + near,
            d == far as int - near,
    ;
    assert(c - b3 == -near) by (nonlinear_arith)
        requires
            (c - b3) * d == -near * d,
            d != 0,
    ;
    assert(t2 == -(near as int));
    // The fourth row applied to the point is the near distance itself.
    let t3 = crate::matrices::m4v_entry(cm, v, 3);
    assert(cm[3][2] as int == -s && cm[3][3] as int == 0);
    crate::fixed::lemma_fx_mul_one(near as int);
    assert((-s) * (-(near as int)) == s * near) by (nonlinear_arith);
    assert(fx_mul_spec(-s, -(near as int)) == near as int);
    crate::fixed::lemma_fx_mul_zero(s);
    assert(t3 == near as int) by {
        assert(fx_mul_spec(cm[3][0] as int, 0) == 0);
        assert(fx_mul_spec(cm[3][1] as int, 0) == 0);
        assert(fx_add_spec(0, 0) == 0);
        assert(fx_add_spec(0, near as int) == near as int);
        assert(fx_add_spec(near as int, 0) == near as int);
    }
    // The perspective division gives exactly minus one.
    let t = m4v_val(cm, v);
    assert(t[2] as int == t2 && t[3] as int == t3);
    assert((near as int) * s > 0 && ((near as int) * s) / (near as int) == s) by (nonlinear_arith)
        requires
            near > 0,
            s > 0,
    ;
    assert((-(near as int)) * s < 0 && ((-(near as int)) * s) * -1 == (near as int) * s)
        by (nonlinear_arith)
        requires
            near > 0,
            s > 0,
    ;
    assert(tdiv((-(near as int)) * s, near as int) == -s);
    assert(fx_div_spec(-(near as int), near as int) == -s);
}

} // verus!
