//! The mesh data the pipeline renders — flat vertex, index and attribute
//! buffers with a material table — and the text parser that fills it from
//! the wavefront geometry format. The parser works on the file's bytes;
//! reading files and decoding texture images is the loader shell's business,
//! driven by the requests the parsing functions hand back.

use vstd::prelude::*;
use std::rc::Rc;

use crate::common::{Color, Point2D, Point3D};
use crate::fixed::FX_HALF;
use crate::texture::Texture;

verus! {

/// A parse failure annotated with the line it happened on.
#[derive(Debug)]
pub struct ModelError {
    pub line_index: Option<usize>,
    pub error_type: ModelErrorType,
}

/// What went wrong while building a model. Failures of the loader shell
/// (file reading, texture decoding) carry no payload here; the shell reports
/// their details itself.
#[derive(Debug)]
pub enum ModelErrorType {
    Io,
    Material(Option<usize>),
    ParsingError(Vec<u8>),
    TextureLoadError,
    GenericError,
    MissingValue,
    MissingMaterial,
    NoMaterial,
    NoNormals,
    MalformedObj,
}

/// The index of the first nonempty value at or after `pos`, or the list's
/// length when none is left.
pub open spec fn first_nonempty(values: Seq<Seq<u8>>, pos: int) -> int
    decreases values.len() - pos,
{
    if pos < 0 || pos >= values.len() {
        values.len() as int
    } else if values[pos].len() > 0 {
        pos
    } else {
        first_nonempty(values, pos + 1)
    }
}

/// The first nonempty value is never before the position searched from.
pub proof fn lemma_first_nonempty_bounds(values: Seq<Seq<u8>>, pos: int)
    requires
        0 <= pos <= values.len(),
    ensures
        pos <= first_nonempty(values, pos) <= values.len(),
    decreases values.len() - pos,
{
    if pos < values.len() && values[pos].len() == 0 {
        lemma_first_nonempty_bounds(values, pos + 1);
    }
}

/// One meaningful line of a geometry or material file: its line number, its
/// leading keyword, everything after the keyword, and the remaining
/// whitespace-separated values.
#[derive(Debug)]
pub struct ObjLine {
    index: usize,
    field: Vec<u8>,
    rest: Vec<u8>,
    values: Vec<Vec<u8>>,
    pos: usize,
}

impl ObjLine {
    /// The line number the line came from.
    pub closed spec fn index_spec(&self) -> usize {
        self.index
    }

    /// The line's leading keyword.
    pub closed spec fn field_spec(&self) -> Seq<u8> {
        self.field@
    }

    /// Everything after the keyword.
    pub closed spec fn rest_spec(&self) -> Seq<u8> {
        self.rest@
    }

    /// The line's values as byte strings.
    pub closed spec fn values_spec(&self) -> Seq<Seq<u8>> {
        self.values@.map_values(|v: Vec<u8>| v@)
    }

    /// How many values have been consumed.
    pub closed spec fn pos_spec(&self) -> usize {
        self.pos
    }

    /// Builds a line from its parts.
    pub fn new(index: usize, field: Vec<u8>, rest: Vec<u8>, values: Vec<Vec<u8>>) -> (r: ObjLine)
        ensures
            r.index_spec() == index,
            r.field_spec() == field@,
            r.rest_spec() == rest@,
            r.values_spec() == values@.map_values(|v: Vec<u8>| v@),
            r.pos_spec() == 0,
    {
        ObjLine { index, field, rest, values, pos: 0 }
    }

    /// The line number.
    pub fn index(&self) -> (r: usize)
        ensures
            r == self.index_spec(),
    {
        self.index
    }

    /// The line's leading keyword.
    pub fn field(&self) -> (r: &Vec<u8>)
        ensures
            r@ == self.field_spec(),
    {
        &self.field
    }

    /// Everything on the line after its leading keyword.
    pub fn rest(&self) -> (r: &Vec<u8>)
        ensures
            r@ == self.rest_spec(),
    {
        &self.rest
    }

    /// The next nonempty value of the line, or `MissingValue` when none is
    /// left; empty values are skipped for good.
    pub fn next_value(&mut self) -> (r: Result<Vec<u8>, ModelErrorType>)
        ensures
            final(self).index_spec() == old(self).index_spec(),
            final(self).field_spec() == old(self).field_spec(),
            final(self).rest_spec() == old(self).rest_spec(),
            final(self).values_spec() == old(self).values_spec(),
            ({
                let k = first_nonempty(old(self).values_spec(), old(self).pos_spec() as int);
                if k < old(self).values_spec().len() {
                    &&& r matches Ok(v) && v@ == old(self).values_spec()[k]
                    &&& final(self).pos_spec() == k + 1
                } else {
                    &&& r matches Err(e) && e is MissingValue
                    &&& final(self).pos_spec() == old(self).values_spec().len()
                }
            }),
    {
        loop
            invariant
                self.index_spec() == old(self).index_spec(),
                self.field_spec() == old(self).field_spec(),
                self.rest_spec() == old(self).rest_spec(),
                self.values_spec() == old(self).values_spec(),
                old(self).pos_spec() <= self.pos_spec(),
                first_nonempty(self.values_spec(), self.pos_spec() as int) == first_nonempty(
                    old(self).values_spec(),
                    old(self).pos_spec() as int,
                ),
                self.pos_spec() <= self.values_spec().len() || old(self).pos_spec()
                    == self.pos_spec(),
            decreases self.values_spec().len() - self.pos_spec(),
        {
            if self.pos >= self.values.len() {
                self.pos = self.values.len();
                return Err(ModelErrorType::MissingValue);
            }
            let v = &self.values[self.pos];
            if v.len() > 0 {
                let out = self.values[self.pos].clone();
                proof {
                    vstd::std_specs::vec::axiom_spec_len(&self.values);
                }
                self.pos = self.pos + 1;
                assert(out@ == old(self).values_spec()[first_nonempty(
                    old(self).values_spec(),
                    old(self).pos_spec() as int,
                )]);
                return Ok(out);
            }
            self.pos = self.pos + 1;
        }
    }
}

/// One material: an optional flat color and an optional texture.
#[derive(Debug, Clone)]
pub struct Material {
    pub diffuse_color: Option<Color>,
    pub diffuse_texture: Option<Rc<Texture>>,
}

impl Material {
    /// A material with neither color nor texture.
    pub fn new() -> (r: Material)
        ensures
            r.diffuse_color is None,
            r.diffuse_texture is None,
    {
        Material { diffuse_color: None, diffuse_texture: None }
    }
}

/// Compares two byte strings.
pub fn bytes_eq(a: &Vec<u8>, b: &Vec<u8>) -> (r: bool)
    ensures
        r == (a@ == b@),
{
    if a.len() != b.len() {
        proof {
            assert(a@.len() != b@.len());
        }
        return false;
    }
    let n = a.len();
    let mut i: usize = 0;
    while i < n
        invariant
            n == a@.len(),
            n == b@.len(),
            i <= n,
            forall|j: int| 0 <= j < i ==> a@[j] == b@[j],
        decreases n - i,
    {
        if a[i] != b[i] {
            return false;
        }
        i = i + 1;
    }
    proof {
        assert(a@ =~= b@);
    }
    true
}

/// Whether a name is already registered.
pub open spec fn has_name(names: Seq<(Vec<u8>, usize)>, name: Seq<u8>) -> bool {
    exists|i: int| 0 <= i < names.len() && names[i].0@ == name
}

/// The material table under construction: the materials in registration
/// order, the registered names (each mapping to its material's position),
/// and the material new properties currently apply to.
pub struct Materials {
    fallback_material: Material,
    material_indices: Vec<(Vec<u8>, usize)>,
    materials: Vec<Material>,
    current_material: Option<usize>,
}

impl Materials {
    /// The registered names with their positions.
    pub closed spec fn names_spec(&self) -> Seq<(Vec<u8>, usize)> {
        self.material_indices@
    }

    /// The materials registered so far.
    pub closed spec fn materials_spec(&self) -> Seq<Material> {
        self.materials@
    }

    /// The position new properties currently apply to.
    pub closed spec fn current_spec(&self) -> Option<usize> {
        self.current_material
    }

    /// The fallback material used while no material is current.
    pub closed spec fn fallback_spec(&self) -> Material {
        self.fallback_material
    }

    /// Names and materials correspond one to one, in registration order,
    /// with no name registered twice, and the current position is in range.
    pub open spec fn wf(&self) -> bool {
        &&& self.names_spec().len() == self.materials_spec().len()
        &&& forall|i: int| 0 <= i < self.names_spec().len() ==> (#[trigger] self.names_spec()[i]).1 == i
        &&& forall|i: int, j: int|
            0 <= i < j < self.names_spec().len() ==> self.names_spec()[i].0@
                != self.names_spec()[j].0@
        &&& match self.current_spec() {
            Option::Some(c) => c < self.materials_spec().len(),
            Option::None => true,
        }
    }

    /// An empty table whose fallback material is mid-gray.
    pub fn new() -> (r: Materials)
        ensures
            r.wf(),
            r.names_spec().len() == 0,
            r.materials_spec().len() == 0,
            r.current_spec() is None,
            r.fallback_spec().diffuse_color == Some(
                Color { r: FX_HALF, g: FX_HALF, b: FX_HALF },
            ),
    {
        Materials {
            fallback_material: Material {
                diffuse_color: Some(Color::new(FX_HALF, FX_HALF, FX_HALF)),
                diffuse_texture: None,
            },
            material_indices: Vec::new(),
            materials: Vec::new(),
            current_material: None,
        }
    }

    /// The materials registered so far.
    pub fn materials(&self) -> (r: &Vec<Material>)
        ensures
            r@ == self.materials_spec(),
    {
        &self.materials
    }

    fn find_name(&self, name: &Vec<u8>) -> (r: Option<usize>)
        ensures
            match r {
                Option::Some(i) => i < self.names_spec().len() && self.names_spec()[i as int].0@
                    == name@,
                Option::None => !has_name(self.names_spec(), name@),
            },
    {
        let n = self.material_indices.len();
        let mut i: usize = 0;
        while i < n
            invariant
                n == self.names_spec().len(),
                i <= n,
                forall|j: int| 0 <= j < i ==> self.names_spec()[j].0@ != name@,
            decreases n - i,
        {
            if bytes_eq(&self.material_indices[i].0, name) {
                return Some(i);
            }
            i = i + 1;
        }
        None
    }

    /// Registers a fresh material under a name and makes it current; a name
    /// registered before is refused.
    pub fn add(&mut self, name: Vec<u8>) -> (r: Result<(), ModelErrorType>)
        requires
            old(self).wf(),
        ensures
            final(self).wf(),
            final(self).fallback_spec() == old(self).fallback_spec(),
            if has_name(old(self).names_spec(), name@) {
                &&& r matches Err(e) && e matches ModelErrorType::Material(m) && m is None
                &&& final(self).names_spec() == old(self).names_spec()
                &&& final(self).materials_spec() == old(self).materials_spec()
                &&& final(self).current_spec() == old(self).current_spec()
            } else {
                &&& r is Ok
                &&& final(self).names_spec() == old(self).names_spec().push(
                    (name, old(self).materials_spec().len() as usize),
                )
                &&& final(self).materials_spec().len() == old(self).materials_spec().len() + 1
                &&& final(self).materials_spec().drop_last() == old(self).materials_spec()
                &&& final(self).materials_spec().last().diffuse_color is None
                &&& final(self).materials_spec().last().diffuse_texture is None
                &&& final(self).current_spec() == Some(old(self).materials_spec().len() as usize)
            },
    {
        if self.find_name(&name).is_none() {
            let index = self.materials.len();
            self.material_indices.push((name, index));
            self.materials.push(Material::new());
            self.current_material = Some(index);
            proof {
                assert(self.materials@.drop_last() =~= old(self).materials@);
            }
            Ok(())
        } else {
            proof {
                let i = choose|i: int|
                    0 <= i < old(self).names_spec().len() && old(self).names_spec()[i].0@ == name@;
                assert(has_name(old(self).names_spec(), name@));
            }
            Err(ModelErrorType::Material(None))
        }
    }

    /// The material new properties currently apply to: the current one, or
    /// the fallback while none is current.
    pub fn current(&self) -> (r: &Material)
        requires
            self.wf(),
        ensures
            match self.current_spec() {
                Option::Some(i) => r == self.materials_spec()[i as int],
                Option::None => r == self.fallback_spec(),
            },
    {
        if let Some(index) = self.current_material {
            &self.materials[index]
        } else {
            &self.fallback_material
        }
    }

    /// The position of the current material, if one is current.
    pub fn current_index(&self) -> (r: Option<usize>)
        ensures
            r == self.current_spec(),
    {
        self.current_material
    }

    /// Makes the named material current; an unknown name clears the current
    /// material and is reported.
    pub fn set_current(&mut self, name: &Vec<u8>) -> (r: Result<(), ModelErrorType>)
        requires
            old(self).wf(),
        ensures
            final(self).wf(),
            final(self).names_spec() == old(self).names_spec(),
            final(self).materials_spec() == old(self).materials_spec(),
            final(self).fallback_spec() == old(self).fallback_spec(),
            if has_name(old(self).names_spec(), name@) {
                &&& r is Ok
                &&& final(self).current_spec() matches Some(i) && old(self).names_spec()[i as int].0@ == name@
            } else {
                &&& r matches Err(e) && e is MissingMaterial
                &&& final(self).current_spec() is None
            },
    {
        let index = self.find_name(name);
        self.current_material = index;
        match index {
            Some(i) => {
                proof {
                    assert(0 <= i < self.names_spec().len() && self.names_spec()[i as int].0@
                        == name@);
                }
                Ok(())
            },
            None => Err(ModelErrorType::MissingMaterial),
        }
    }

    /// Clears the current material.
    pub fn clear_current(&mut self)
        ensures
            final(self).names_spec() == old(self).names_spec(),
            final(self).materials_spec() == old(self).materials_spec(),
            final(self).fallback_spec() == old(self).fallback_spec(),
            final(self).current_spec() is None,
            old(self).wf() ==> final(self).wf(),
    {
        self.current_material = None;
    }

    /// Gives the current material (or the fallback) a flat color.
    pub fn set_diffuse(&mut self, color: Color)
        requires
            old(self).wf(),
        ensures
            final(self).wf(),
            final(self).names_spec() == old(self).names_spec(),
            final(self).current_spec() == old(self).current_spec(),
            match old(self).current_spec() {
                Option::Some(i) => final(self).materials_spec() == old(self).materials_spec().update(
                    i as int,
                    Material {
                        diffuse_color: Some(color),
                        diffuse_texture: old(self).materials_spec()[i as int].diffuse_texture,
                    },
                ) && final(self).fallback_spec() == old(self).fallback_spec(),
                Option::None => final(self).materials_spec() == old(self).materials_spec() && final(self).fallback_spec() == (Material {
                    diffuse_color: Some(color),
                    diffuse_texture: old(self).fallback_spec().diffuse_texture,
                }),
            },
    {
        if let Some(index) = self.current_material {
            let texture = match &self.materials[index].diffuse_texture {
                Some(t) => Some(t.clone()),
                None => None,
            };
            self.materials[index] = Material { diffuse_color: Some(color), diffuse_texture: texture };
        } else {
            let texture = match &self.fallback_material.diffuse_texture {
                Some(t) => Some(t.clone()),
                None => None,
            };
            self.fallback_material = Material {
                diffuse_color: Some(color),
                diffuse_texture: texture,
            };
        }
    }

    /// Gives the current material (or the fallback) a texture.
    pub fn set_diffuse_texture(&mut self, texture: Rc<Texture>)
        requires
            old(self).wf(),
        ensures
            final(self).wf(),
            final(self).names_spec() == old(self).names_spec(),
            final(self).current_spec() == old(self).current_spec(),
            match old(self).current_spec() {
                Option::Some(i) => final(self).materials_spec() == old(self).materials_spec().update(
                    i as int,
                    Material {
                        diffuse_color: old(self).materials_spec()[i as int].diffuse_color,
                        diffuse_texture: Some(texture),
                    },
                ) && final(self).fallback_spec() == old(self).fallback_spec(),
                Option::None => final(self).materials_spec() == old(self).materials_spec() && final(self).fallback_spec() == (Material {
                    diffuse_color: old(self).fallback_spec().diffuse_color,
                    diffuse_texture: Some(texture),
                }),
            },
    {
        if let Some(index) = self.current_material {
            let color = self.materials[index].diffuse_color;
            self.materials[index] = Material { diffuse_color: color, diffuse_texture: Some(texture) };
        } else {
            let color = self.fallback_material.diffuse_color;
            self.fallback_material = Material { diffuse_color: color, diffuse_texture: Some(texture) };
        }
    }
}

/// A triangle mesh with flat buffers: vertex positions (three scalars per
/// vertex), triangle corner indices (three per triangle), optional
/// per-corner normals and texture coordinates aligned to the index buffer,
/// a per-triangle material position, and the material table.
#[derive(Debug)]
pub struct Model {
    pub vertices: Vec<i64>,
    pub indices: Vec<usize>,
    pub material_indices: Vec<Option<usize>>,
    pub normals: Vec<Point3D>,
    pub uvs: Vec<Point2D<i64>>,
    pub materials: Vec<Material>,
}

impl Model {
    /// The input contract the loader guarantees (and the renderer relies
    /// on): whole vertices and triangles, corner indices inside the vertex
    /// buffer, optional attribute buffers covering every corner, the
    /// material positions covering every triangle and pointing into the
    /// table, and every texture well formed.
    pub open spec fn draw_wf(&self) -> bool {
        &&& self.vertices@.len() % 3 == 0
        &&& self.indices@.len() % 3 == 0
        &&& forall|i: int|
            0 <= i < self.indices@.len() ==> (#[trigger] self.indices@[i]) < self.vertices@.len()
                / 3
        &&& self.normals@.len() == 0 || self.normals@.len() >= self.indices@.len()
        &&& self.uvs@.len() == 0 || self.uvs@.len() >= self.indices@.len()
        &&& self.material_indices@.len() >= self.indices@.len() / 3
        &&& forall|i: int|
            0 <= i < self.material_indices@.len() ==> match #[trigger] self.material_indices@[i] {
                Option::Some(m) => m < self.materials@.len(),
                Option::None => true,
            }
        &&& forall|i: int|
            0 <= i < self.materials@.len() ==> match (#[trigger] self.materials@[i]).diffuse_texture {
                Option::Some(t) => t.wf(),
                Option::None => true,
            }
    }

    /// An empty model.
    pub fn new() -> (r: Model)
        ensures
            r.vertices@.len() == 0,
            r.indices@.len() == 0,
            r.material_indices@.len() == 0,
            r.normals@.len() == 0,
            r.uvs@.len() == 0,
            r.materials@.len() == 0,
            r.draw_wf(),
    {
        Model {
            vertices: Vec::new(),
            indices: Vec::new(),
            material_indices: Vec::new(),
            normals: Vec::new(),
            uvs: Vec::new(),
            materials: Vec::new(),
        }
    }
}


/// Whether a byte is horizontal or trailing whitespace.
pub open spec fn is_space(b: u8) -> bool {
    b == 32 || b == 9 || b == 13
}

/// The first position at or after `i` holding a byte other than whitespace.
pub open spec fn skip_spaces(s: Seq<u8>, i: int) -> int
    decreases s.len() - i,
{
    if i < 0 || i >= s.len() {
        s.len() as int
    } else if is_space(s[i]) {
        skip_spaces(s, i + 1)
    } else {
        i
    }
}

/// One past the last position before `j` holding a byte other than
/// whitespace.
pub open spec fn rskip_spaces(s: Seq<u8>, j: int) -> int
    decreases j,
{
    if j <= 0 || j > s.len() {
        0
    } else if is_space(s[j - 1]) {
        rskip_spaces(s, j - 1)
    } else {
        j
    }
}

/// The position of the first occurrence of `b` at or after `i`, or the
/// length when it never occurs.
pub open spec fn find_from(s: Seq<u8>, b: u8, i: int) -> int
    decreases s.len() - i,
{
    if i < 0 || i >= s.len() {
        s.len() as int
    } else if s[i] == b {
        i
    } else {
        find_from(s, b, i + 1)
    }
}

/// The position of the first occurrence of a byte.
pub fn find_byte(line: &Vec<u8>, b: u8) -> (r: usize)
    ensures
        r as int == find_from(line@, b, 0),
{
    let n = line.len();
    let mut i: usize = 0;
    while i < n
        invariant
            n == line@.len(),
            i <= n,
            find_from(line@, b, 0) == find_from(line@, b, i as int),
        decreases n - i,
    {
        if line[i] == b {
            return i;
        }
        i = i + 1;
    }
    n
}

/// Cuts a line at its first comment mark, keeping what precedes it.
pub fn remove_comments(line: &Vec<u8>) -> (r: Vec<u8>)
    ensures
        r@ == line@.take(find_from(line@, 35, 0)),
{
    let end = find_byte(line, 35);
    let mut out: Vec<u8> = Vec::new();
    let mut i: usize = 0;
    proof {
        crate::model::lemma_find_from_bounds(line@, 35, 0);
    }
    while i < end
        invariant
            end <= line@.len(),
            i <= end,
            out@.len() == i,
            forall|j: int| 0 <= j < i ==> out@[j] == line@[j],
        decreases end - i,
    {
        out.push(line[i]);
        i = i + 1;
    }
    proof {
        assert(out@ =~= line@.take(end as int));
    }
    out
}

/// `find_from` stays within the text.
pub proof fn lemma_find_from_bounds(s: Seq<u8>, b: u8, i: int)
    requires
        0 <= i <= s.len(),
    ensures
        i <= find_from(s, b, i) <= s.len(),
    decreases s.len() - i,
{
    if i < s.len() && s[i] != b {
        lemma_find_from_bounds(s, b, i + 1);
    }
}

/// `skip_spaces` stays within the text, and `rskip_spaces` before it.
pub proof fn lemma_trim_bounds(s: Seq<u8>, i: int, j: int)
    requires
        0 <= i <= s.len(),
        0 <= j <= s.len(),
    ensures
        i <= skip_spaces(s, i) <= s.len(),
        0 <= rskip_spaces(s, j) <= j,
    decreases s.len() - i + j,
{
    if i < s.len() && is_space(s[i]) {
        lemma_trim_bounds(s, i + 1, j);
    } else if j > 0 && is_space(s[j - 1]) {
        lemma_trim_bounds(s, i, j - 1);
    }
}

/// Removes leading and trailing whitespace.
pub fn trim_bytes(line: &Vec<u8>) -> (r: Vec<u8>)
    ensures
        r@ == ({
            let lo = skip_spaces(line@, 0);
            let hi = rskip_spaces(line@, line@.len() as int);
            if lo <= hi {
                line@.subrange(lo, hi)
            } else {
                Seq::<u8>::empty()
            }
        }),
{
    let n = line.len();
    let mut lo: usize = 0;
    while lo < n && (line[lo] == 32 || line[lo] == 9 || line[lo] == 13)
        invariant
            n == line@.len(),
            lo <= n,
            skip_spaces(line@, 0) == skip_spaces(line@, lo as int),
        decreases n - lo,
    {
        lo = lo + 1;
    }
    proof {
        assert(skip_spaces(line@, lo as int) == lo as int);
    }
    let mut hi: usize = n;
    while hi > 0 && (line[hi - 1] == 32 || line[hi - 1] == 9 || line[hi - 1] == 13)
        invariant
            n == line@.len(),
            hi <= n,
            rskip_spaces(line@, n as int) == rskip_spaces(line@, hi as int),
        decreases hi,
    {
        hi = hi - 1;
    }
    proof {
        assert(rskip_spaces(line@, hi as int) == hi as int);
    }
    let mut out: Vec<u8> = Vec::new();
    let mut i: usize = lo;
    while i < hi
        invariant
            hi <= n,
            n == line@.len(),
            lo <= i <= hi || (lo > hi && i == lo),
            out@.len() == i - lo || (lo > hi && out@.len() == 0),
            forall|j: int| 0 <= j < out@.len() ==> out@[j] == line@[lo + j],
        decreases hi - i,
    {
        out.push(line[i]);
        i = i + 1;
    }
    proof {
        if lo as int <= hi as int {
            assert(out@ =~= line@.subrange(lo as int, hi as int));
        } else {
            assert(out@ =~= Seq::<u8>::empty());
        }
    }
    out
}

/// The tokens of a byte string split at every separator, empties kept,
/// rejoined with the separator giving back the string.
pub open spec fn join_spec(tokens: Seq<Seq<u8>>, sep: u8) -> Seq<u8>
    decreases tokens.len(),
{
    if tokens.len() == 0 {
        Seq::empty()
    } else if tokens.len() == 1 {
        tokens[0]
    } else {
        join_spec(tokens.drop_last(), sep) + seq![sep] + tokens.last()
    }
}

/// Splits a byte string at every occurrence of a separator, keeping empty
/// tokens; joining the tokens with the separator restores the string.
pub fn split_bytes(line: &Vec<u8>, sep: u8) -> (r: Vec<Vec<u8>>)
    ensures
        r@.len() >= 1,
        join_spec(r@.map_values(|v: Vec<u8>| v@), sep) == line@,
{
    let n = line.len();
    let mut out: Vec<Vec<u8>> = Vec::new();
    let mut current: Vec<u8> = Vec::new();
    let mut i: usize = 0;
    while i < n
        invariant
            n == line@.len(),
            i <= n,
            join_spec(out@.map_values(|v: Vec<u8>| v@).push(current@), sep) == line@.take(i as int),
        decreases n - i,
    {
        let ghost prev_tokens = out@.map_values(|v: Vec<u8>| v@);
        let ghost prev_current = current@;
        if line[i] == sep {
            out.push(current);
            current = Vec::new();
            proof {
                let tokens = out@.map_values(|v: Vec<u8>| v@);
                assert(tokens =~= prev_tokens.push(prev_current));
                assert(tokens.push(current@).drop_last() =~= tokens);
                assert(tokens.drop_last() =~= prev_tokens);
                assert(tokens.push(current@).len() >= 2);
                assert(join_spec(tokens.push(current@), sep) == join_spec(tokens, sep) + seq![sep]
                    + current@);
                assert(join_spec(tokens, sep) == join_spec(prev_tokens.push(prev_current), sep));
                assert(join_spec(tokens.push(current@), sep) =~= line@.take(i as int + 1));
            }
        } else {
            current.push(line[i]);
            proof {
                let tokens = out@.map_values(|v: Vec<u8>| v@);
                assert(tokens =~= prev_tokens);
                if tokens.len() == 0 {
                    assert(join_spec(tokens.push(current@), sep) == current@);
                    assert(current@ =~= line@.take(i as int + 1));
                } else {
                    assert(tokens.push(current@).drop_last() =~= tokens.push(prev_current).drop_last());
                    assert(join_spec(tokens.push(current@), sep) == join_spec(
                        tokens.push(prev_current).drop_last(),
                        sep,
                    ) + seq![sep] + current@);
                    assert(join_spec(tokens.push(prev_current), sep) == join_spec(
                        tokens.push(prev_current).drop_last(),
                        sep,
                    ) + seq![sep] + prev_current);
                    assert(join_spec(tokens.push(current@), sep) =~= line@.take(i as int + 1));
                }
            }
        }
        i = i + 1;
    }
    let ghost fin_tokens = out@.map_values(|v: Vec<u8>| v@);
    let ghost fin_current = current@;
    out.push(current);
    proof {
        assert(line@.take(n as int) =~= line@);
        assert(out@.map_values(|v: Vec<u8>| v@) =~= fin_tokens.push(fin_current));
    }
    out
}


/// The decimal value of the digit bytes `s[i..j]`, most significant first.
pub open spec fn digits_value(s: Seq<u8>, i: int, j: int) -> int
    decreases j - i,
{
    if j <= i {
        0
    } else {
        digits_value(s, i, j - 1) * 10 + (s[j - 1] - 48)
    }
}

/// Whether every byte of `s[i..j]` is a decimal digit.
pub open spec fn all_digits(s: Seq<u8>, i: int, j: int) -> bool {
    forall|k: int| i <= k < j ==> 48 <= #[trigger] s[k] <= 57
}

/// Ten to the `k`.
pub open spec fn pow10(k: int) -> int
    decreases k,
{
    if k <= 0 {
        1
    } else {
        10 * pow10(k - 1)
    }
}

/// The value of a digit run never shrinks as it extends.
pub proof fn lemma_digits_monotone(s: Seq<u8>, i: int, j: int, k: int)
    requires
        i <= j <= k,
        all_digits(s, i, k),
    ensures
        0 <= digits_value(s, i, j) <= digits_value(s, i, k),
    decreases k - j,
{
    if j == k {
        lemma_digits_nonneg(s, i, j);
    } else {
        lemma_digits_monotone(s, i, j, k - 1);
        lemma_digits_nonneg(s, i, k - 1);
        assert(digits_value(s, i, k) == digits_value(s, i, k - 1) * 10 + (s[k - 1] - 48));
        assert(digits_value(s, i, k - 1) * 10 >= digits_value(s, i, k - 1)) by (nonlinear_arith)
            requires
                digits_value(s, i, k - 1) >= 0,
        ;
    }
}

/// The value of a digit run is never negative.
pub proof fn lemma_digits_nonneg(s: Seq<u8>, i: int, j: int)
    requires
        all_digits(s, i, j),
    ensures
        digits_value(s, i, j) >= 0,
    decreases j - i,
{
    if j > i {
        lemma_digits_nonneg(s, i, j - 1);
        assert(digits_value(s, i, j - 1) * 10 >= 0) by (nonlinear_arith)
            requires
                digits_value(s, i, j - 1) >= 0,
        ;
    }
}

/// Ten to the `k` is positive.
pub proof fn lemma_pow10_pos(k: int)
    ensures
        pow10(k) >= 1,
    decreases k,
{
    if k > 0 {
        lemma_pow10_pos(k - 1);
        assert(10 * pow10(k - 1) >= pow10(k - 1)) by (nonlinear_arith)
            requires
                pow10(k - 1) >= 1,
        ;
    }
}

/// Ten to the `k` grows with `k`.
pub proof fn lemma_pow10_monotone(a: int, b: int)
    requires
        0 <= a <= b,
    ensures
        1 <= pow10(a) <= pow10(b),
    decreases b - a,
{
    lemma_pow10_pos(a);
    if a < b {
        lemma_pow10_monotone(a, b - 1);
        assert(pow10(b) == 10 * pow10(b - 1));
        assert(10 * pow10(b - 1) >= pow10(b - 1)) by (nonlinear_arith)
            requires
                pow10(b - 1) >= 1,
        ;
    }
}

/// Where a number's digits start: after one optional sign byte.
pub open spec fn num_start(s: Seq<u8>) -> int {
    if s.len() > 0 && (s[0] == 43 || s[0] == 45) {
        1
    } else {
        0
    }
}

/// Whether the byte string is a signed run of digits.
pub open spec fn int_format(s: Seq<u8>) -> bool {
    &&& s.len() > num_start(s)
    &&& all_digits(s, num_start(s), s.len() as int)
}

/// The signed value of a decimal integer byte string.
pub open spec fn int_value_spec(s: Seq<u8>) -> int {
    let m = digits_value(s, num_start(s), s.len() as int);
    if s.len() > 0 && s[0] == 45 {
        -m
    } else {
        m
    }
}

/// Parses a signed decimal integer; a malformed string or a magnitude
/// beyond the scalar range gives nothing.
pub fn parse_int(v: &Vec<u8>) -> (r: Option<i64>)
    ensures
        r is Some <==> int_format(v@) && -(i64::MAX as int) <= int_value_spec(v@) <= i64::MAX
            as int,
        r matches Some(x) ==> x as int == int_value_spec(v@),
{
    let n = v.len();
    let start: usize = if n > 0 && (v[0] == 43 || v[0] == 45) {
        1
    } else {
        0
    };
    let negative = n > 0 && v[0] == 45;
    if n <= start {
        return None;
    }
    let mut m: i128 = 0;
    let mut i: usize = start;
    while i < n
        invariant
            n == v@.len(),
            start <= i <= n,
            start == num_start(v@),
            m as int == digits_value(v@, start as int, i as int),
            0 <= m <= i64::MAX as i128,
            all_digits(v@, start as int, i as int),
        decreases n - i,
    {
        let d = v[i];
        if d < 48 || d > 57 {
            return None;
        }
        let m2: i128 = m * 10 + (d - 48) as i128;
        if m2 > i64::MAX as i128 {
            proof {
                if all_digits(v@, start as int, v@.len() as int) {
                    assert(m2 as int == digits_value(v@, start as int, i as int + 1));
                    lemma_digits_monotone(v@, start as int, i as int + 1, v@.len() as int);
                }
            }
            return None;
        }
        m = m2;
        i = i + 1;
    }
    if negative {
        Some((-m) as i64)
    } else {
        Some(m as i64)
    }
}

/// How many fraction digits a fixed-point parse reads: at most eight, the
/// rest being beyond the scalar's resolution anyway.
pub const FRAC_DIGITS_MAX: usize = 8;

/// Whether the byte string is a signed decimal number: a signed run of
/// digits with an optional fraction after one decimal point.
pub open spec fn decimal_format(s: Seq<u8>) -> bool {
    let dot = find_from(s, 46, 0);
    &&& dot > num_start(s)
    &&& all_digits(s, num_start(s), dot)
    &&& all_digits(s, dot + 1, s.len() as int)
}

/// The fixed-point value of a signed decimal byte string: the integer part
/// scaled, plus the first read fraction digits scaled and truncated toward
/// zero, the whole negated under a leading minus.
pub open spec fn decimal_value_spec(s: Seq<u8>) -> int {
    let dot = find_from(s, 46, 0);
    let fend = if s.len() - (dot + 1) > FRAC_DIGITS_MAX {
        dot + 1 + FRAC_DIGITS_MAX
    } else {
        s.len() as int
    };
    let whole = digits_value(s, num_start(s), dot) * (crate::fixed::FX_ONE as int);
    let frac = crate::fixed::tdiv(
        digits_value(s, dot + 1, fend) * (crate::fixed::FX_ONE as int),
        pow10(fend - (dot + 1)),
    );
    if s.len() > 0 && s[0] == 45 {
        -(whole + frac)
    } else {
        whole + frac
    }
}


/// Parses a signed decimal number into a fixed-point scalar; a malformed
/// string gives nothing, and a well-formed number whose integer part stays
/// below a billion is never refused.
pub fn parse_fixed(v: &Vec<u8>) -> (r: Option<i64>)
    ensures
        r matches Some(x) ==> decimal_format(v@) && x as int == decimal_value_spec(v@),
        decimal_format(v@) && digits_value(v@, num_start(v@), find_from(v@, 46, 0))
            <= 0x4000_0000 ==> r is Some,
{
    let n = v.len();
    let dot = find_byte(v, 46);
    proof {
        lemma_find_from_bounds(v@, 46, 0);
    }
    let start: usize = if n > 0 && (v[0] == 43 || v[0] == 45) {
        1
    } else {
        0
    };
    let negative = n > 0 && v[0] == 45;
    if dot <= start {
        return None;
    }
    let mut whole: i128 = 0;
    let mut i: usize = start;
    while i < dot
        invariant
            n == v@.len(),
            dot as int == find_from(v@, 46, 0),
            dot <= n,
            start < dot,
            start == num_start(v@),
            start <= i <= dot,
            whole as int == digits_value(v@, start as int, i as int),
            0 <= whole <= 0x7fff_ffff_ff,
            all_digits(v@, start as int, i as int),
        decreases dot - i,
    {
        let d = v[i];
        if d < 48 || d > 57 {
            return None;
        }
        let w2: i128 = whole * 10 + (d - 48) as i128;
        if w2 > 0x7fff_ffff_ff {
            proof {
                if all_digits(v@, start as int, dot as int) {
                    assert(w2 as int == digits_value(v@, start as int, i as int + 1));
                    lemma_digits_monotone(v@, start as int, i as int + 1, dot as int);
                }
            }
            return None;
        }
        whole = w2;
        i = i + 1;
    }
    let fend: usize = if dot < n && n - (dot + 1) > FRAC_DIGITS_MAX {
        dot + 1 + FRAC_DIGITS_MAX
    } else {
        n
    };
    let mut frac: i128 = 0;
    let mut p10: i128 = 1;
    if dot < n {
        let mut i: usize = dot + 1;
        while i < n
            invariant
                n == v@.len(),
                dot < n,
                dot as int == find_from(v@, 46, 0),
                fend as int == (if n - (dot + 1) > FRAC_DIGITS_MAX {
                    dot + 1 + FRAC_DIGITS_MAX
                } else {
                    n as int
                }),
                dot + 1 <= i <= n,
                fend <= n,
                all_digits(v@, dot as int + 1, i as int),
                frac as int == digits_value(
                    v@,
                    dot as int + 1,
                    (if i <= fend {
                        i as int
                    } else {
                        fend as int
                    }),
                ),
                p10 as int == pow10(
                    (if i <= fend {
                        i as int
                    } else {
                        fend as int
                    }) - (dot as int + 1),
                ),
                0 <= frac,
                (frac as int) < p10 as int,
                1 <= p10 <= 0x5f5_e100,
            decreases n - i,
        {
            let d = v[i];
            if d < 48 || d > 57 {
                return None;
            }
            if i < fend {
                proof {
                    reveal_with_fuel(pow10, 10);
                    let count = i as int - (dot as int + 1);
                    lemma_pow10_monotone(count, 7);
                    assert(pow10(7) == 0x98_9680);
                    assert(pow10(8) == 0x5f5_e100);
                    assert(frac * 10 + 9 < 10 * p10 && 1 <= 10 * p10) by (nonlinear_arith)
                        requires
                            0 <= frac,
                            (frac as int) < p10 as int,
                            p10 >= 1,
                    ;
                }
                frac = frac * 10 + (d - 48) as i128;
                p10 = p10 * 10;
            }
            i = i + 1;
        }
    }
    let frac_fx: i128 = (frac * (crate::fixed::FX_ONE as i128)).checked_div(p10).unwrap();
    proof {
        let fe = (if n as int - (dot as int + 1) > FRAC_DIGITS_MAX as int {
            dot as int + 1 + FRAC_DIGITS_MAX
        } else {
            n as int
        });
        if dot < n {
            assert(frac as int == digits_value(v@, dot as int + 1, fe));
            assert(p10 as int == pow10(fe - (dot as int + 1)));
        } else {
            assert(digits_value(v@, dot as int + 1, fe) == 0);
            assert(pow10(fe - (dot as int + 1)) == 1);
        }
        assert(frac * (crate::fixed::FX_ONE as i128) >= 0) by (nonlinear_arith)
            requires
                frac >= 0,
        ;
        assert(frac_fx as int == crate::fixed::tdiv(
            frac as int * (crate::fixed::FX_ONE as int),
            p10 as int,
        )) by {
            if frac == 0 {
                assert(frac as int * (crate::fixed::FX_ONE as int) == 0) by (nonlinear_arith)
                    requires
                        frac == 0,
                ;
            }
        }
        crate::fixed::lemma_tdiv_shrinks(frac as int * (crate::fixed::FX_ONE as int), p10 as int);
        assert(frac * (crate::fixed::FX_ONE as i128) <= 0x5f5_e100 * 0x100_0000)
            by (nonlinear_arith)
            requires
                0 <= frac,
                (frac as int) < p10 as int,
                p10 <= 0x5f5_e100,
        ;
        let fs = frac as int * (crate::fixed::FX_ONE as int);
        vstd::arithmetic::div_mod::lemma_fundamental_div_mod(fs, p10 as int);
        assert(fs / (p10 as int) < (crate::fixed::FX_ONE as int)) by (nonlinear_arith)
            requires
                fs == (p10 as int) * (fs / (p10 as int)) + fs % (p10 as int),
                fs % (p10 as int) >= 0,
                fs == frac as int * (crate::fixed::FX_ONE as int),
                0 <= frac,
                (frac as int) < p10 as int,
                p10 >= 1,
        ;
        assert((frac_fx as int) < (crate::fixed::FX_ONE as int)) by {
            if frac > 0 {
                assert(fs > 0) by (nonlinear_arith)
                    requires
                        fs == frac as int * (crate::fixed::FX_ONE as int),
                        frac > 0,
                ;
                assert(crate::fixed::tdiv(fs, p10 as int) == fs / (p10 as int));
            } else {
                assert(fs == 0) by (nonlinear_arith)
                    requires
                        fs == frac as int * (crate::fixed::FX_ONE as int),
                        frac == 0,
                ;
            }
        }
    }
    let total: i128 = whole * (crate::fixed::FX_ONE as i128) + frac_fx;
    proof {
        assert(whole * (crate::fixed::FX_ONE as i128) <= 0x7fff_ffff_ff * 0x100_0000 && whole * (
        crate::fixed::FX_ONE as i128) >= 0) by (nonlinear_arith)
            requires
                0 <= whole <= (0x7fff_ffff_ff as i128),
        ;
    }
    if total > i64::MAX as i128 {
        proof {
            assert(whole as int * (crate::fixed::FX_ONE as int) > 0x4000_0000 * 0x100_0000)
                by (nonlinear_arith)
                requires
                    (whole as int) * (crate::fixed::FX_ONE as int) + (frac_fx as int) > (
                    i64::MAX as int),
                    (frac_fx as int) < 0x100_0000,
            ;
            assert(whole > 0x4000_0000) by (nonlinear_arith)
                requires
                    (whole as int) * 0x100_0000 > 0x4000_0000int * 0x100_0000,
            ;
        }
        return None;
    }
    if negative {
        Some((-total) as i64)
    } else {
        Some(total as i64)
    }
}


/// Replaces every backslash of a path with a forward slash and trims it.
pub fn correctify_path(wrong_path: &Vec<u8>) -> (r: Vec<u8>)
    ensures
        r@ == trim_spec(wrong_path@).map_values(
            |b: u8|
                if b == 92 {
                    47u8
                } else {
                    b
                },
        ),
{
    let trimmed = trim_bytes(wrong_path);
    let mut out: Vec<u8> = Vec::new();
    let mut i: usize = 0;
    while i < trimmed.len()
        invariant
            i <= trimmed@.len(),
            out@.len() == i,
            forall|j: int|
                0 <= j < i ==> out@[j] == (if trimmed@[j] == 92 {
                    47u8
                } else {
                    trimmed@[j]
                }),
        decreases trimmed@.len() - i,
    {
        let b = trimmed[i];
        out.push(
            if b == 92 {
                47
            } else {
                b
            },
        );
        i = i + 1;
    }
    proof {
        assert(out@ =~= trim_spec(wrong_path@).map_values(
            |b: u8|
                if b == 92 {
                    47u8
                } else {
                    b
                },
        ));
    }
    out
}

/// The trimmed view of a byte string.
pub open spec fn trim_spec(s: Seq<u8>) -> Seq<u8> {
    let lo = skip_spaces(s, 0);
    let hi = rskip_spaces(s, s.len() as int);
    if lo <= hi {
        s.subrange(lo, hi)
    } else {
        Seq::empty()
    }
}

/// An out-of-band step the loader shell must perform before parsing goes
/// on: nothing, or reading a material library file at a path.
#[derive(Debug)]
pub enum ParseRequest {
    NoRequest,
    MaterialLibrary(Vec<u8>),
}

/// Parses the text of a geometry or material file into its meaningful
/// lines: comments cut, blank lines dropped, every line split into its
/// keyword, its tail and its values.
pub fn parse_obj_lines(text: &Vec<u8>) -> (r: Vec<ObjLine>)
    ensures
        forall|i: int| 0 <= i < r@.len() ==> (#[trigger] r@[i]).pos_spec() == 0,
{
    let raw_lines = split_bytes(text, 10);
    let mut out: Vec<ObjLine> = Vec::new();
    let mut i: usize = 0;
    while i < raw_lines.len()
        invariant
            i <= raw_lines@.len(),
            forall|j: int| 0 <= j < out@.len() ==> (#[trigger] out@[j]).pos_spec() == 0,
        decreases raw_lines@.len() - i,
    {
        let cleaned = remove_comments(&raw_lines[i]);
        let line = trim_bytes(&cleaned);
        if line.len() > 0 {
            let mut splits = split_bytes(&line, 32);
            let space_position = find_byte(&line, 32);
            let mut after_space: Vec<u8> = Vec::new();
            if space_position < line.len() {
                let mut k: usize = space_position + 1;
                while k < line.len()
                    invariant
                        space_position < line@.len(),
                        space_position + 1 <= k <= line@.len(),
                        after_space@.len() == k - (space_position + 1),
                    decreases line@.len() - k,
                {
                    after_space.push(line[k]);
                    k = k + 1;
                }
            }
            let field = splits.remove(0);
            out.push(ObjLine::new(i, field, after_space, splits));
        }
        i = i + 1;
    }
    out
}

/// The state of a model parse in progress: the model being filled, the
/// material table, and the normal and texture-coordinate pools face corners
/// index into.
pub struct ModelParser {
    pub model: Model,
    pub materials: Materials,
    pub normals: Vec<Point3D>,
    pub uvs: Vec<Point2D<i64>>,
}

/// Maps one face-corner index of the geometry format to a buffer position:
/// the format counts from one, and a negative index counts back from the
/// buffer's end; a position outside the addressable range becomes the
/// sentinel maximum, which the model check later rejects.
pub open spec fn face_index_spec(value: int, base: int) -> int {
    let raw = if value < 0 {
        base + value
    } else {
        value - 1
    };
    if 0 <= raw <= usize::MAX as int {
        raw
    } else {
        usize::MAX as int
    }
}

fn to_face_index(value: i64, base: usize) -> (r: usize)
    ensures
        r as int == face_index_spec(value as int, base as int),
{
    let raw: i128 = if value < 0 {
        base as i128 + value as i128
    } else {
        value as i128 - 1
    };
    if raw >= 0 && raw <= usize::MAX as i128 {
        raw as usize
    } else {
        usize::MAX
    }
}

impl ModelParser {
    /// The parser's material table is consistent.
    pub open spec fn wf(&self) -> bool {
        self.materials.wf()
    }

    /// A parser with an empty model.
    pub fn new() -> (r: ModelParser)
        ensures
            r.wf(),
            r.model.vertices@.len() == 0,
            r.model.indices@.len() == 0,
            r.model.materials@.len() == 0,
            r.normals@.len() == 0,
            r.uvs@.len() == 0,
    {
        ModelParser {
            model: Model::new(),
            materials: Materials::new(),
            normals: Vec::new(),
            uvs: Vec::new(),
        }
    }

    /// Hands the finished model out.
    pub fn finish(self) -> (r: Model)
        ensures
            r == self.model,
    {
        self.model
    }

    /// Reads the given number of decimal scalars from a line's values.
    fn parse_scalars(line: &mut ObjLine, amount: usize) -> (r: Result<Vec<i64>, ModelErrorType>)
        ensures
            r matches Ok(v) ==> v@.len() == amount,
    {
        let mut out: Vec<i64> = Vec::new();
        let mut i: usize = 0;
        while i < amount
            invariant
                i <= amount,
                out@.len() == i,
            decreases amount - i,
        {
            let value = match line.next_value() {
                Ok(v) => v,
                Err(e) => {
                    return Err(e);
                },
            };
            match parse_fixed(&value) {
                Some(x) => out.push(x),
                None => {
                    return Err(ModelErrorType::ParsingError(value));
                },
            }
            i = i + 1;
        }
        Ok(out)
    }

    /// Reads one triangle fan off a face line: every corner names a vertex
    /// and optionally a texture coordinate and a normal, and each triangle
    /// of the fan records the corner data and the current material. A
    /// malformed corner, a corner pool index outside its pool, or fewer
    /// than three corners is an error.
    pub fn parse_face(&mut self, line: &mut ObjLine) -> (r: Result<(), ModelErrorType>)
        requires
            old(self).wf(),
            old(line).pos_spec() <= old(line).values_spec().len(),
        ensures
            final(self).wf(),
            final(self).model.vertices@ == old(self).model.vertices@,
            final(self).model.normals@.len() >= old(self).model.normals@.len(),
            final(self).model.uvs@.len() >= old(self).model.uvs@.len(),
            final(self).model.materials@ == old(self).model.materials@,
            final(self).normals@ == old(self).normals@,
            final(self).uvs@ == old(self).uvs@,
            final(self).materials == old(self).materials,
            r is Ok ==> (final(self).model.indices@.len() - old(self).model.indices@.len()) % 3
                == 0 && final(self).model.material_indices@.len() - old(
                self,
            ).model.material_indices@.len() == (final(self).model.indices@.len() - old(
                self,
            ).model.indices@.len()) / 3,
    {
        let mut positions: Vec<usize> = Vec::new();
        let mut textures: Vec<Option<usize>> = Vec::new();
        let mut corner_normals: Vec<Option<usize>> = Vec::new();
        loop
            invariant
                self == old(self),
                positions@.len() == textures@.len(),
                positions@.len() == corner_normals@.len(),
                line.pos_spec() <= line.values_spec().len(),
                old(self).wf(),
            decreases line.values_spec().len() - line.pos_spec(),
        {
            proof {
                lemma_first_nonempty_bounds(line.values_spec(), line.pos_spec() as int);
            }
            let value = match line.next_value() {
                Ok(v) => v,
                Err(_) => {
                    break ;
                },
            };
            let parts = split_bytes(&value, 47);
            let mut position: usize = 0;
            let mut texture: Option<usize> = None;
            let mut normal: Option<usize> = None;
            let mut k: usize = 0;
            let base = self.model.vertices.len();
            while k < parts.len()
                invariant
                    self == old(self),
                    old(self).wf(),
                    base == self.model.vertices@.len(),
                decreases parts@.len() - k,
            {
                let parsed = match parse_int(&parts[k]) {
                    Some(x) => x,
                    None => {
                        return Err(ModelErrorType::GenericError);
                    },
                };
                let index = to_face_index(parsed, base);
                if k == 0 {
                    position = index;
                } else if k == 1 {
                    texture = Some(index);
                } else if k == 2 {
                    normal = Some(index);
                }
                k = k + 1;
            }
            if parts.len() == 0 {
                return Err(ModelErrorType::GenericError);
            }
            positions.push(position);
            textures.push(texture);
            corner_normals.push(normal);
        }
        if positions.len() < 3 {
            return Err(ModelErrorType::GenericError);
        }
        let ghost start_indices = self.model.indices@.len();
        let ghost start_materials = self.model.material_indices@.len();
        let mut v: usize = 2;
        while v < positions.len()
            invariant
                old(self).wf(),
                self.wf(),
                self.materials == old(self).materials,
                self.model.vertices@ == old(self).model.vertices@,
                self.model.materials@ == old(self).model.materials@,
                self.normals@ == old(self).normals@,
                self.uvs@ == old(self).uvs@,
                self.model.normals@.len() >= old(self).model.normals@.len(),
                self.model.uvs@.len() >= old(self).model.uvs@.len(),
                positions@.len() == textures@.len(),
                positions@.len() == corner_normals@.len(),
                2 <= v,
                (self.model.indices@.len() - start_indices) % 3 == 0,
                self.model.material_indices@.len() - start_materials == (
                self.model.indices@.len() - start_indices) / 3,
                start_indices == old(self).model.indices@.len(),
                start_materials == old(self).model.material_indices@.len(),
            decreases positions@.len() - v,
        {
            let ghost before = self.model.indices@.len();
            if let Err(e) = self.insert_face(&positions, &textures, &corner_normals, v - 1) {
                return Err(e);
            }
            if let Err(e) = self.insert_face(&positions, &textures, &corner_normals, v) {
                return Err(e);
            }
            if let Err(e) = self.insert_face(&positions, &textures, &corner_normals, 0) {
                return Err(e);
            }
            self.model.material_indices.push(self.materials.current_index());
            v = v + 1;
        }
        Ok(())
    }

    fn insert_face(
        &mut self,
        positions: &Vec<usize>,
        textures: &Vec<Option<usize>>,
        corner_normals: &Vec<Option<usize>>,
        index: usize,
    ) -> (r: Result<(), ModelErrorType>)
        requires
            old(self).wf(),
            index < positions@.len(),
            positions@.len() == textures@.len(),
            positions@.len() == corner_normals@.len(),
        ensures
            final(self).wf(),
            final(self).materials == old(self).materials,
            final(self).model.vertices@ == old(self).model.vertices@,
            final(self).model.materials@ == old(self).model.materials@,
            final(self).model.material_indices@ == old(self).model.material_indices@,
            final(self).normals@ == old(self).normals@,
            final(self).uvs@ == old(self).uvs@,
            final(self).model.normals@.len() >= old(self).model.normals@.len(),
            final(self).model.uvs@.len() >= old(self).model.uvs@.len(),
            r is Ok ==> final(self).model.indices@ == old(self).model.indices@.push(
                positions@[index as int],
            ),
            r is Err ==> final(self).model.indices@ == old(self).model.indices@,
    {
        if let Some(ti) = textures[index] {
            if ti >= self.uvs.len() {
                return Err(ModelErrorType::GenericError);
            }
        }
        if let Some(ni) = corner_normals[index] {
            if ni >= self.normals.len() {
                return Err(ModelErrorType::GenericError);
            }
        }
        self.model.indices.push(positions[index]);
        if let Some(ti) = textures[index] {
            let uv = self.uvs[ti];
            self.model.uvs.push(uv);
        }
        if let Some(ni) = corner_normals[index] {
            let n = self.normals[ni];
            self.model.normals.push(n);
        }
        Ok(())
    }
}


/// Compares a byte string with a keyword.
pub fn bytes_is<const N: usize>(a: &Vec<u8>, b: &[u8; N]) -> (r: bool)
    ensures
        r == (a@ == b@),
{
    if a.len() != b.len() {
        proof {
            assert(a@.len() != b@.len());
        }
        return false;
    }
    let n = a.len();
    let mut i: usize = 0;
    while i < n
        invariant
            n == a@.len(),
            n == b@.len(),
            i <= n,
            forall|j: int| 0 <= j < i ==> a@[j] == b@[j],
        decreases n - i,
    {
        if a[i] != b[i] {
            return false;
        }
        i = i + 1;
    }
    proof {
        assert(a@ =~= b@);
    }
    true
}

impl ModelParser {
    /// Handles one line of a geometry file: vertices, normals and texture
    /// coordinates extend their pools, face lines build triangles, material
    /// selection switches the current material, and a material library
    /// line asks the loader shell for that file's text. Unknown keywords
    /// are skipped, as the format expects.
    pub fn parse_obj_line(&mut self, line: &mut ObjLine) -> (r: Result<
        ParseRequest,
        ModelErrorType,
    >)
        requires
            old(self).wf(),
            old(line).pos_spec() <= old(line).values_spec().len(),
        ensures
            final(self).wf(),
            final(self).model.materials@ == old(self).model.materials@,
            old(line).field_spec() == seq![109u8, 116u8, 108u8, 108u8, 105u8, 98u8] ==> (
            r matches Ok(q) && q is MaterialLibrary),
            r is Ok && old(line).field_spec() == seq![118u8] ==> final(self).model.vertices@.len()
                == old(self).model.vertices@.len() + 3,
            r is Ok && old(line).field_spec() == seq![118u8, 110u8] ==> final(self).normals@.len()
                == old(self).normals@.len() + 1,
            r is Ok && old(line).field_spec() == seq![118u8, 116u8] ==> final(self).uvs@.len()
                == old(self).uvs@.len() + 1,
            old(line).field_spec() != seq![102u8] ==> final(self).model.indices@ == old(
                self,
            ).model.indices@,
            old(line).field_spec() != seq![118u8] ==> final(self).model.vertices@ == old(
                self,
            ).model.vertices@,
    {
        let keyword_library = [109u8, 116u8, 108u8, 108u8, 105u8, 98u8];
        let keyword_use = [117u8, 115u8, 101u8, 109u8, 116u8, 108u8];
        let keyword_vertex = [118u8];
        let keyword_normal = [118u8, 110u8];
        let keyword_uv = [118u8, 116u8];
        let keyword_face = [102u8];
        proof {
            broadcast use vstd::array::group_array_axioms;

            assert(keyword_library@ =~= seq![109u8, 116u8, 108u8, 108u8, 105u8, 98u8]);
            assert(keyword_vertex@ =~= seq![118u8]);
            assert(keyword_normal@ =~= seq![118u8, 110u8]);
            assert(keyword_uv@ =~= seq![118u8, 116u8]);
            assert(keyword_face@ =~= seq![102u8]);
        }
        if bytes_is(line.field(), &keyword_library) {
            Ok(ParseRequest::MaterialLibrary(correctify_path(line.rest())))
        } else if bytes_is(line.field(), &keyword_use) {
            let name = trim_bytes(line.rest());
            let _ = self.materials.set_current(&name);
            Ok(ParseRequest::NoRequest)
        } else if bytes_is(line.field(), &keyword_vertex) {
            let mut vertices = match Self::parse_scalars(line, 3) {
                Ok(v) => v,
                Err(e) => {
                    return Err(e);
                },
            };
            self.model.vertices.append(&mut vertices);
            Ok(ParseRequest::NoRequest)
        } else if bytes_is(line.field(), &keyword_normal) {
            let normal = match Self::parse_scalars(line, 3) {
                Ok(v) => v,
                Err(e) => {
                    return Err(e);
                },
            };
            self.normals.push(
                Point3D { x: normal[0], y: normal[1], z: normal[2] }.normalized(),
            );
            Ok(ParseRequest::NoRequest)
        } else if bytes_is(line.field(), &keyword_uv) {
            let uv = match Self::parse_scalars(line, 2) {
                Ok(v) => v,
                Err(e) => {
                    return Err(e);
                },
            };
            self.uvs.push(Point2D { x: uv[0], y: uv[1] });
            Ok(ParseRequest::NoRequest)
        } else if bytes_is(line.field(), &keyword_face) {
            match self.parse_face(line) {
                Ok(_) => Ok(ParseRequest::NoRequest),
                Err(e) => Err(e),
            }
        } else {
            Ok(ParseRequest::NoRequest)
        }
    }

    /// Handles one line of a material library: new materials are
    /// registered, diffuse colors apply to the current material, and a
    /// texture line asks the loader shell to decode that image. Unknown
    /// keywords are skipped.
    pub fn parse_mtl_line(&mut self, line: &mut ObjLine) -> (r: Result<
        Option<Vec<u8>>,
        ModelErrorType,
    >)
        requires
            old(self).wf(),
            old(line).pos_spec() <= old(line).values_spec().len(),
        ensures
            final(self).wf(),
            final(self).model == old(self).model,
    {
        if bytes_is(line.field(), &[110u8, 101u8, 119u8, 109u8, 116u8, 108u8]) {
            let material_name = match line.next_value() {
                Ok(v) => v,
                Err(e) => {
                    return Err(e);
                },
            };
            match self.materials.add(material_name) {
                Ok(_) => Ok(None),
                Err(e) => Err(e),
            }
        } else if bytes_is(line.field(), &[75u8, 100u8]) {
            let r = match Self::parse_color_component(line) {
                Ok(v) => v,
                Err(e) => {
                    return Err(e);
                },
            };
            let g = match Self::parse_color_component(line) {
                Ok(v) => v,
                Err(e) => {
                    return Err(e);
                },
            };
            let b = match Self::parse_color_component(line) {
                Ok(v) => v,
                Err(e) => {
                    return Err(e);
                },
            };
            self.materials.set_diffuse(Color::new(r, g, b));
            Ok(None)
        } else if bytes_is(line.field(), &[109u8, 97u8, 112u8, 95u8, 75u8, 100u8]) {
            Ok(Some(correctify_path(line.rest())))
        } else {
            Ok(None)
        }
    }

    fn parse_color_component(line: &mut ObjLine) -> (r: Result<i64, ModelErrorType>)
    {
        let value = match line.next_value() {
            Ok(v) => v,
            Err(e) => {
                return Err(e);
            },
        };
        let trimmed = trim_bytes(&value);
        match parse_fixed(&trimmed) {
            Some(x) => Ok(x),
            None => Err(ModelErrorType::Material(None)),
        }
    }

    /// Stores a decoded texture on the current material; the loader shell
    /// calls this to answer a texture request.
    pub fn apply_texture(&mut self, texture: Rc<Texture>)
        requires
            old(self).wf(),
        ensures
            final(self).wf(),
            final(self).model == old(self).model,
    {
        self.materials.set_diffuse_texture(texture);
    }

    /// Closes a material library: no material stays current, and the
    /// registered materials join the model's table.
    pub fn end_material_library(&mut self)
        requires
            old(self).wf(),
        ensures
            final(self).wf(),
            final(self).model.vertices@ == old(self).model.vertices@,
            final(self).model.indices@ == old(self).model.indices@,
            final(self).model.materials@.len() == old(self).model.materials@.len() + old(
                self,
            ).materials.materials_spec().len(),
    {
        self.materials.clear_current();
        let count = self.materials.materials().len();
        let mut i: usize = 0;
        while i < count
            invariant
                self.wf(),
                self.materials.materials_spec() == old(self).materials.materials_spec(),
                count == self.materials.materials_spec().len(),
                i <= count,
                self.model.vertices@ == old(self).model.vertices@,
                self.model.indices@ == old(self).model.indices@,
                self.model.materials@.len() == old(self).model.materials@.len() + i,
            decreases count - i,
        {
            let m = &self.materials.materials()[i];
            let color = m.diffuse_color;
            let texture = match &m.diffuse_texture {
                Some(t) => Some(t.clone()),
                None => None,
            };
            self.model.materials.push(Material { diffuse_color: color, diffuse_texture: texture });
            i = i + 1;
        }
    }
}


impl Model {
    /// Decides the loader's input contract, so that a shell can refuse a
    /// malformed model instead of handing it to the renderer.
    pub fn check_draw_wf(&self) -> (r: bool)
        ensures
            r == self.draw_wf(),
    {
        if self.vertices.len() % 3 != 0 {
            return false;
        }
        if self.indices.len() % 3 != 0 {
            return false;
        }
        let vertex_count = self.vertices.len() / 3;
        let mut i: usize = 0;
        while i < self.indices.len()
            invariant
                vertex_count == self.vertices@.len() / 3,
                i <= self.indices@.len(),
                forall|j: int| 0 <= j < i ==> (#[trigger] self.indices@[j]) < vertex_count,
            decreases self.indices@.len() - i,
        {
            if self.indices[i] >= vertex_count {
                return false;
            }
            i = i + 1;
        }
        if self.normals.len() != 0 && self.normals.len() < self.indices.len() {
            return false;
        }
        if self.uvs.len() != 0 && self.uvs.len() < self.indices.len() {
            return false;
        }
        if self.material_indices.len() < self.indices.len() / 3 {
            return false;
        }
        let mut i: usize = 0;
        while i < self.material_indices.len()
            invariant
                i <= self.material_indices@.len(),
                forall|j: int|
                    0 <= j < i ==> match #[trigger] self.material_indices@[j] {
                        Option::Some(m) => m < self.materials@.len(),
                        Option::None => true,
                    },
            decreases self.material_indices@.len() - i,
        {
            match self.material_indices[i] {
                Some(m) => {
                    if m >= self.materials.len() {
                        return false;
                    }
                },
                None => {},
            }
            i = i + 1;
        }
        let mut i: usize = 0;
        while i < self.materials.len()
            invariant
                i <= self.materials@.len(),
                forall|j: int|
                    0 <= j < i ==> match (#[trigger] self.materials@[j]).diffuse_texture {
                        Option::Some(t) => t.wf(),
                        Option::None => true,
                    },
            decreases self.materials@.len() - i,
        {
            match &self.materials[i].diffuse_texture {
                Some(t) => {
                    if !t.check() {
                        return false;
                    }
                },
                None => {},
            }
            i = i + 1;
        }
        true
    }
}

} // verus!
