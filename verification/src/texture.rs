//! A texture: a rectangular grid of colors sampled by fixed-point UV
//! coordinates. Decoding an image file into the grid is the loader's
//! business; the pipeline only samples.

use vstd::prelude::*;

use crate::common::{Color, ColorV, Point2D};
use crate::fixed::{tdiv, FX_ONE};

verus! {

/// A rectangular color grid in row-major order, addressed with the bottom
/// row at texture coordinate zero (rows are stored top-down, as image files
/// keep them).
#[derive(Debug)]
pub struct Texture {
    size: (usize, usize),
    colors: Vec<Color>,
}

/// The mathematical value of a `Texture`.
pub struct TextureV {
    pub width: int,
    pub height: int,
    pub colors: Seq<ColorV>,
}

impl View for Texture {
    type V = TextureV;

    closed spec fn view(&self) -> TextureV {
        TextureV {
            width: self.size.0 as int,
            height: self.size.1 as int,
            colors: self.colors@.map_values(|c: Color| c@),
        }
    }
}

/// Maps one fixed-point texture coordinate to a pixel index, clamped into
/// `[0, dim - 1]`: the nearest-sample lookup with UV clamped to the image.
pub open spec fn tex_coord_spec(u: int, dim: int) -> int {
    let v = tdiv(u * dim, FX_ONE as int);
    if v <= 0 {
        0
    } else if v >= dim {
        dim - 1
    } else {
        v
    }
}

/// The color sampled at fixed-point UV coordinates: nearest sample, clamped
/// to the image, with the row order flipped so that v = 0 is the bottom row.
pub open spec fn tex_pixel_spec(t: TextureV, u: int, v: int) -> ColorV {
    let x = tex_coord_spec(u, t.width);
    let y = tex_coord_spec(v, t.height);
    t.colors[(t.height - y - 1) * t.width + x]
}

/// A texture value is well formed when it has at least one pixel and its
/// color buffer covers the grid exactly.
pub open spec fn tex_v_wf(t: TextureV) -> bool {
    &&& t.width >= 1
    &&& t.height >= 1
    &&& t.colors.len() == t.width * t.height
}

impl Texture {
    /// A texture is well formed when its value is.
    pub open spec fn wf(&self) -> bool {
        tex_v_wf(self@)
    }

    /// Wraps a decoded color grid. The buffer must cover `size` exactly;
    /// producing such a buffer is the loader's input contract.
    pub fn new(size: (usize, usize), colors: Vec<Color>) -> (t: Texture)
        requires
            size.0 >= 1,
            size.1 >= 1,
            colors@.len() == size.0 * size.1,
        ensures
            t.wf(),
            t@.width == size.0 as int,
            t@.height == size.1 as int,
            t@.colors == colors@.map_values(|c: Color| c@),
    {
        Texture { size, colors }
    }

    /// Decides well-formedness of the stored grid.
    pub fn check(&self) -> (r: bool)
        ensures
            r == self.wf(),
    {
        proof {
            crate::fixed::lemma_abs_mul_le(
                self.size.0 as int,
                self.size.1 as int,
                0xffff_ffff_ffff_ffff,
                0xffff_ffff_ffff_ffff,
            );
        }
        self.size.0 >= 1 && self.size.1 >= 1 && (self.size.0 as u128) * (self.size.1 as u128)
            == self.colors.len() as u128
    }

    /// Samples the texture at a UV position.
    pub fn pixel(&self, position: Point2D<i64>) -> (c: Color)
        requires
            self.wf(),
        ensures
            c@ == tex_pixel_spec(self@, position.x as int, position.y as int),
    {
        self.pixel_local(self.to_local(position))
    }

    fn pixel_local(&self, position: Point2D<usize>) -> (c: Color)
        requires
            self.wf(),
            position.x < self@.width,
            position.y < self@.height,
        ensures
            c@ == self@.colors[(self@.height - position.y - 1) * self@.width + position.x],
    {
        let w = self.size.0;
        let h = self.size.1;
        let n = self.colors.len();
        proof {
            assert((h - position.y - 1) * w + position.x < h * w) by (nonlinear_arith)
                requires
                    position.x < w,
                    position.y < h,
                    w >= 1,
                    h >= 1,
            ;
            assert(self@.colors.len() == w as int * h as int);
            assert(w as int * h as int == h as int * w as int) by (nonlinear_arith);
            assert(h as int * w as int == n as int);
        }
        self.colors[(h - position.y - 1) * w + position.x]
    }

    fn to_local(&self, position: Point2D<i64>) -> (r: Point2D<usize>)
        requires
            self.wf(),
        ensures
            r.x as int == tex_coord_spec(position.x as int, self@.width),
            r.y as int == tex_coord_spec(position.y as int, self@.height),
            r.x < self@.width,
            r.y < self@.height,
    {
        Point2D {
            x: Self::coord(position.x, self.size.0),
            y: Self::coord(position.y, self.size.1),
        }
    }

    fn coord(u: i64, dim: usize) -> (r: usize)
        requires
            dim >= 1,
        ensures
            r as int == tex_coord_spec(u as int, dim as int),
            r < dim,
    {
        proof {
            crate::fixed::lemma_abs_mul_le(
                u as int,
                dim as int,
                0x8000_0000_0000_0000,
                0xffff_ffff_ffff_ffff,
            );
        }
        let p: i128 = (u as i128) * (dim as i128);
        proof {
            crate::fixed::lemma_tdiv_shrinks(p as int, FX_ONE as int);
        }
        let v: i128 = p.checked_div(FX_ONE as i128).unwrap();
        if v <= 0 {
            0
        } else if v >= dim as i128 {
            dim - 1
        } else {
            v as usize
        }
    }
}

} // verus!
