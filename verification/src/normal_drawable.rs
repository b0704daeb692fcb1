//! The two frame surfaces behind the shared pixel-write contract.
//!
//! The immediate surface shades and depth-tests every write as it arrives
//! and keeps only colors and depths. The deferred surface keeps the winning
//! write's record per pixel and shades the whole buffer once at display
//! time. Both evolve the same abstract surface state, so the two strategies
//! produce the same frame for every sequence of writes.

use vstd::prelude::*;
use std::rc::Rc;

use crate::color_shader;
use crate::color_shader::execute_spec;
use crate::common::{
    interpolated_zeros, shader_v_wf, Color, ColorV, FaceShader, PixelInfo, PixelInfoV, Point,
    VALUES_AMOUNT,
};
use crate::drawable::{write_step, CellV, Drawable, Surf};
use crate::fixed::FX_ONE;

verus! {

/// The color a stored record shades to: the shading function over the
/// record, or black where no write has won the pixel.
pub open spec fn shade_cell(c: Option<CellV>) -> ColorV {
    match c {
        Option::Some(cell) => execute_spec(
            PixelInfoV { shader: Option::Some(cell.shader), interpolated: cell.interpolated },
        ),
        Option::None => ColorV { r: 0, g: 0, b: 0 },
    }
}

/// The abstract record a deferred pixel slot holds.
pub open spec fn info_cell(pi: PixelInfo) -> Option<CellV> {
    match pi.shader {
        Option::Some(s) => Option::Some(CellV { interpolated: pi.interpolated@, shader: s@ }),
        Option::None => Option::None,
    }
}

fn fill_i64(n: usize, v: i64) -> (r: Vec<i64>)
    ensures
        r@.len() == n,
        forall|i: int| 0 <= i < n ==> r@[i] == v,
{
    let mut out: Vec<i64> = Vec::new();
    let mut i: usize = 0;
    while i < n
        invariant
            i <= n,
            out@.len() == i,
            forall|j: int| 0 <= j < i ==> out@[j] == v,
        decreases n - i,
    {
        out.push(v);
        i = i + 1;
    }
    out
}

fn fill_color(n: usize, v: Color) -> (r: Vec<Color>)
    ensures
        r@.len() == n,
        forall|i: int| 0 <= i < n ==> r@[i] == v,
{
    let mut out: Vec<Color> = Vec::new();
    let mut i: usize = 0;
    while i < n
        invariant
            i <= n,
            out@.len() == i,
            forall|j: int| 0 <= j < i ==> out@[j] == v,
        decreases n - i,
    {
        out.push(v);
        i = i + 1;
    }
    out
}

/// The immediate frame surface: shades on every winning write; stores one
/// color and one depth per pixel. The record of the winning writes is kept
/// in ghost form so that the surface provably shows the shaded image of the
/// same abstract state the deferred surface stores.
pub struct NormalDrawable {
    size: (usize, usize),
    colors: Vec<Color>,
    depths: Vec<i64>,
    records: Ghost<Seq<Option<CellV>>>,
}

impl NormalDrawable {
    /// The stored color buffer, in the row-major order with the top row
    /// first.
    pub closed spec fn colors_spec(&self) -> Seq<Color> {
        self.colors@
    }

    /// Builds a surface of the given resolution: all colors black, all
    /// depths at the far plane.
    pub fn new(size: (usize, usize)) -> (r: NormalDrawable)
        requires
            size.0 * size.1 <= usize::MAX,
        ensures
            r.wf(),
            r.surf() == Surf::fresh(size.0 as int, size.1 as int),
            r.colors_spec().len() == size.0 * size.1,
            forall|i: int|
                0 <= i < r.colors_spec().len() ==> r.colors_spec()[i]@ == (ColorV {
                    r: 0,
                    g: 0,
                    b: 0,
                }),
    {
        let mut out = NormalDrawable {
            size,
            colors: Vec::new(),
            depths: Vec::new(),
            records: Ghost(Seq::new((size.0 * size.1) as nat, |i: int| Option::<CellV>::None)),
        };
        out.clear_color(Color::new(0, 0, 0));
        out.clear_depth();
        proof {
            assert(out.surf() =~= Surf::fresh(size.0 as int, size.1 as int));
        }
        out
    }

    /// Replaces the whole color buffer with one color and forgets the
    /// winning records. Only the black clear reestablishes the invariant the
    /// depth-tested drawing relies on; the pipeline always clears to black.
    pub fn clear_color(&mut self, color: Color)
        requires
            old(self).size_spec().0 * old(self).size_spec().1 <= usize::MAX,
        ensures
            final(self).size_spec() == old(self).size_spec(),
            final(self).colors_spec().len() == old(self).size_spec().0 * old(self).size_spec().1,
            forall|i: int|
                0 <= i < final(self).colors_spec().len() ==> final(self).colors_spec()[i] == color,
            final(self).surf().cells == Seq::new(
                (old(self).size_spec().0 * old(self).size_spec().1) as nat,
                |i: int| Option::<CellV>::None,
            ),
            final(self).surf().depths == old(self).surf().depths,
            color@ == (ColorV { r: 0, g: 0, b: 0 }) && old(self).depths_len() == old(
                self,
            ).size_spec().0 * old(self).size_spec().1 ==> final(self).wf(),
    {
        self.colors = fill_color(self.size.0 * self.size.1, color);
        proof {
            self.records@ = Seq::new(
                (self.size.0 * self.size.1) as nat,
                |i: int| Option::<CellV>::None,
            );
        }
    }

    /// Resets every depth to the far plane.
    pub fn clear_depth(&mut self)
        requires
            old(self).size_spec().0 * old(self).size_spec().1 <= usize::MAX,
        ensures
            final(self).size_spec() == old(self).size_spec(),
            final(self).colors_spec() == old(self).colors_spec(),
            final(self).surf().cells == old(self).surf().cells,
            final(self).surf().depths == Seq::new(
                (old(self).size_spec().0 * old(self).size_spec().1) as nat,
                |i: int| FX_ONE as int,
            ),
            old(self).wf() && old(self).colors_spec().len() == old(self).size_spec().0 * old(
                self,
            ).size_spec().1 ==> final(self).wf(),
    {
        self.depths = fill_i64(self.size.0 * self.size.1, FX_ONE);
        proof {
            assert(self.depths@.map_values(|d: i64| d as int) =~= Seq::new(
                (self.size.0 * self.size.1) as nat,
                |i: int| FX_ONE as int,
            ));
        }
    }

    /// The surface's resolution.
    pub closed spec fn size_spec(&self) -> (usize, usize) {
        self.size
    }

    /// The stored depth buffer's length.
    pub closed spec fn depths_len(&self) -> int {
        self.depths@.len() as int
    }

    /// Hands the finished frame out and resets the surface for the next one.
    pub fn display(&mut self) -> (r: Vec<Color>)
        requires
            old(self).wf(),
        ensures
            final(self).wf(),
            final(self).surf() == Surf::fresh(old(self).surf().width, old(self).surf().height),
            r@ == old(self).colors_spec(),
            r@.len() == old(self).surf().cells.len(),
            forall|i: int|
                0 <= i < r@.len() ==> r@[i]@ == shade_cell(old(self).surf().cells[i]),
    {
        let n = self.colors.len();
        let mut out: Vec<Color> = Vec::new();
        let mut i: usize = 0;
        while i < n
            invariant
                n == self.colors@.len(),
                i <= n,
                out@.len() == i,
                forall|j: int| 0 <= j < i ==> out@[j] == self.colors@[j],
            decreases n - i,
        {
            out.push(self.colors[i]);
            i = i + 1;
        }
        proof {
            assert(out@ =~= self.colors@);
        }
        self.clear_color(Color::new(0, 0, 0));
        self.clear_depth();
        proof {
            assert(self.surf() =~= Surf::fresh(old(self).surf().width, old(self).surf().height));
        }
        out
    }
}

impl Drawable for NormalDrawable {
    /// The buffers cover the resolution and the color buffer holds, pixel
    /// for pixel, the shaded image of the recorded winning writes.
    closed spec fn wf(&self) -> bool {
        &&& self.surf().wf()
        &&& self.colors@.len() == self.size.0 * self.size.1
        &&& forall|i: int|
            0 <= i < self.colors@.len() ==> #[trigger] self.colors@[i]@ == shade_cell(
                self.records@[i],
            )
    }

    closed spec fn surf(&self) -> Surf {
        Surf {
            width: self.size.0 as int,
            height: self.size.1 as int,
            depths: self.depths@.map_values(|d: i64| d as int),
            cells: self.records@,
        }
    }

    fn size(&self) -> (r: (usize, usize)) {
        self.size
    }

    fn set_pixel_data(&mut self, point: Point<usize>, shader: &Rc<FaceShader>) {
        let depth = point.interpolated[0];
        if depth < -FX_ONE || depth > FX_ONE || point.x >= self.size.0 || point.y >= self.size.1 {
            return ;
        }
        let buffer_len = self.depths.len();
        proof {
            assert((self.size.1 - point.y - 1) * self.size.0 + point.x < self.size.1 * self.size.0)
                by (nonlinear_arith)
                requires
                    (point.x as int) < self.size.0 as int,
                    (point.y as int) < self.size.1 as int,
            ;
            assert(self.size.1 as int * self.size.0 as int == self.size.0 as int * self.size.1
                as int) by (nonlinear_arith);
            assert(buffer_len as int == self.surf().depths.len());
        }
        let index = (self.size.1 - point.y - 1) * self.size.0 + point.x;
        if depth < self.depths[index] {
            let info = PixelInfo { shader: Some(shader.clone()), interpolated: point.interpolated };
            self.colors[index] = color_shader::execute(&info);
            self.depths[index] = depth;
            proof {
                self.records@ = self.records@.update(
                    index as int,
                    Option::Some(
                        CellV { interpolated: point.interpolated@, shader: shader@ },
                    ),
                );
                assert(self.depths@.map_values(|d: i64| d as int) =~= old(self).surf().depths.update(
                    index as int,
                    depth as int,
                ));
                assert(self.surf() =~= write_step(old(self).surf(), point, shader@));
            }
        }
    }
}

/// The deferred frame surface: depth-tests every write but stores only the
/// winning record per pixel; the whole buffer is shaded once at display
/// time.
pub struct DeferredDrawable {
    size: (usize, usize),
    infos: Vec<PixelInfo>,
    depths: Vec<i64>,
}

impl DeferredDrawable {
    /// Builds a surface of the given resolution: no records, all depths at
    /// the far plane.
    pub fn new(size: (usize, usize)) -> (r: DeferredDrawable)
        requires
            size.0 * size.1 <= usize::MAX,
        ensures
            r.wf(),
            r.surf() == Surf::fresh(size.0 as int, size.1 as int),
    {
        let n = size.0 * size.1;
        let mut infos: Vec<PixelInfo> = Vec::new();
        let mut i: usize = 0;
        while i < n
            invariant
                i <= n,
                infos@.len() == i,
                forall|j: int|
                    0 <= j < i ==> (#[trigger] infos@[j]).shader is None,
            decreases n - i,
        {
            infos.push(PixelInfo::new(interpolated_zeros()));
            i = i + 1;
        }
        let out = DeferredDrawable { size, infos, depths: fill_i64(n, FX_ONE) };
        proof {
            assert(out.surf() =~= Surf::fresh(size.0 as int, size.1 as int));
        }
        out
    }

    /// Shades the whole buffer, hands the frame out, and resets the surface.
    pub fn display(&mut self) -> (r: Vec<Color>)
        requires
            old(self).wf(),
        ensures
            final(self).wf(),
            final(self).surf() == Surf::fresh(old(self).surf().width, old(self).surf().height),
            r@.len() == old(self).surf().cells.len(),
            forall|i: int|
                0 <= i < r@.len() ==> r@[i]@ == shade_cell(old(self).surf().cells[i]),
    {
        let n = self.infos.len();
        let mut out: Vec<Color> = Vec::new();
        let mut i: usize = 0;
        while i < n
            invariant
                old(self).wf(),
                self == old(self),
                n == self.infos@.len(),
                i <= n,
                out@.len() == i,
                forall|j: int|
                    0 <= j < i ==> #[trigger] out@[j]@ == shade_cell(
                        old(self).surf().cells[j],
                    ),
            decreases n - i,
        {
            proof {
                assert(old(self).surf().cells[i as int] == info_cell(self.infos@[i as int]));
                assert(self.infos@[i as int].wf()) by {
                    let c = old(self).surf().cells[i as int];
                    assert(0 <= (i as int) && (i as int) < old(self).surf().cells.len());
                    assert(match c {
                        Option::Some(cc) => shader_v_wf(cc.shader) && cc.interpolated.len()
                            == VALUES_AMOUNT as int,
                        Option::None => true,
                    });
                }
            }
            out.push(color_shader::execute(&self.infos[i]));
            i = i + 1;
        }
        let size = self.size;
        let n = size.0 * size.1;
        let mut infos: Vec<PixelInfo> = Vec::new();
        let mut i: usize = 0;
        while i < n
            invariant
                i <= n,
                infos@.len() == i,
                forall|j: int|
                    0 <= j < i ==> (#[trigger] infos@[j]).shader is None,
            decreases n - i,
        {
            infos.push(PixelInfo::new(interpolated_zeros()));
            i = i + 1;
        }
        self.infos = infos;
        self.depths = fill_i64(n, FX_ONE);
        proof {
            assert(self.surf() =~= Surf::fresh(old(self).surf().width, old(self).surf().height));
        }
        out
    }
}

impl Drawable for DeferredDrawable {
    /// The buffers cover the resolution and every stored record is well
    /// formed.
    closed spec fn wf(&self) -> bool {
        &&& self.surf().wf()
        &&& self.infos@.len() == self.size.0 * self.size.1
    }

    closed spec fn surf(&self) -> Surf {
        Surf {
            width: self.size.0 as int,
            height: self.size.1 as int,
            depths: self.depths@.map_values(|d: i64| d as int),
            cells: self.infos@.map_values(|pi: PixelInfo| info_cell(pi)),
        }
    }

    fn size(&self) -> (r: (usize, usize)) {
        self.size
    }

    fn set_pixel_data(&mut self, point: Point<usize>, shader: &Rc<FaceShader>) {
        let depth = point.interpolated[0];
        if depth < -FX_ONE || depth > FX_ONE || point.x >= self.size.0 || point.y >= self.size.1 {
            return ;
        }
        let buffer_len = self.depths.len();
        proof {
            assert((self.size.1 - point.y - 1) * self.size.0 + point.x < self.size.1 * self.size.0)
                by (nonlinear_arith)
                requires
                    (point.x as int) < self.size.0 as int,
                    (point.y as int) < self.size.1 as int,
            ;
            assert(self.size.1 as int * self.size.0 as int == self.size.0 as int * self.size.1
                as int) by (nonlinear_arith);
            assert(buffer_len as int == self.surf().depths.len());
        }
        let index = (self.size.1 - point.y - 1) * self.size.0 + point.x;
        if depth < self.depths[index] {
            self.infos[index] = PixelInfo {
                shader: Some(shader.clone()),
                interpolated: point.interpolated,
            };
            self.depths[index] = depth;
            proof {
                assert(self.depths@.map_values(|d: i64| d as int) =~= old(self).surf().depths.update(
                    index as int,
                    depth as int,
                ));
                assert(self.infos@.map_values(|pi: PixelInfo| info_cell(pi)) =~= old(
                    self,
                ).surf().cells.update(
                    index as int,
                    Option::Some(
                        CellV { interpolated: point.interpolated@, shader: shader@ },
                    ),
                ));
                assert(self.surf() =~= write_step(old(self).surf(), point, shader@));
            }
        }
    }
}

/// Law: the two pixel-output strategies agree. Whenever an immediate and a
/// deferred surface hold the same abstract state — as they do after any
/// equal sequence of writes from equal fresh states, every write being the
/// deterministic `write_step` — the immediate surface's stored color buffer
/// is exactly, pixel for pixel, the image the deferred surface will shade
/// at display time.
pub proof fn lemma_deferred_immediate_agree(n: &NormalDrawable, d: &DeferredDrawable)
    requires
        n.wf(),
        d.wf(),
        n.surf() == d.surf(),
    ensures
        n.colors_spec().len() == d.surf().cells.len(),
        forall|i: int|
            0 <= i < n.colors_spec().len() ==> #[trigger] n.colors_spec()[i]@ == shade_cell(
                d.surf().cells[i],
            ),
{
    assert forall|i: int| 0 <= i < n.colors_spec().len() implies #[trigger] n.colors_spec()[i]@
        == shade_cell(d.surf().cells[i]) by {
        assert(n.colors_spec()[i]@ == shade_cell(n.surf().cells[i]));
    }
}

} // verus!
