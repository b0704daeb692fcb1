//! The generic scan-conversion algorithms: Bresenham-family line walks with
//! attribute interpolation, and the scanline triangle fill built from them.
//!
//! The walks are pure: each produces the list of pixels it visits, every
//! pixel carrying its interpolated attribute tuple. Surfaces consume such
//! lists through the pixel-write contract of [`Drawable`].

use vstd::prelude::*;
use std::rc::Rc;

use crate::common::{
    combine_interpolated, combine_spec, interp_at, lemma_sample_tuple_eq, lemma_sample_tuple_exact,
    reversed_values_spec, sample_tuple, shader_v_wf, FaceShader, FaceShaderV, Interpolated,
    Interpolator, Point, ValuesType, VALUES_AMOUNT,
};
use crate::fixed::{tdiv, FX_ONE};

verus! {

/// The largest pixel coordinate the rasterizer works with; viewport mapping
/// clamps into `[0, COORD_LIMIT]`, which keeps every intermediate of the
/// walks inside the machine integer ranges.
pub const COORD_LIMIT: usize = 0x3fff_ffff;

/// The `(y, error)` state of the shallow-slope walk before step `i`: the
/// walk advances one pixel in x per step and lets the Bresenham error term
/// decide when y moves one pixel toward the far endpoint.
pub open spec fn low_walk_state(i: nat, y0: int, dx: int, dy: int, sy: int) -> (int, int)
    decreases i,
{
    if i == 0 {
        (y0, 2 * dy - dx)
    } else {
        let prev = low_walk_state((i - 1) as nat, y0, dx, dy, sy);
        if prev.1 > 0 {
            (prev.0 + sy, prev.1 + 2 * (dy - dx))
        } else {
            (prev.0, prev.1 + 2 * dy)
        }
    }
}

/// The walk's y stays between the endpoints' rows, and the error term keeps
/// the stated closed form.
pub proof fn lemma_low_walk_bounds(i: nat, y0: int, dx: int, dy: int, sy: int)
    requires
        0 <= dy <= dx,
        sy == 1 || sy == -1,
        i <= dx,
    ensures
        0 <= (low_walk_state(i, y0, dx, dy, sy).0 - y0) * sy <= dy,
        low_walk_state(i, y0, dx, dy, sy).1 == 2 * (i + 1) * dy - (2 * (low_walk_state(
            i,
            y0,
            dx,
            dy,
            sy,
        ).0 - y0) * sy + 1) * dx,
    decreases i,
{
    if i == 0 {
        assert((y0 - y0) * sy == 0);
        assert(2 * (0 + 1) * dy - (2 * 0 + 1) * dx == 2 * dy - dx) by (nonlinear_arith);
    } else {
        lemma_low_walk_bounds((i - 1) as nat, y0, dx, dy, sy);
        let prev = low_walk_state((i - 1) as nat, y0, dx, dy, sy);
        let k = (prev.0 - y0) * sy;
        let cur = low_walk_state(i, y0, dx, dy, sy);
        if prev.1 > 0 {
            // The error term is negative once y has reached the far row, so
            // a further step cannot overshoot.
            if k == dy {
                assert(2 * (i - 1 + 1) * dy - (2 * dy + 1) * dx <= 0) by (nonlinear_arith)
                    requires
                        1 <= i <= dx,
                        0 <= dy <= dx,
                ;
                assert(false);
            }
            assert((prev.0 + sy - y0) * sy == k + 1) by (nonlinear_arith)
                requires
                    sy == 1 || sy == -1,
                    k == (prev.0 - y0) * sy,
            ;
            assert(cur.1 == 2 * (i + 1) * dy - (2 * (k + 1) + 1) * dx) by (nonlinear_arith)
                requires
                    cur.1 == prev.1 + 2 * (dy - dx),
                    prev.1 == 2 * ((i - 1) + 1) * dy - (2 * k + 1) * dx,
            ;
        } else {
            assert(cur.1 == 2 * (i + 1) * dy - (2 * k + 1) * dx) by (nonlinear_arith)
                requires
                    cur.1 == prev.1 + 2 * dy,
                    prev.1 == 2 * ((i - 1) + 1) * dy - (2 * k + 1) * dx,
            ;
        }
    }
}

/// The pixels of a shallow-slope line from `(x0, y0)` to `(x1, y1)` with
/// `x0 < x1`, walking x upward; sample `i` of the channel walk rides along.
pub open spec fn line_low_seq(x0: int, y0: int, x1: int, y1: int, values: ValuesType) -> Seq<
    Point<usize>,
> {
    let dx = x1 - x0;
    let dy = if y1 >= y0 {
        y1 - y0
    } else {
        y0 - y1
    };
    let sy: int = if y1 >= y0 {
        1
    } else {
        -1
    };
    Seq::new(
        (dx + 1) as nat,
        |i: int|
            Point {
                x: (x0 + i) as usize,
                y: low_walk_state(i as nat, y0, dx, dy, sy).0 as usize,
                interpolated: sample_tuple(values, dx, i),
            },
    )
}

/// The pixels of a steep-slope line from `(x0, y0)` to `(x1, y1)` with
/// `y0 < y1`, walking y upward.
pub open spec fn line_high_seq(x0: int, y0: int, x1: int, y1: int, values: ValuesType) -> Seq<
    Point<usize>,
> {
    let dy = y1 - y0;
    let dx = if x1 >= x0 {
        x1 - x0
    } else {
        x0 - x1
    };
    let sx: int = if x1 >= x0 {
        1
    } else {
        -1
    };
    Seq::new(
        (dy + 1) as nat,
        |i: int|
            Point {
                x: low_walk_state(i as nat, x0, dy, dx, sx).0 as usize,
                y: (y0 + i) as usize,
                interpolated: sample_tuple(values, dy, i),
            },
    )
}

/// The pixels of a vertical line rising from `(x, y)` for `steps + 1` rows.
pub open spec fn line_vertical_seq(x: int, y: int, steps: int, values: ValuesType) -> Seq<
    Point<usize>,
> {
    Seq::new(
        (steps + 1) as nat,
        |i: int|
            Point {
                x: x as usize,
                y: (y + i) as usize,
                interpolated: sample_tuple(values, steps, i),
            },
    )
}

/// The pixels of a horizontal line running right from `(x, y)` for
/// `steps + 1` columns.
pub open spec fn line_horizontal_seq(y: int, x: int, steps: int, values: ValuesType) -> Seq<
    Point<usize>,
> {
    Seq::new(
        (steps + 1) as nat,
        |i: int|
            Point {
                x: (x + i) as usize,
                y: y as usize,
                interpolated: sample_tuple(values, steps, i),
            },
    )
}

/// The pixels of an arbitrary line between two local points, endpoints
/// included: the walk is chosen by slope, always stepping its long axis
/// upward, with the channel walk reversed whenever the endpoints had to be
/// swapped for that.
pub open spec fn line_points_seq(p0: Point<usize>, p1: Point<usize>) -> Seq<Point<usize>> {
    let values = combine_spec(p0.interpolated, p1.interpolated);
    let rev = reversed_values_spec(values);
    let y_diff = if p1.y >= p0.y {
        p1.y - p0.y
    } else {
        p0.y - p1.y
    };
    let x_diff = if p1.x >= p0.x {
        p1.x - p0.x
    } else {
        p0.x - p1.x
    };
    if p0.x == p1.x {
        if p0.y > p1.y {
            line_vertical_seq(p0.x as int, p1.y as int, y_diff, rev)
        } else {
            line_vertical_seq(p0.x as int, p0.y as int, y_diff, values)
        }
    } else if p0.y == p1.y {
        if p0.x > p1.x {
            line_horizontal_seq(p0.y as int, p1.x as int, x_diff, rev)
        } else {
            line_horizontal_seq(p0.y as int, p0.x as int, x_diff, values)
        }
    } else if y_diff < x_diff {
        if p0.x > p1.x {
            line_low_seq(p1.x as int, p1.y as int, p0.x as int, p0.y as int, rev)
        } else {
            line_low_seq(p0.x as int, p0.y as int, p1.x as int, p1.y as int, values)
        }
    } else {
        if p0.y > p1.y {
            line_high_seq(p1.x as int, p1.y as int, p0.x as int, p0.y as int, rev)
        } else {
            line_high_seq(p0.x as int, p0.y as int, p1.x as int, p1.y as int, values)
        }
    }
}

/// Walks a shallow-slope line, collecting its pixels in order.
pub fn line_low_points(
    x0: usize,
    y0: usize,
    x1: usize,
    y1: usize,
    interpolator: Interpolator,
) -> (r: Vec<Point<usize>>)
    requires
        x0 < x1,
        x1 <= COORD_LIMIT,
        y0 <= COORD_LIMIT,
        y1 <= COORD_LIMIT,
        (if y1 >= y0 {
            y1 - y0
        } else {
            y0 - y1
        }) <= x1 - x0,
    ensures
        r@ == line_low_seq(
            x0 as int,
            y0 as int,
            x1 as int,
            y1 as int,
            interpolator.values_spec(),
        ),
{
    let ghost values = interpolator.values_spec();
    let ghost target = line_low_seq(x0 as int, y0 as int, x1 as int, y1 as int, values);
    let dx = x1 - x0;
    let (dy, sy): (i64, i64) = if y1 >= y0 {
        ((y1 - y0) as i64, 1)
    } else {
        ((y0 - y1) as i64, -1)
    };
    let mut error: i128 = 2 * (dy as i128) - (dx as i128);
    let mut y: i64 = y0 as i64;
    let mut sampler = interpolator.interpolator(dx);
    let mut out: Vec<Point<usize>> = Vec::new();
    let mut i: usize = 0;
    while i <= dx
        invariant
            dx == x1 - x0,
            x0 < x1 <= COORD_LIMIT,
            y0 <= COORD_LIMIT,
            y1 <= COORD_LIMIT,
            dy == (if y1 >= y0 {
                y1 - y0
            } else {
                y0 - y1
            }),
            sy == (if y1 >= y0 {
                1
            } else {
                -1
            }),
            dy <= dx,
            i <= dx + 1,
            y as int == low_walk_state(i as nat, y0 as int, dx as int, dy as int, sy as int).0,
            error as int == low_walk_state(
                i as nat,
                y0 as int,
                dx as int,
                dy as int,
                sy as int,
            ).1,
            sampler.values_spec() == values,
            sampler.steps_spec() == dx,
            sampler.at_spec() == i,
            target == line_low_seq(x0 as int, y0 as int, x1 as int, y1 as int, values),
            out@.len() == i,
            forall|j: int| 0 <= j < i ==> out@[j] == target[j],
        decreases dx + 1 - i,
    {
        proof {
            lemma_low_walk_bounds(i as nat, y0 as int, dx as int, dy as int, sy as int);
        }
        let vals = sampler.next();
        proof {
            lemma_sample_tuple_eq(values, dx as int, i as int, vals);
        }
        out.push(Point { x: x0 + i, y: y as usize, interpolated: vals });
        if error > 0 {
            y = y + sy;
            error = error + 2 * ((dy as i128) - (dx as i128));
        } else {
            error = error + 2 * (dy as i128);
        }
        i = i + 1;
    }
    proof {
        assert(out@ =~= target);
    }
    out
}

/// Walks a steep-slope line, collecting its pixels in order.
pub fn line_high_points(
    x0: usize,
    y0: usize,
    x1: usize,
    y1: usize,
    interpolator: Interpolator,
) -> (r: Vec<Point<usize>>)
    requires
        y0 < y1,
        y1 <= COORD_LIMIT,
        x0 <= COORD_LIMIT,
        x1 <= COORD_LIMIT,
        (if x1 >= x0 {
            x1 - x0
        } else {
            x0 - x1
        }) <= y1 - y0,
    ensures
        r@ == line_high_seq(
            x0 as int,
            y0 as int,
            x1 as int,
            y1 as int,
            interpolator.values_spec(),
        ),
{
    let ghost values = interpolator.values_spec();
    let ghost target = line_high_seq(x0 as int, y0 as int, x1 as int, y1 as int, values);
    let dy = y1 - y0;
    let (dx, sx): (i64, i64) = if x1 >= x0 {
        ((x1 - x0) as i64, 1)
    } else {
        ((x0 - x1) as i64, -1)
    };
    let mut error: i128 = 2 * (dx as i128) - (dy as i128);
    let mut x: i64 = x0 as i64;
    let mut sampler = interpolator.interpolator(dy);
    let mut out: Vec<Point<usize>> = Vec::new();
    let mut i: usize = 0;
    while i <= dy
        invariant
            dy == y1 - y0,
            y0 < y1 <= COORD_LIMIT,
            x0 <= COORD_LIMIT,
            x1 <= COORD_LIMIT,
            dx == (if x1 >= x0 {
                x1 - x0
            } else {
                x0 - x1
            }),
            sx == (if x1 >= x0 {
                1
            } else {
                -1
            }),
            dx <= dy,
            i <= dy + 1,
            x as int == low_walk_state(i as nat, x0 as int, dy as int, dx as int, sx as int).0,
            error as int == low_walk_state(
                i as nat,
                x0 as int,
                dy as int,
                dx as int,
                sx as int,
            ).1,
            sampler.values_spec() == values,
            sampler.steps_spec() == dy,
            sampler.at_spec() == i,
            target == line_high_seq(x0 as int, y0 as int, x1 as int, y1 as int, values),
            out@.len() == i,
            forall|j: int| 0 <= j < i ==> out@[j] == target[j],
        decreases dy + 1 - i,
    {
        proof {
            lemma_low_walk_bounds(i as nat, x0 as int, dy as int, dx as int, sx as int);
        }
        let vals = sampler.next();
        proof {
            lemma_sample_tuple_eq(values, dy as int, i as int, vals);
        }
        out.push(Point { x: x as usize, y: y0 + i, interpolated: vals });
        if error > 0 {
            x = x + sx;
            error = error + 2 * ((dx as i128) - (dy as i128));
        } else {
            error = error + 2 * (dx as i128);
        }
        i = i + 1;
    }
    proof {
        assert(out@ =~= target);
    }
    out
}

/// Walks a vertical line of `steps + 1` pixels, bottom row first.
pub fn line_vertical(x: usize, y: usize, steps: usize, interpolator: Interpolator) -> (r: Vec<
    Point<usize>,
>)
    requires
        x <= COORD_LIMIT,
        y + steps <= COORD_LIMIT,
    ensures
        r@ == line_vertical_seq(x as int, y as int, steps as int, interpolator.values_spec()),
{
    let ghost values = interpolator.values_spec();
    let ghost target = line_vertical_seq(x as int, y as int, steps as int, values);
    let mut sampler = interpolator.interpolator(steps);
    let mut out: Vec<Point<usize>> = Vec::new();
    let mut i: usize = 0;
    while i <= steps
        invariant
            x <= COORD_LIMIT,
            y + steps <= COORD_LIMIT,
            i <= steps + 1,
            sampler.values_spec() == values,
            sampler.steps_spec() == steps,
            sampler.at_spec() == i,
            target == line_vertical_seq(x as int, y as int, steps as int, values),
            out@.len() == i,
            forall|j: int| 0 <= j < i ==> out@[j] == target[j],
        decreases steps + 1 - i,
    {
        let vals = sampler.next();
        proof {
            lemma_sample_tuple_eq(values, steps as int, i as int, vals);
        }
        out.push(Point { x, y: y + i, interpolated: vals });
        i = i + 1;
    }
    proof {
        assert(out@ =~= target);
    }
    out
}

/// Walks a horizontal line of `steps + 1` pixels, leftmost column first.
pub fn line_horizontal(y: usize, x: usize, steps: usize, interpolator: Interpolator) -> (r: Vec<
    Point<usize>,
>)
    requires
        y <= COORD_LIMIT,
        x + steps <= COORD_LIMIT,
    ensures
        r@ == line_horizontal_seq(y as int, x as int, steps as int, interpolator.values_spec()),
{
    let ghost values = interpolator.values_spec();
    let ghost target = line_horizontal_seq(y as int, x as int, steps as int, values);
    let mut sampler = interpolator.interpolator(steps);
    let mut out: Vec<Point<usize>> = Vec::new();
    let mut i: usize = 0;
    while i <= steps
        invariant
            y <= COORD_LIMIT,
            x + steps <= COORD_LIMIT,
            i <= steps + 1,
            sampler.values_spec() == values,
            sampler.steps_spec() == steps,
            sampler.at_spec() == i,
            target == line_horizontal_seq(y as int, x as int, steps as int, values),
            out@.len() == i,
            forall|j: int| 0 <= j < i ==> out@[j] == target[j],
        decreases steps + 1 - i,
    {
        let vals = sampler.next();
        proof {
            lemma_sample_tuple_eq(values, steps as int, i as int, vals);
        }
        out.push(Point { x: x + i, y, interpolated: vals });
        i = i + 1;
    }
    proof {
        assert(out@ =~= target);
    }
    out
}

/// Walks an arbitrary line between two local points, collecting its pixels.
pub fn line_points(p0: Point<usize>, p1: Point<usize>) -> (r: Vec<Point<usize>>)
    requires
        p0.x <= COORD_LIMIT,
        p0.y <= COORD_LIMIT,
        p1.x <= COORD_LIMIT,
        p1.y <= COORD_LIMIT,
    ensures
        r@ == line_points_seq(p0, p1),
{
    let values = combine_interpolated(p0.interpolated, p1.interpolated);
    let y_abs_diff = if p1.y >= p0.y {
        p1.y - p0.y
    } else {
        p0.y - p1.y
    };
    let x_abs_diff = if p1.x >= p0.x {
        p1.x - p0.x
    } else {
        p0.x - p1.x
    };
    if p0.x == p1.x {
        if p0.y > p1.y {
            line_vertical(p0.x, p1.y, y_abs_diff, Interpolator::new_reversed(values))
        } else {
            line_vertical(p0.x, p0.y, y_abs_diff, Interpolator::new(values))
        }
    } else if p0.y == p1.y {
        if p0.x > p1.x {
            line_horizontal(p0.y, p1.x, x_abs_diff, Interpolator::new_reversed(values))
        } else {
            line_horizontal(p0.y, p0.x, x_abs_diff, Interpolator::new(values))
        }
    } else if y_abs_diff < x_abs_diff {
        if p0.x > p1.x {
            line_low_points(p1.x, p1.y, p0.x, p0.y, Interpolator::new_reversed(values))
        } else {
            line_low_points(p0.x, p0.y, p1.x, p1.y, Interpolator::new(values))
        }
    } else {
        if p0.y > p1.y {
            line_high_points(p1.x, p1.y, p0.x, p0.y, Interpolator::new_reversed(values))
        } else {
            line_high_points(p0.x, p0.y, p1.x, p1.y, Interpolator::new(values))
        }
    }
}

/// Every pixel of a line stays inside the bounding box of its endpoints.
pub proof fn lemma_line_points_bounds(p0: Point<usize>, p1: Point<usize>)
    ensures
        forall|j: int|
            0 <= j < line_points_seq(p0, p1).len() ==> {
                let q = #[trigger] line_points_seq(p0, p1)[j];
                &&& (if p0.x <= p1.x {
                    p0.x <= q.x <= p1.x
                } else {
                    p1.x <= q.x <= p0.x
                })
                &&& (if p0.y <= p1.y {
                    p0.y <= q.y <= p1.y
                } else {
                    p1.y <= q.y <= p0.y
                })
            },
{
    let s = line_points_seq(p0, p1);
    let y_diff: int = if p1.y >= p0.y {
        p1.y - p0.y
    } else {
        p0.y - p1.y
    };
    let x_diff: int = if p1.x >= p0.x {
        p1.x - p0.x
    } else {
        p0.x - p1.x
    };
    assert forall|j: int| #![trigger s[j]] 0 <= j < s.len() implies {
        let q = s[j];
        &&& (if p0.x <= p1.x {
            p0.x <= q.x <= p1.x
        } else {
            p1.x <= q.x <= p0.x
        })
        &&& (if p0.y <= p1.y {
            p0.y <= q.y <= p1.y
        } else {
            p1.y <= q.y <= p0.y
        })
    } by {
        if p0.x == p1.x {
        } else if p0.y == p1.y {
        } else if y_diff < x_diff {
            if p0.x > p1.x {
                lemma_low_walk_bounds(
                    j as nat,
                    p1.y as int,
                    x_diff,
                    y_diff,
                    if p0.y as int >= p1.y as int {
                        1int
                    } else {
                        -1int
                    },
                );
            } else {
                lemma_low_walk_bounds(
                    j as nat,
                    p0.y as int,
                    x_diff,
                    y_diff,
                    if p1.y as int >= p0.y as int {
                        1int
                    } else {
                        -1int
                    },
                );
            }
        } else {
            if p0.y > p1.y {
                lemma_low_walk_bounds(
                    j as nat,
                    p1.x as int,
                    y_diff,
                    x_diff,
                    if p0.x as int >= p1.x as int {
                        1int
                    } else {
                        -1int
                    },
                );
            } else {
                lemma_low_walk_bounds(
                    j as nat,
                    p0.x as int,
                    y_diff,
                    x_diff,
                    if p1.x as int >= p0.x as int {
                        1int
                    } else {
                        -1int
                    },
                );
            }
        }
    }
}

/// One edge-walk endpoint of a scanline row: the column reached and the
/// attribute tuple carried there.
#[derive(Debug, Clone, Copy)]
pub struct PointDesc {
    pub limit: usize,
    pub interpolated: Interpolated,
}

/// The running lower and upper column bounds of one scanline row.
#[derive(Debug, Clone, Copy)]
pub struct Limits {
    pub lower: PointDesc,
    pub upper: PointDesc,
}

/// The all-zero attribute tuple.
pub open spec fn zero_tuple() -> Interpolated {
    [0i64, 0i64, 0i64, 0i64, 0i64, 0i64, 0i64, 0i64, 0i64]
}

/// The bounds a row starts from: an empty interval whose lower sentinel any
/// column undercuts and whose upper sentinel any positive column exceeds.
pub open spec fn sentinel_limits() -> Limits {
    Limits {
        lower: PointDesc { limit: usize::MAX, interpolated: zero_tuple() },
        upper: PointDesc { limit: 0, interpolated: zero_tuple() },
    }
}

/// Widens a row's bounds by one visited pixel: the pixel becomes the lower
/// bound if it lies left of it and the upper bound if it lies right of it.
pub open spec fn line_pixel_spec(limits: Limits, p: Point<usize>) -> Limits {
    let desc = PointDesc { limit: p.x, interpolated: p.interpolated };
    let l1 = if limits.lower.limit > p.x {
        Limits { lower: desc, ..limits }
    } else {
        limits
    };
    if l1.upper.limit < p.x {
        Limits { upper: desc, ..l1 }
    } else {
        l1
    }
}

/// Folds a list of edge pixels into per-row bounds; a pixel outside the row
/// range changes nothing.
pub open spec fn fold_spans(spans: Seq<Limits>, y_begin: int, pts: Seq<Point<usize>>) -> Seq<
    Limits,
>
    decreases pts.len(),
{
    if pts.len() == 0 {
        spans
    } else {
        let prev = fold_spans(spans, y_begin, pts.drop_last());
        let p = pts.last();
        let row = p.y - y_begin;
        if 0 <= row < prev.len() {
            prev.update(row, line_pixel_spec(prev[row], p))
        } else {
            prev
        }
    }
}

/// Folding preserves the number of rows.
pub proof fn lemma_fold_spans_len(spans: Seq<Limits>, y_begin: int, pts: Seq<Point<usize>>)
    ensures
        fold_spans(spans, y_begin, pts).len() == spans.len(),
    decreases pts.len(),
{
    if pts.len() > 0 {
        lemma_fold_spans_len(spans, y_begin, pts.drop_last());
    }
}

/// Folding a concatenation folds the parts in turn.
pub proof fn lemma_fold_spans_append(
    spans: Seq<Limits>,
    y_begin: int,
    a: Seq<Point<usize>>,
    b: Seq<Point<usize>>,
)
    ensures
        fold_spans(spans, y_begin, a + b) == fold_spans(fold_spans(spans, y_begin, a), y_begin, b),
    decreases b.len(),
{
    if b.len() == 0 {
        assert(a + b =~= a);
    } else {
        lemma_fold_spans_append(spans, y_begin, a, b.drop_last());
        assert((a + b).drop_last() =~= a + b.drop_last());
        assert((a + b).last() == b.last());
    }
}

/// Folding never lengthens the row list, and keeps every upper bound at a
/// visited column (or at the sentinel zero) and every lower bound at a
/// visited column (or at the sentinel maximum).
pub proof fn lemma_fold_spans_bounds(
    spans: Seq<Limits>,
    y_begin: int,
    pts: Seq<Point<usize>>,
    limit: int,
)
    requires
        forall|j: int| 0 <= j < pts.len() ==> #[trigger] pts[j].x <= limit,
        forall|r: int|
            0 <= r < spans.len() ==> (#[trigger] spans[r].upper.limit <= limit) && (
            spans[r].lower.limit <= limit || spans[r].lower.limit == usize::MAX),
        0 <= limit,
    ensures
        fold_spans(spans, y_begin, pts).len() == spans.len(),
        forall|r: int|
            0 <= r < spans.len() ==> (#[trigger] fold_spans(spans, y_begin, pts)[r].upper.limit
                <= limit) && (fold_spans(spans, y_begin, pts)[r].lower.limit <= limit
                || fold_spans(spans, y_begin, pts)[r].lower.limit == usize::MAX),
    decreases pts.len(),
{
    lemma_fold_spans_len(spans, y_begin, pts);
    if pts.len() > 0 {
        lemma_fold_spans_bounds(spans, y_begin, pts.drop_last(), limit);
        lemma_fold_spans_len(spans, y_begin, pts.drop_last());
        let prev = fold_spans(spans, y_begin, pts.drop_last());
        let cur = fold_spans(spans, y_begin, pts);
        let p = pts.last();
        let row = p.y - y_begin;
        assert(pts.drop_last().len() < pts.len());
        assert(forall|j: int|
            0 <= j < pts.drop_last().len() ==> #[trigger] pts.drop_last()[j].x == pts[j].x);
        assert(p.x <= limit);
        assert forall|r: int|
            0 <= r < spans.len() implies (#[trigger] cur[r].upper.limit <= limit) && (
        cur[r].lower.limit <= limit || cur[r].lower.limit == usize::MAX) by {
            if 0 <= row < prev.len() && r == row {
                assert(cur[r] == line_pixel_spec(prev[row], p));
            } else {
                assert(cur[r] == prev[r]);
            }
        }
    }
}

/// Feeds one visited pixel into the row bounds it falls on.
pub fn line_pixel(point: Point<usize>, y_begin: usize, y_points: &mut Vec<Limits>)
    requires
        y_begin <= point.y,
        point.y - y_begin < old(y_points).len(),
    ensures
        final(y_points)@ == old(y_points)@.update(
            point.y - y_begin,
            line_pixel_spec(old(y_points)@[point.y - y_begin], point),
        ),
{
    let row = point.y - y_begin;
    let desc = PointDesc { limit: point.x, interpolated: point.interpolated };
    let current = y_points[row];
    let lower = if current.lower.limit > point.x {
        desc
    } else {
        current.lower
    };
    let upper = if current.upper.limit < point.x {
        desc
    } else {
        current.upper
    };
    y_points[row] = Limits { lower, upper };
}

fn apply_edge(spans: &mut Vec<Limits>, y_begin: usize, pts: &Vec<Point<usize>>)
    requires
        forall|j: int|
            0 <= j < pts@.len() ==> y_begin <= (#[trigger] pts@[j]).y && pts@[j].y - y_begin < old(
                spans,
            )@.len(),
    ensures
        final(spans)@ == fold_spans(old(spans)@, y_begin as int, pts@),
{
    let ghost init = spans@;
    let mut j: usize = 0;
    while j < pts.len()
        invariant
            forall|k: int|
                0 <= k < pts@.len() ==> y_begin <= (#[trigger] pts@[k]).y && pts@[k].y - y_begin
                    < init.len(),
            j <= pts@.len(),
            spans@ == fold_spans(init, y_begin as int, pts@.take(j as int)),
            spans@.len() == init.len(),
        decreases pts@.len() - j,
    {
        proof {
            assert(pts@.take(j as int + 1).drop_last() =~= pts@.take(j as int));
            assert(pts@.take(j as int + 1).last() == pts@[j as int]);
            lemma_fold_spans_len(init, y_begin as int, pts@.take(j as int));
        }
        line_pixel(pts[j], y_begin, spans);
        j = j + 1;
    }
    proof {
        assert(pts@.take(pts@.len() as int) =~= pts@);
    }
}

/// The pixels that fill one scanline row between its bounds; a row no edge
/// walk visited keeps its empty sentinel interval and produces nothing.
pub open spec fn row_fill_seq(l: Limits, y: int) -> Seq<Point<usize>> {
    if l.lower.limit <= l.upper.limit {
        line_horizontal_seq(
            y,
            l.lower.limit as int,
            l.upper.limit - l.lower.limit,
            combine_spec(l.lower.interpolated, l.upper.interpolated),
        )
    } else {
        Seq::empty()
    }
}

/// The concatenated fills of all rows, bottom row first.
pub open spec fn triangle_rows(spans: Seq<Limits>, min_y: int) -> Seq<Point<usize>>
    decreases spans.len(),
{
    if spans.len() == 0 {
        Seq::empty()
    } else {
        triangle_rows(spans.drop_last(), min_y) + row_fill_seq(
            spans.last(),
            min_y + spans.len() - 1,
        )
    }
}

/// The smaller of two coordinates.
pub open spec fn min2(a: int, b: int) -> int {
    if a <= b {
        a
    } else {
        b
    }
}

/// The larger of two coordinates.
pub open spec fn max2(a: int, b: int) -> int {
    if a >= b {
        a
    } else {
        b
    }
}

/// The pixels of a filled triangle: the three edges are walked to find each
/// scanline row's column bounds, then every row is filled between its bounds
/// with the attributes re-interpolated across the row.
pub open spec fn triangle_points_seq(
    p0: Point<usize>,
    p1: Point<usize>,
    p2: Point<usize>,
) -> Seq<Point<usize>> {
    let min_y = min2(p0.y as int, min2(p1.y as int, p2.y as int));
    let max_y = max2(p0.y as int, max2(p1.y as int, p2.y as int));
    let edges = line_points_seq(p0, p1) + line_points_seq(p1, p2) + line_points_seq(p2, p0);
    let spans0 = Seq::new((max_y - min_y + 1) as nat, |i: int| sentinel_limits());
    triangle_rows(fold_spans(spans0, min_y, edges), min_y)
}

/// Rasterizes a filled triangle between three local points, collecting its
/// pixels row by row.
pub fn triangle_points(p0: Point<usize>, p1: Point<usize>, p2: Point<usize>) -> (r: Vec<
    Point<usize>,
>)
    requires
        p0.x <= COORD_LIMIT,
        p0.y <= COORD_LIMIT,
        p1.x <= COORD_LIMIT,
        p1.y <= COORD_LIMIT,
        p2.x <= COORD_LIMIT,
        p2.y <= COORD_LIMIT,
    ensures
        r@ == triangle_points_seq(p0, p1, p2),
{
    let min_y = if p0.y <= p1.y && p0.y <= p2.y {
        p0.y
    } else if p1.y <= p2.y {
        p1.y
    } else {
        p2.y
    };
    let max_y = if p0.y >= p1.y && p0.y >= p2.y {
        p0.y
    } else if p1.y >= p2.y {
        p1.y
    } else {
        p2.y
    };
    proof {
        assert(min_y as int == min2(p0.y as int, min2(p1.y as int, p2.y as int)));
        assert(max_y as int == max2(p0.y as int, max2(p1.y as int, p2.y as int)));
    }
    let rows = max_y - min_y + 1;
    let ghost spans0 = Seq::new((max_y - min_y + 1) as nat, |i: int| sentinel_limits());
    let mut spans: Vec<Limits> = Vec::new();
    let mut i: usize = 0;
    while i < rows
        invariant
            rows == max_y - min_y + 1,
            i <= rows,
            spans0 == Seq::new((max_y as int - min_y as int + 1) as nat, |k: int| sentinel_limits()),
            spans@.len() == i,
            forall|k: int| 0 <= k < i ==> spans@[k] == sentinel_limits(),
        decreases rows - i,
    {
        let zeros = crate::common::interpolated_zeros();
        proof {
            broadcast use vstd::array::group_array_axioms;

            assert(zeros =~= zero_tuple());
        }
        spans.push(
            Limits {
                lower: PointDesc { limit: usize::MAX, interpolated: zeros },
                upper: PointDesc { limit: 0, interpolated: zeros },
            },
        );
        i = i + 1;
    }
    proof {
        assert(spans@ =~= spans0);
    }
    let e01 = line_points(p0, p1);
    let e12 = line_points(p1, p2);
    let e20 = line_points(p2, p0);
    proof {
        lemma_line_points_bounds(p0, p1);
        lemma_line_points_bounds(p1, p2);
        lemma_line_points_bounds(p2, p0);
    }
    apply_edge(&mut spans, min_y, &e01);
    proof {
        lemma_fold_spans_len(spans0, min_y as int, line_points_seq(p0, p1));
    }
    apply_edge(&mut spans, min_y, &e12);
    proof {
        lemma_fold_spans_len(
            fold_spans(spans0, min_y as int, line_points_seq(p0, p1)),
            min_y as int,
            line_points_seq(p1, p2),
        );
    }
    apply_edge(&mut spans, min_y, &e20);
    let ghost edges = line_points_seq(p0, p1) + line_points_seq(p1, p2) + line_points_seq(p2, p0);
    proof {
        lemma_fold_spans_append(
            spans0,
            min_y as int,
            line_points_seq(p0, p1),
            line_points_seq(p1, p2),
        );
        lemma_fold_spans_append(
            spans0,
            min_y as int,
            line_points_seq(p0, p1) + line_points_seq(p1, p2),
            line_points_seq(p2, p0),
        );
        assert(spans@ == fold_spans(spans0, min_y as int, edges));
        assert forall|j: int| 0 <= j < edges.len() implies #[trigger] edges[j].x
            <= COORD_LIMIT as int by {
            lemma_line_points_bounds(p0, p1);
            lemma_line_points_bounds(p1, p2);
            lemma_line_points_bounds(p2, p0);
        }
        assert forall|r: int| 0 <= r < spans0.len() implies (#[trigger] spans0[r].upper.limit
            <= COORD_LIMIT as int) && (spans0[r].lower.limit <= COORD_LIMIT as int
            || spans0[r].lower.limit == usize::MAX) by {
            assert(spans0[r] == sentinel_limits());
        }
        lemma_fold_spans_bounds(spans0, min_y as int, edges, COORD_LIMIT as int);
    }
    let mut out: Vec<Point<usize>> = Vec::new();
    let mut row: usize = 0;
    while row < rows
        invariant
            rows == max_y - min_y + 1,
            max_y <= COORD_LIMIT,
            min_y <= max_y,
            row <= rows,
            spans@.len() == rows,
            spans@ == fold_spans(spans0, min_y as int, edges),
            forall|r: int|
                0 <= r < spans@.len() ==> (#[trigger] spans@[r].upper.limit <= COORD_LIMIT as int)
                    && (spans@[r].lower.limit <= COORD_LIMIT as int || spans@[r].lower.limit
                    == usize::MAX),
            out@ == triangle_rows(spans@.take(row as int), min_y as int),
        decreases rows - row,
    {
        proof {
            assert(spans@.take(row as int + 1).drop_last() =~= spans@.take(row as int));
            assert(spans@.take(row as int + 1).last() == spans@[row as int]);
        }
        let limit = spans[row];
        if limit.lower.limit <= limit.upper.limit {
            let length = limit.upper.limit - limit.lower.limit;
            let values = combine_interpolated(limit.lower.interpolated, limit.upper.interpolated);
            let mut fill = line_horizontal(
                min_y + row,
                limit.lower.limit,
                length,
                Interpolator::new(values),
            );
            let ghost fill_view = fill@;
            out.append(&mut fill);
            proof {
                assert(out@ == triangle_rows(spans@.take(row as int), min_y as int) + fill_view);
            }
        } else {
            proof {
                assert(row_fill_seq(spans@[row as int], min_y as int + row) =~= Seq::empty());
                assert(out@ =~= out@ + row_fill_seq(spans@[row as int], min_y as int + row));
            }
        }
        row = row + 1;
    }
    proof {
        assert(spans@.take(rows as int) =~= spans@);
    }
    out
}

/// The record of one winning pixel write: the interpolated attribute tuple
/// and the face shader that produced it.
#[verifier::ext_equal]
pub struct CellV {
    pub interpolated: Seq<i64>,
    pub shader: FaceShaderV,
}

/// The abstract state every pixel sink maintains: the resolution, the
/// per-pixel depth buffer, and the per-pixel record of the winning write,
/// all in the row-major order with the top row first.
#[verifier::ext_equal]
pub struct Surf {
    pub width: int,
    pub height: int,
    pub depths: Seq<int>,
    pub cells: Seq<Option<CellV>>,
}

impl Surf {
    /// The buffers cover the resolution, and every stored record is well
    /// formed and carries the full attribute tuple.
    pub open spec fn wf(&self) -> bool {
        &&& self.width >= 0
        &&& self.height >= 0
        &&& self.depths.len() == self.width * self.height
        &&& self.cells.len() == self.width * self.height
        &&& forall|i: int|
            0 <= i < self.cells.len() ==> match #[trigger] self.cells[i] {
                Option::Some(c) => shader_v_wf(c.shader) && c.interpolated.len()
                    == VALUES_AMOUNT as int,
                Option::None => true,
            }
    }

    /// A fresh frame surface: every depth at the far plane, no winning
    /// write anywhere.
    pub open spec fn fresh(width: int, height: int) -> Surf {
        Surf {
            width,
            height,
            depths: Seq::new((width * height) as nat, |i: int| FX_ONE as int),
            cells: Seq::new((width * height) as nat, |i: int| Option::<CellV>::None),
        }
    }
}

/// One pixel write: rejected when its depth leaves the clip range or its
/// coordinate the surface; otherwise it wins the pixel exactly when its
/// depth is strictly nearer than the stored one, and the winner's record
/// and depth are stored.
/// The buffer position of the pixel at `(x, y)`: row-major with the top
/// row first.
pub open spec fn pixel_index_spec(s: Surf, x: int, y: int) -> int {
    (s.height - y - 1) * s.width + x
}

pub open spec fn write_step(s: Surf, point: Point<usize>, shader: FaceShaderV) -> Surf {
    let depth = point.interpolated[0] as int;
    if depth < -(FX_ONE as int) || depth > FX_ONE as int || point.x as int >= s.width
        || point.y as int >= s.height {
        s
    } else {
        let idx = pixel_index_spec(s, point.x as int, point.y as int);
        if depth < s.depths[idx] {
            Surf {
                depths: s.depths.update(idx, depth),
                cells: s.cells.update(
                    idx,
                    Option::Some(CellV { interpolated: point.interpolated@, shader }),
                ),
                ..s
            }
        } else {
            s
        }
    }
}

/// A list of pixel writes applied in order, all with one face shader.
pub open spec fn apply_writes(s: Surf, pts: Seq<Point<usize>>, shader: FaceShaderV) -> Surf
    decreases pts.len(),
{
    if pts.len() == 0 {
        s
    } else {
        write_step(apply_writes(s, pts.drop_last(), shader), pts.last(), shader)
    }
}

/// A write never changes the resolution.
pub proof fn lemma_apply_writes_dims(s: Surf, pts: Seq<Point<usize>>, shader: FaceShaderV)
    ensures
        apply_writes(s, pts, shader).width == s.width,
        apply_writes(s, pts, shader).height == s.height,
    decreases pts.len(),
{
    if pts.len() > 0 {
        lemma_apply_writes_dims(s, pts.drop_last(), shader);
    }
}

/// Maps one fixed-point viewport coordinate in the unit interval to a pixel
/// coordinate: scaled by the resolution, truncated toward zero, and clamped
/// into `[0, COORD_LIMIT]`.
pub open spec fn to_coord_spec(x: int, dim: int) -> int {
    let v = tdiv(x * dim, FX_ONE as int);
    if v < 0 {
        0
    } else if v > COORD_LIMIT as int {
        COORD_LIMIT as int
    } else {
        v
    }
}

/// The viewport mapping of a point: both coordinates mapped by
/// `to_coord_spec` against the surface's resolution, the attributes kept.
pub open spec fn to_local_spec(s: Surf, point: Point<i64>) -> Point<usize> {
    Point {
        x: to_coord_spec(point.x as int, s.width) as usize,
        y: to_coord_spec(point.y as int, s.height) as usize,
        interpolated: point.interpolated,
    }
}

/// Maps one viewport coordinate to a pixel coordinate.
pub fn to_coord(x: i64, dim: usize) -> (r: usize)
    ensures
        r as int == to_coord_spec(x as int, dim as int),
        r <= COORD_LIMIT,
{
    proof {
        crate::fixed::lemma_abs_mul_le(
            x as int,
            dim as int,
            0x8000_0000_0000_0000,
            0xffff_ffff_ffff_ffff,
        );
    }
    let p: i128 = (x as i128) * (dim as i128);
    proof {
        crate::fixed::lemma_tdiv_shrinks(p as int, FX_ONE as int);
    }
    let v: i128 = p.checked_div(FX_ONE as i128).unwrap();
    if v < 0 {
        0
    } else if v > COORD_LIMIT as i128 {
        COORD_LIMIT
    } else {
        v as usize
    }
}

/// The pixel-write contract shared by the frame surfaces: a sink exposes an
/// abstract surface state, accepts single pixel writes against it, and maps
/// viewport points to its pixel grid; the line and triangle algorithms are
/// built on those two operations alone.
pub trait Drawable: Sized {
    /// The sink's invariant.
    spec fn wf(&self) -> bool;

    /// The sink's abstract surface state.
    spec fn surf(&self) -> Surf;

    /// The resolution in pixels.
    fn size(&self) -> (r: (usize, usize))
        requires
            self.wf(),
        ensures
            r.0 as int == self.surf().width,
            r.1 as int == self.surf().height,
    ;

    /// Applies one pixel write to the sink.
    fn set_pixel_data(&mut self, point: Point<usize>, shader: &Rc<FaceShader>)
        requires
            old(self).wf(),
            shader_v_wf(shader@),
        ensures
            final(self).wf(),
            final(self).surf() == write_step(old(self).surf(), point, shader@),
    ;

    /// Maps a viewport point to the sink's pixel grid.
    fn to_local(&self, point: Point<i64>) -> (r: Point<usize>)
        requires
            self.wf(),
        ensures
            r == to_local_spec(self.surf(), point),
    {
        let (w, h) = self.size();
        Point { x: to_coord(point.x, w), y: to_coord(point.y, h), interpolated: point.interpolated }
    }

    /// Draws an interpolated line between two viewport points.
    fn line(&mut self, p0: Point<i64>, p1: Point<i64>, shader: &Rc<FaceShader>)
        requires
            old(self).wf(),
            shader_v_wf(shader@),
        ensures
            final(self).wf(),
            final(self).surf() == apply_writes(
                old(self).surf(),
                line_points_seq(
                    to_local_spec(old(self).surf(), p0),
                    to_local_spec(old(self).surf(), p1),
                ),
                shader@,
            ),
    {
        let l0 = self.to_local(p0);
        let l1 = self.to_local(p1);
        let pts = line_points(l0, l1);
        let mut j: usize = 0;
        while j < pts.len()
            invariant
                self.wf(),
                shader_v_wf(shader@),
                j <= pts@.len(),
                self.surf() == apply_writes(old(self).surf(), pts@.take(j as int), shader@),
            decreases pts@.len() - j,
        {
            proof {
                assert(pts@.take(j as int + 1).drop_last() =~= pts@.take(j as int));
                assert(pts@.take(j as int + 1).last() == pts@[j as int]);
            }
            self.set_pixel_data(pts[j], shader);
            j = j + 1;
        }
        proof {
            assert(pts@.take(pts@.len() as int) =~= pts@);
        }
    }

    /// Draws a filled triangle between three viewport points.
    fn triangle(&mut self, o0: Point<i64>, o1: Point<i64>, o2: Point<i64>, shader: &Rc<FaceShader>)
        requires
            old(self).wf(),
            shader_v_wf(shader@),
        ensures
            final(self).wf(),
            final(self).surf() == apply_writes(
                old(self).surf(),
                triangle_points_seq(
                    to_local_spec(old(self).surf(), o0),
                    to_local_spec(old(self).surf(), o1),
                    to_local_spec(old(self).surf(), o2),
                ),
                shader@,
            ),
    {
        let l0 = self.to_local(o0);
        let l1 = self.to_local(o1);
        let l2 = self.to_local(o2);
        let pts = triangle_points(l0, l1, l2);
        let mut j: usize = 0;
        while j < pts.len()
            invariant
                self.wf(),
                shader_v_wf(shader@),
                j <= pts@.len(),
                self.surf() == apply_writes(old(self).surf(), pts@.take(j as int), shader@),
            decreases pts@.len() - j,
        {
            proof {
                assert(pts@.take(j as int + 1).drop_last() =~= pts@.take(j as int));
                assert(pts@.take(j as int + 1).last() == pts@[j as int]);
            }
            self.set_pixel_data(pts[j], shader);
            j = j + 1;
        }
        proof {
            assert(pts@.take(pts@.len() as int) =~= pts@);
        }
    }

    /// Draws the three edges of a triangle without filling it.
    fn triangle_wireframe(
        &mut self,
        p0: Point<i64>,
        p1: Point<i64>,
        p2: Point<i64>,
        shader: &Rc<FaceShader>,
    )
        requires
            old(self).wf(),
            shader_v_wf(shader@),
        ensures
            final(self).wf(),
            final(self).surf() == ({
                let s = old(self).surf();
                let l0 = to_local_spec(s, p0);
                let l1 = to_local_spec(s, p1);
                let l2 = to_local_spec(s, p2);
                apply_writes(
                    apply_writes(
                        apply_writes(s, line_points_seq(l0, l1), shader@),
                        line_points_seq(l1, l2),
                        shader@,
                    ),
                    line_points_seq(l2, l0),
                    shader@,
                )
            }),
    {
        let ghost s0 = self.surf();
        self.line(p0, p1, shader);
        proof {
            lemma_apply_writes_dims(
                s0,
                line_points_seq(to_local_spec(s0, p0), to_local_spec(s0, p1)),
                shader@,
            );
        }
        let ghost s1 = self.surf();
        self.line(p1, p2, shader);
        proof {
            lemma_apply_writes_dims(
                s1,
                line_points_seq(to_local_spec(s1, p1), to_local_spec(s1, p2)),
                shader@,
            );
        }
        self.line(p2, p0, shader);
    }
}


/// Law: of two writes to the same pixel the nearer depth wins whatever the
/// order they arrive in, and of two writes with equal depth the first one
/// is kept. Stated for writes that pass the clip and bounds tests and beat
/// the depth the surface already stores, so that the depth test alone
/// decides.
pub proof fn lemma_depth_test_order(
    s: Surf,
    a: Point<usize>,
    b: Point<usize>,
    sa: FaceShaderV,
    sb: FaceShaderV,
)
    requires
        s.wf(),
        a.x == b.x,
        a.y == b.y,
        (a.x as int) < s.width,
        (a.y as int) < s.height,
        -(FX_ONE as int) <= a.interpolated[0] as int <= FX_ONE as int,
        -(FX_ONE as int) <= b.interpolated[0] as int <= FX_ONE as int,
        (a.interpolated[0] as int) < s.depths[pixel_index_spec(s, a.x as int, a.y as int)],
        (b.interpolated[0] as int) < s.depths[pixel_index_spec(s, a.x as int, a.y as int)],
    ensures
        a.interpolated[0] < b.interpolated[0] ==> {
            let idx = pixel_index_spec(s, a.x as int, a.y as int);
            let cell = Option::Some(CellV { interpolated: a.interpolated@, shader: sa });
            &&& write_step(write_step(s, a, sa), b, sb).cells[idx] == cell
            &&& write_step(write_step(s, b, sb), a, sa).cells[idx] == cell
        },
        a.interpolated[0] == b.interpolated[0] ==> {
            let idx = pixel_index_spec(s, a.x as int, a.y as int);
            &&& write_step(write_step(s, a, sa), b, sb).cells[idx] == Option::Some(
                CellV { interpolated: a.interpolated@, shader: sa },
            )
            &&& write_step(write_step(s, b, sb), a, sa).cells[idx] == Option::Some(
                CellV { interpolated: b.interpolated@, shader: sb },
            )
        },
{
    let idx = pixel_index_spec(s, a.x as int, a.y as int);
    assert(0 <= idx && idx < s.height * s.width) by (nonlinear_arith)
        requires
            idx == (s.height - a.y - 1) * s.width + a.x,
            0 <= (a.x as int) < s.width,
            0 <= (a.y as int) < s.height,
    ;
    assert(s.height * s.width == s.width * s.height) by (nonlinear_arith);
}

/// Law: a line from payload `a` at the origin to payload `b` at column `n`
/// of the same row yields exactly `n + 1` evenly spaced samples: sample `0`
/// carries `a`, sample `n` carries `b`, and sample `i` of channel `k` is
/// `a[k] + (b[k] - a[k]) * i / n`, truncated toward zero — within half a
/// scalar step of the exact line.
pub proof fn lemma_line_interpolation_exact(a: Interpolated, b: Interpolated, n: usize)
    requires
        1 <= n <= COORD_LIMIT,
    ensures
        ({
            let p0 = Point { x: 0usize, y: 0usize, interpolated: a };
            let p1 = Point { x: n, y: 0usize, interpolated: b };
            let line = line_points_seq(p0, p1);
            &&& line.len() == n + 1
            &&& line[0].interpolated == a
            &&& line[n as int].interpolated == b
            &&& forall|i: int, k: int|
                0 <= i <= n && 0 <= k < VALUES_AMOUNT
                    ==> (#[trigger] line[i].interpolated[k]) as int == a[k] + crate::fixed::tdiv(
                    (b[k] - a[k]) * i,
                    n as int,
                )
        }),
{
    broadcast use vstd::array::group_array_axioms;

    let p0 = Point { x: 0usize, y: 0usize, interpolated: a };
    let p1 = Point { x: n, y: 0usize, interpolated: b };
    let values = combine_spec(a, b);
    let line = line_points_seq(p0, p1);
    assert(line == line_horizontal_seq(0, 0, n as int, values));
    assert forall|i: int, k: int| 0 <= i <= n && 0 <= k < VALUES_AMOUNT implies (
    #[trigger] line[i].interpolated[k]) as int == a[k] + crate::fixed::tdiv(
        (b[k] - a[k]) * i,
        n as int,
    ) by {
        assert(line[i].interpolated == sample_tuple(values, n as int, i));
        lemma_sample_tuple_exact(values, n as int, i);
        assert(values[k].lower == a[k] && values[k].upper == b[k]);
        assert(line[i].interpolated[k] as int == interp_at(a[k] as int, b[k] as int, n as int, i));
    }
    assert forall|k: int| 0 <= k < VALUES_AMOUNT implies line[0].interpolated[k] == a[k]
        && line[n as int].interpolated[k] == b[k] by {
        crate::common::lemma_interp_at_endpoints(a[k] as int, b[k] as int, n as int);
        lemma_sample_tuple_exact(values, n as int, 0);
        lemma_sample_tuple_exact(values, n as int, n as int);
        assert(line[0].interpolated == sample_tuple(values, n as int, 0));
        assert(line[n as int].interpolated == sample_tuple(values, n as int, n as int));
    }
    assert(line[0].interpolated =~= a);
    assert(line[n as int].interpolated =~= b);
}

} // verus!
