//! Inclusive grid enumeration: every cell of the rectangle between two
//! corner coordinates, in row-major order (x outer, y inner), each with
//! its composed URL.

use vstd::prelude::*;
use vstd::arithmetic::div_mod::lemma_fundamental_div_mod_converse;
use crate::ident::{PointFormat, FileFormat, AreaCode, CoordinateSystem, Coordinate};
use crate::link::{Link, url_of};

verus! {

/// Number of columns of the inclusive rectangle; zero when the corners
/// are swapped.
pub open spec fn grid_w(first: Coordinate, second: Coordinate) -> int {
    if first.x <= second.x {
        second.x - first.x + 1
    } else {
        0
    }
}

/// Number of rows of the inclusive rectangle; zero when the corners are
/// swapped.
pub open spec fn grid_h(first: Coordinate, second: Coordinate) -> int {
    if first.y <= second.y {
        second.y - first.y + 1
    } else {
        0
    }
}

/// Number of cells of the inclusive rectangle.
pub open spec fn grid_count(first: Coordinate, second: Coordinate) -> int {
    grid_w(first, second) * grid_h(first, second)
}

/// The link at position `k` of the row-major enumeration: cell
/// `(first.x + k / h, first.y + k % h)`, with its canonical URL and the
/// shared identifier parts.
pub open spec fn grid_link_at(
    l: Link,
    pf: PointFormat,
    ff: FileFormat,
    area: AreaCode,
    cs: CoordinateSystem,
    first: Coordinate,
    second: Coordinate,
    k: int,
) -> bool {
    let h = grid_h(first, second);
    &&& l.point_format == pf
    &&& l.file_format == ff
    &&& l.area_code == area
    &&& l.coordinate_system == cs
    &&& l.coordinate.x as int == first.x + k / h
    &&& l.coordinate.y as int == first.y + k % h
    &&& l.url@ == url_of(pf, ff, area, cs, l.coordinate.x, l.coordinate.y)
}

/// Law: the enumeration of the inclusive rectangle yields exactly
/// `(second.x - first.x + 1) * (second.y - first.y + 1)` links (none when
/// the corners are swapped), in row-major order with x outer and y inner.
pub fn enumerate_links(
    pf: &PointFormat,
    ff: &FileFormat,
    area: &AreaCode,
    cs: &CoordinateSystem,
    first: &Coordinate,
    second: &Coordinate,
) -> (r: Vec<Link>)
    requires
        grid_count(*first, *second) <= usize::MAX as int,
    ensures
        r@.len() == grid_count(*first, *second),
        forall|k: int|
            0 <= k < r@.len() ==> grid_link_at(r@[k], *pf, *ff, *area, *cs, *first, *second, k),
{
    let mut out: Vec<Link> = Vec::new();
    if second.x < first.x || second.y < first.y {
        assert(grid_count(*first, *second) == 0) by {
            assert(grid_w(*first, *second) == 0 || grid_h(*first, *second) == 0);
        }
        return out;
    }
    let ghost gw: int = grid_w(*first, *second);
    let ghost gh: int = grid_h(*first, *second);
    assert(gw >= 1 && gh >= 1);
    assert(gw <= gw * gh && gh <= gw * gh) by (nonlinear_arith)
        requires gw >= 1, gh >= 1,
    ;
    let w: u64 = second.x - first.x + 1;
    let h: u64 = second.y - first.y + 1;
    let mut i: u64 = 0;
    while i < w
        invariant
            gw == grid_w(*first, *second),
            gh == grid_h(*first, *second),
            w == gw,
            h == gh,
            gw * gh <= usize::MAX as int,
            first.x <= second.x,
            first.y <= second.y,
            i <= w,
            out@.len() == i * gh,
            forall|k: int|
                0 <= k < out@.len() ==> grid_link_at(
                    out@[k],
                    *pf,
                    *ff,
                    *area,
                    *cs,
                    *first,
                    *second,
                    k,
                ),
        decreases w - i,
    {
        let x: u64 = first.x + i;
        let mut j: u64 = 0;
        while j < h
            invariant
                gw == grid_w(*first, *second),
                gh == grid_h(*first, *second),
                w == gw,
                h == gh,
                gw * gh <= usize::MAX as int,
                first.x <= second.x,
                first.y <= second.y,
                i < w,
                x == first.x + i,
                j <= h,
                out@.len() == i * gh + j,
                forall|k: int|
                    0 <= k < out@.len() ==> grid_link_at(
                        out@[k],
                        *pf,
                        *ff,
                        *area,
                        *cs,
                        *first,
                        *second,
                        k,
                    ),
            decreases h - j,
        {
            let y: u64 = first.y + j;
            proof {
                assert(i * gh + j < gw * gh) by (nonlinear_arith)
                    requires 0 <= i < gw, 0 <= j < gh,
                ;
            }
            let link = Link::new(pf, ff, area, cs, Coordinate { x, y });
            out.push(link);
            proof {
                let k: int = i * gh + j;
                lemma_fundamental_div_mod_converse(k, gh, i as int, j as int);
                assert(k / gh == i && k % gh == j);
            }
            j += 1;
        }
        proof {
            assert(i * gh + gh == (i + 1) * gh) by (nonlinear_arith);
        }
        i += 1;
    }
    assert(out@.len() == gw * gh);
    out
}

} // verus!
