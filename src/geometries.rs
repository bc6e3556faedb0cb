use crate::model::Geometry;
use vstd::prelude::*;

verus! {

/// The spiral tiling of `count` windows in the rectangle (`left`, `top`, `width`, `height`):
/// the first window takes one half of the rectangle and the others are tiled in the other
/// half, at split index `i + 1`. The height is halved when `i` has the parity `vertical`,
/// the width otherwise; the first half gets the rounded-down half.
pub open spec fn bsp(
    i: int,
    count: nat,
    left: u32,
    top: u32,
    width: u32,
    height: u32,
    vertical: int,
) -> Seq<Geometry>
    decreases count,
{
    if count == 0 {
        seq![]
    } else if count == 1 {
        seq![Geometry(left, top, width, height)]
    } else if i % 2 == vertical {
        let h = height / 2;
        seq![Geometry(left, top, width, h)] + bsp(
            i + 1,
            (count - 1) as nat,
            left,
            (top + h) as u32,
            width,
            (height - h) as u32,
            vertical,
        )
    } else {
        let w = width / 2;
        seq![Geometry(left, top, w, height)] + bsp(
            i + 1,
            (count - 1) as nat,
            (left + w) as u32,
            top,
            (width - w) as u32,
            height,
            vertical,
        )
    }
}

/// The rectangle lies in the coordinate space of `u32`.
pub open spec fn fits(g: Geometry) -> bool {
    g.0 + g.2 <= u32::MAX && g.1 + g.3 <= u32::MAX
}

pub open spec fn area(g: Geometry) -> int {
    g.2 * g.3
}

pub open spec fn total_area(s: Seq<Geometry>) -> int
    decreases s.len(),
{
    if s.len() == 0 {
        0
    } else {
        area(s[0]) + total_area(s.drop_first())
    }
}

/// `g` lies within `outer`.
pub open spec fn inside(g: Geometry, outer: Geometry) -> bool {
    &&& outer.0 <= g.0
    &&& g.0 + g.2 <= outer.0 + outer.2
    &&& outer.1 <= g.1
    &&& g.1 + g.3 <= outer.1 + outer.3
}

/// The two rectangles share no area.
pub open spec fn disjoint(a: Geometry, b: Geometry) -> bool {
    ||| a.0 + a.2 <= b.0
    ||| b.0 + b.2 <= a.0
    ||| a.1 + a.3 <= b.1
    ||| b.1 + b.3 <= a.1
}

/// Tiling no window gives no rectangle; tiling one window gives the whole rectangle.
pub proof fn lemma_bsp_empty_and_single(
    i: int,
    left: u32,
    top: u32,
    width: u32,
    height: u32,
    vertical: int,
)
    ensures
        bsp(i, 0, left, top, width, height, vertical) == Seq::<Geometry>::empty(),
        bsp(i, 1, left, top, width, height, vertical) == seq![Geometry(left, top, width, height)],
{
}

/// The spiral tiling of `count` windows is a partition of the rectangle: it holds exactly
/// `count` rectangles, each inside the bounds and no two sharing any area, and when there is
/// at least one window their areas add up to the area of the bounds.
pub proof fn lemma_bsp_partition(
    i: int,
    count: nat,
    left: u32,
    top: u32,
    width: u32,
    height: u32,
    vertical: int,
)
    requires
        fits(Geometry(left, top, width, height)),
    ensures
        ({
            let s = bsp(i, count, left, top, width, height, vertical);
            let g = Geometry(left, top, width, height);
            &&& s.len() == count
            &&& forall|k: int| 0 <= k < s.len() ==> inside(#[trigger] s[k], g)
            &&& forall|a: int, b: int|
                0 <= a < b < s.len() ==> disjoint(#[trigger] s[a], #[trigger] s[b])
            &&& count >= 1 ==> total_area(s) == area(g)
        }),
    decreases count,
{
    let s = bsp(i, count, left, top, width, height, vertical);
    let g = Geometry(left, top, width, height);
    if count >= 2 {
        if i % 2 == vertical {
            let h = height / 2;
            let first = Geometry(left, top, width, h);
            let rest = bsp(i + 1, (count - 1) as nat, left, (top + h) as u32, width, (height - h) as u32, vertical);
            lemma_bsp_partition(i + 1, (count - 1) as nat, left, (top + h) as u32, width, (height - h) as u32, vertical);
            assert(s == seq![first] + rest);
            assert(s.drop_first() == rest);
            assert forall|k: int| 0 <= k < s.len() implies inside(#[trigger] s[k], g) by {
                if k > 0 {
                    assert(s[k] == rest[k - 1]);
                }
            }
            assert forall|a: int, b: int| 0 <= a < b < s.len() implies disjoint(#[trigger] s[a], #[trigger] s[b]) by {
                assert(s[b] == rest[b - 1]);
                if a > 0 {
                    assert(s[a] == rest[a - 1]);
                }
            }
            assert(width * h + width * (height - h) == width * height) by (nonlinear_arith);
            assert(s[0] == first);
            assert(total_area(s) == area(first) + total_area(rest));
        } else {
            let w = width / 2;
            let first = Geometry(left, top, w, height);
            let rest = bsp(i + 1, (count - 1) as nat, (left + w) as u32, top, (width - w) as u32, height, vertical);
            lemma_bsp_partition(i + 1, (count - 1) as nat, (left + w) as u32, top, (width - w) as u32, height, vertical);
            assert(s == seq![first] + rest);
            assert(s.drop_first() == rest);
            assert forall|k: int| 0 <= k < s.len() implies inside(#[trigger] s[k], g) by {
                if k > 0 {
                    assert(s[k] == rest[k - 1]);
                }
            }
            assert forall|a: int, b: int| 0 <= a < b < s.len() implies disjoint(#[trigger] s[a], #[trigger] s[b]) by {
                assert(s[b] == rest[b - 1]);
                if a > 0 {
                    assert(s[a] == rest[a - 1]);
                }
            }
            assert(w * height + (width - w) * height == width * height) by (nonlinear_arith);
            assert(s[0] == first);
            assert(total_area(s) == area(first) + total_area(rest));
        }
    } else if count == 1 {
        assert(s.drop_first() == Seq::<Geometry>::empty());
        assert(total_area(s.drop_first()) == 0);
        assert(total_area(s) == area(g));
    }
}

/// Tiles `window_count` windows in the rectangle with the spiral partition `bsp`, starting at
/// split index `i`.
pub fn geometries_bsp(
    i: usize,
    window_count: usize,
    left: u32,
    top: u32,
    width: u32,
    height: u32,
    vertical: usize,
) -> (r: Vec<Geometry>)
    requires
        i + window_count <= usize::MAX,
        left + width <= u32::MAX,
        top + height <= u32::MAX,
    ensures
        r@ == bsp(i as int, window_count as nat, left, top, width, height, vertical as int),
    decreases window_count,
{
    if window_count == 0 {
        vec![]
    } else if window_count == 1 {
        vec![Geometry(left, top, width, height)]
    } else if i % 2 == vertical {
        let quota_height = height / 2;
        let mut res = vec![Geometry(left, top, width, quota_height)];
        let mut rest = geometries_bsp(
            i + 1,
            window_count - 1,
            left,
            top + quota_height,
            width,
            height - quota_height,
            vertical,
        );
        res.append(&mut rest);
        res
    } else {
        let quota_width = width / 2;
        let mut res = vec![Geometry(left, top, quota_width, height)];
        let mut rest = geometries_bsp(
            i + 1,
            window_count - 1,
            left + quota_width,
            top,
            width - quota_width,
            height,
            vertical,
        );
        res.append(&mut rest);
        res
    }
}

} // verus!
