//! What the camera sees: the rectangle of cells under the viewport, and the
//! cells of one kind inside a rectangle.

use vstd::prelude::*;
use vstd::arithmetic::div_mod::{
    lemma_fundamental_div_mod, lemma_fundamental_div_mod_converse, lemma_mod_bound,
};
use crate::components::GridPosition;
use crate::constants::TILE_SIZE;
use crate::map::{cell_at, classify, Cell};

verus! {

/// The camera's rectangle in world pixels: its centre, and its width and height
/// after zooming.
#[derive(Clone, Copy, PartialEq, Eq, Debug, Structural)]
pub struct Viewport {
    pub center_x: i64,
    pub center_y: i64,
    pub width: u32,
    pub height: u32,
}

/// A rectangle of cells, both ends included on both axes. It is empty where a
/// low end lies above its high end.
#[derive(Clone, Copy, PartialEq, Eq, Debug, Structural)]
pub struct Region {
    pub min_x: i64,
    pub max_x: i64,
    pub min_y: i64,
    pub max_y: i64,
}

/// The cell that holds the low edge `center - extent / 2` of the viewport on
/// one axis, moved out by `margin` cells: the greatest `k` with
/// `(k + margin) * TILE_SIZE <= center - extent / 2`.
pub open spec fn low_cell(center: int, extent: int, margin: int) -> int {
    (2 * center - extent) / (2 * TILE_SIZE) - margin
}

/// The cell that ends at or after the high edge `center + extent / 2` of the
/// viewport on one axis, moved out by `margin` cells: the least `k` with
/// `center + extent / 2 <= (k - margin) * TILE_SIZE`.
pub open spec fn high_cell(center: int, extent: int, margin: int) -> int {
    -((-(2 * center + extent)) / (2 * TILE_SIZE)) + margin
}

impl Region {
    /// The cell `p` lies in the rectangle.
    pub open spec fn holds(self, p: GridPosition) -> bool {
        self.min_x <= p.x <= self.max_x && self.min_y <= p.y <= self.max_y
    }
}

impl Viewport {
    /// How far from the camera a bot may be, in world pixels: twice the
    /// greater side of the viewport.
    pub open spec fn despawn_limit(self) -> int {
        if self.width >= self.height {
            2 * self.width
        } else {
            2 * self.height
        }
    }

    /// The cell `p`, taken at its centre, lies farther from the camera than the
    /// despawn limit.
    pub open spec fn is_far(self, p: GridPosition) -> bool {
        apart(
            p.x * TILE_SIZE,
            p.y * TILE_SIZE,
            self.center_x as int,
            self.center_y as int,
            self.despawn_limit(),
        )
    }

    /// Whether the cell `p` lies farther from the camera than the despawn limit.
    pub fn far_from(&self, p: GridPosition) -> (r: bool)
        ensures
            r == self.is_far(p),
    {
        let side: u32 = if self.width >= self.height { self.width } else { self.height };
        let dx: i128 = to_pixels(p.x) - self.center_x as i128;
        let dy: i128 = to_pixels(p.y) - self.center_y as i128;
        beyond(dx, dy, 2 * (side as i128))
    }

    /// The cells under the viewport, `margin` cells more on every side.
    pub open spec fn region(self, margin: u8) -> Region {
        Region {
            min_x: low_cell(self.center_x as int, self.width as int, margin as int) as i64,
            max_x: high_cell(self.center_x as int, self.width as int, margin as int) as i64,
            min_y: low_cell(self.center_y as int, self.height as int, margin as int) as i64,
            max_y: high_cell(self.center_y as int, self.height as int, margin as int) as i64,
        }
    }
}

/// The points `(ax, ay)` and `(bx, by)` lie farther than `limit` from each other.
pub open spec fn apart(ax: int, ay: int, bx: int, by: int, limit: int) -> bool {
    (ax - bx) * (ax - bx) + (ay - by) * (ay - by) > limit * limit
}

/// Where the centre of the cells with coordinate `v` lies on that axis, in
/// world pixels.
pub fn to_pixels(v: i64) -> (r: i128)
    ensures
        r == v * TILE_SIZE,
{
    let tile: i128 = TILE_SIZE as i128;
    assert(tile == 40);
    (v as i128) * tile
}

/// Whether the point `(dx, dy)` lies farther than `limit` from the origin.
pub(crate) fn beyond(dx: i128, dy: i128, limit: i128) -> (r: bool)
    requires
        0 <= limit <= 0x2_0000_0000,
        -0x1_0000_0000_0000_0000_0000 <= dx <= 0x1_0000_0000_0000_0000_0000,
        -0x1_0000_0000_0000_0000_0000 <= dy <= 0x1_0000_0000_0000_0000_0000,
    ensures
        r == apart(dx as int, dy as int, 0, 0, limit as int),
{
    let ax: i128 = if dx < 0 { -dx } else { dx };
    let ay: i128 = if dy < 0 { -dy } else { dy };
    proof {
        assert(ax * ax == dx * dx) by (nonlinear_arith)
            requires
                ax == dx || ax == -dx,
        ;
        assert(ay * ay == dy * dy) by (nonlinear_arith)
            requires
                ay == dy || ay == -dy,
        ;
        assert(0 <= ax * ax && 0 <= ay * ay) by (nonlinear_arith);
    }
    if ax > limit {
        assert(ax * ax > limit * limit) by (nonlinear_arith)
            requires
                ax > limit >= 0,
        ;
        true
    } else if ay > limit {
        assert(ay * ay > limit * limit) by (nonlinear_arith)
            requires
                ay > limit >= 0,
        ;
        true
    } else {
        proof {
            assert(ax * ax <= 0x2_0000_0000 * 0x2_0000_0000) by (nonlinear_arith)
                requires
                    0 <= ax <= 0x2_0000_0000,
            ;
            assert(ay * ay <= 0x2_0000_0000 * 0x2_0000_0000) by (nonlinear_arith)
                requires
                    0 <= ay <= 0x2_0000_0000,
            ;
            assert(limit * limit <= 0x2_0000_0000 * 0x2_0000_0000) by (nonlinear_arith)
                requires
                    0 <= limit <= 0x2_0000_0000,
            ;
        }
        ax * ax + ay * ay > limit * limit
    }
}

/// `a / d` rounded toward minus infinity.
fn div_floor(a: i128, d: i128) -> (q: i128)
    requires
        0 < d <= 0x1000,
        -0x4000_0000_0000_0000_0000 <= a <= 0x4000_0000_0000_0000_0000,
    ensures
        q == a as int / d as int,
        d * q <= a < d * q + d,
{
    proof {
        lemma_fundamental_div_mod(a as int, d as int);
        lemma_mod_bound(a as int, d as int);
    }
    if a >= 0 {
        a / d
    } else {
        let n: i128 = -a;
        let up: i128 = (n + d - 1) / d;
        proof {
            let r = (n + d - 1) % (d as int);
            lemma_fundamental_div_mod(n + d - 1, d as int);
            assert(d * up + r == n + d - 1);
            assert(a == d * (-up) + (d - 1 - r)) by (nonlinear_arith)
                requires
                    d * up + r == n + d - 1,
                    a == -n,
            ;
            lemma_fundamental_div_mod_converse(a as int, d as int, -up as int, d - 1 - r);
        }
        -up
    }
}

fn low_edge(center: i64, extent: u32, margin: u8) -> (k: i64)
    ensures
        k == low_cell(center as int, extent as int, margin as int),
{
    let a: i128 = 2 * (center as i128) - (extent as i128);
    let q: i128 = div_floor(a, 2 * (TILE_SIZE as i128));
    assert(80 * q <= a < 80 * q + 80);
    (q - margin as i128) as i64
}

fn high_edge(center: i64, extent: u32, margin: u8) -> (k: i64)
    ensures
        k == high_cell(center as int, extent as int, margin as int),
{
    let a: i128 = -(2 * (center as i128) + (extent as i128));
    let q: i128 = div_floor(a, 2 * (TILE_SIZE as i128));
    assert(80 * q <= a < 80 * q + 80);
    (-q + margin as i128) as i64
}

/// The rectangle of cells under the viewport, `margin` cells more on every
/// side: low edges are rounded down and high edges up, so a cell that is only
/// partly under the viewport is inside.
pub fn visible_region(view: &Viewport, margin: u8) -> (r: Region)
    ensures
        r == view.region(margin),
        r.min_x <= r.max_x,
        r.min_y <= r.max_y,
{
    proof {
        lemma_edge_bounds(view.center_x as int, view.width as int, margin as int);
        lemma_edge_bounds(view.center_y as int, view.height as int, margin as int);
    }
    Region {
        min_x: low_edge(view.center_x, view.width, margin),
        max_x: high_edge(view.center_x, view.width, margin),
        min_y: low_edge(view.center_y, view.height, margin),
        max_y: high_edge(view.center_y, view.height, margin),
    }
}

/// The edge cells of one axis, with the doubled side of a cell written out.
pub(crate) proof fn lemma_edge_bounds(center: int, extent: int, margin: int)
    ensures
        80 * (low_cell(center, extent, margin) + margin) <= 2 * center - extent,
        2 * center - extent < 80 * (low_cell(center, extent, margin) + margin) + 80,
        80 * (high_cell(center, extent, margin) - margin) - 80 < 2 * center + extent,
        2 * center + extent <= 80 * (high_cell(center, extent, margin) - margin),
{
    assert(2 * TILE_SIZE == 80);
    lemma_fundamental_div_mod(2 * center - extent, 80);
    lemma_mod_bound(2 * center - extent, 80);
    lemma_fundamental_div_mod(-(2 * center + extent), 80);
    lemma_mod_bound(-(2 * center + extent), 80);
}

/// The low cell is the last whose start is at or before the low edge, the high
/// cell the first whose start is at or after the high edge (all doubled, so
/// that half pixels are whole).
pub proof fn lemma_edges(center: int, extent: int, margin: int)
    requires
        0 <= extent,
        0 <= margin,
    ensures
        2 * TILE_SIZE * (low_cell(center, extent, margin) + margin) <= 2 * center - extent,
        2 * center - extent < 2 * TILE_SIZE * (low_cell(center, extent, margin) + margin + 1),
        2 * TILE_SIZE * (high_cell(center, extent, margin) - margin - 1) < 2 * center + extent,
        2 * center + extent <= 2 * TILE_SIZE * (high_cell(center, extent, margin) - margin),
        low_cell(center, extent, margin) <= high_cell(center, extent, margin),
{
    lemma_edge_bounds(center, extent, margin);
    assert(2 * TILE_SIZE == 80);
}

/// Every cell of which a part lies under the viewport is in its region,
/// whatever the margin. (The square of a cell is centred on the cell's
/// coordinate times `TILE_SIZE`; all is doubled, so that half pixels are whole.)
pub proof fn lemma_region_covers_view(view: Viewport, margin: u8, p: GridPosition)
    requires
        2 * view.center_x - view.width <= 2 * TILE_SIZE * p.x + TILE_SIZE,
        2 * TILE_SIZE * p.x - TILE_SIZE <= 2 * view.center_x + view.width,
        2 * view.center_y - view.height <= 2 * TILE_SIZE * p.y + TILE_SIZE,
        2 * TILE_SIZE * p.y - TILE_SIZE <= 2 * view.center_y + view.height,
    ensures
        view.region(margin).holds(p),
{
    lemma_edge_bounds(view.center_x as int, view.width as int, margin as int);
    lemma_edge_bounds(view.center_y as int, view.height as int, margin as int);
    assert(2 * TILE_SIZE * p.x == 80 * p.x && 2 * TILE_SIZE * p.y == 80 * p.y);
}

/// `a` comes before `b` when cells are read column by column, each column
/// from its low end.
pub open spec fn precedes(a: GridPosition, b: GridPosition) -> bool {
    a.x < b.x || (a.x == b.x && a.y < b.y)
}

/// Each cell of `s` comes before those after it; so none occurs twice.
pub open spec fn ascending(s: Seq<GridPosition>) -> bool {
    forall|i: int, j: int| 0 <= i < j < s.len() ==> precedes(s[i], s[j])
}

/// The cell `p` lies in `region`, holds `kind`, and is not among `taken`.
pub open spec fn wanted(region: Region, kind: Cell, taken: Seq<GridPosition>, p: GridPosition) -> bool {
    region.holds(p) && cell_at(p.x as int, p.y as int) == kind && !taken.contains(p)
}

/// `s` lists, in reading order and once each, exactly the cells of `region`
/// that hold `kind` and are not among `taken`.
pub open spec fn is_selection(
    s: Seq<GridPosition>,
    region: Region,
    kind: Cell,
    taken: Seq<GridPosition>,
) -> bool {
    &&& ascending(s)
    &&& forall|p: GridPosition| #[trigger] s.contains(p) <==> wanted(region, kind, taken, p)
}

proof fn lemma_same_prefix(a: Seq<GridPosition>, b: Seq<GridPosition>, n: int)
    requires
        ascending(a),
        ascending(b),
        forall|p: GridPosition| #[trigger] a.contains(p) <==> b.contains(p),
        0 <= n <= a.len(),
    ensures
        n <= b.len(),
        forall|k: int| 0 <= k < n ==> a[k] == b[k],
    decreases n,
{
    if n > 0 {
        lemma_same_prefix(a, b, n - 1);
        let i = n - 1;
        assert(a.contains(a[i]));
        assert(b.contains(a[i]));
        let j = choose|j: int| 0 <= j < b.len() && b[j] == a[i];
        if j < i {
            assert(precedes(a[j], a[i]));
        } else if j > i {
            assert(b.contains(b[i]));
            assert(a.contains(b[i]));
            let k = choose|k: int| 0 <= k < a.len() && a[k] == b[i];
            assert(precedes(b[i], b[j]));
            if k < i {
                assert(precedes(b[k], b[i]));
            } else if k > i {
                assert(precedes(a[i], a[k]));
            }
        }
    }
}

/// Only one list is the selection of a region: the order and the cells decide it.
pub proof fn lemma_selection_is_unique(
    a: Seq<GridPosition>,
    b: Seq<GridPosition>,
    region: Region,
    kind: Cell,
    taken: Seq<GridPosition>,
)
    requires
        is_selection(a, region, kind, taken),
        is_selection(b, region, kind, taken),
    ensures
        a == b,
{
    lemma_same_prefix(a, b, a.len() as int);
    lemma_same_prefix(b, a, b.len() as int);
    assert(a =~= b);
}

/// Whether `p` is among `cells`.
pub fn occupied(cells: &Vec<GridPosition>, p: GridPosition) -> (r: bool)
    ensures
        r == cells@.contains(p),
{
    let mut i: usize = 0;
    while i < cells.len()
        invariant
            i <= cells.len(),
            forall|k: int| 0 <= k < i ==> cells@[k] != p,
        decreases cells.len() - i,
    {
        if cells[i].x == p.x && cells[i].y == p.y {
            assert(cells@[i as int] == p);
            return true;
        }
        i += 1;
    }
    false
}

/// The cells of `region` that hold `kind` and are not among `taken`, in
/// reading order.
pub fn select_cells(region: &Region, kind: Cell, taken: &Vec<GridPosition>) -> (out: Vec<GridPosition>)
    ensures
        is_selection(out@, *region, kind, taken@),
{
    let mut out: Vec<GridPosition> = Vec::new();
    let mut x: i128 = region.min_x as i128;
    while x <= region.max_x as i128
        invariant
            region.min_x <= x,
            x <= region.max_x + 1 || x == region.min_x,
            ascending(out@),
            forall|p: GridPosition| #[trigger]
                out@.contains(p) <==> wanted(*region, kind, taken@, p) && p.x < x,
        decreases region.max_x + 1 - x,
    {
        let mut y: i128 = region.min_y as i128;
        while y <= region.max_y as i128
            invariant
                region.min_x <= x <= region.max_x,
                region.min_y <= y,
                y <= region.max_y + 1 || y == region.min_y,
                ascending(out@),
                forall|p: GridPosition| #[trigger]
                    out@.contains(p) <==> wanted(*region, kind, taken@, p) && (p.x < x || (p.x == x
                        && p.y < y)),
            decreases region.max_y + 1 - y,
        {
            let p = GridPosition { x: x as i64, y: y as i64 };
            if classify(p.x, p.y) == kind && !occupied(taken, p) {
                proof {
                    let before = out@;
                    let after = before.push(p);
                    assert forall|i: int, j: int| 0 <= i < j < after.len() implies precedes(
                        after[i],
                        after[j],
                    ) by {
                        if j == before.len() {
                            assert(before.contains(before[i]));
                        }
                    }
                    assert forall|q: GridPosition| #[trigger]
                        after.contains(q) <==> wanted(*region, kind, taken@, q) && (q.x < x || (q.x
                            == x && q.y < y + 1)) by {
                        if after.contains(q) {
                            let i = choose|i: int| 0 <= i < after.len() && after[i] == q;
                            if i < before.len() {
                                assert(before.contains(before[i]));
                            }
                        }
                        if wanted(*region, kind, taken@, q) && (q.x < x || (q.x == x && q.y < y
                            + 1)) {
                            if q == p {
                                assert(after[before.len() as int] == q);
                            } else {
                                assert(before.contains(q));
                                let i = choose|i: int| 0 <= i < before.len() && before[i] == q;
                                assert(after[i] == q);
                            }
                        }
                    }
                }
                out.push(p);
            }
            y += 1;
        }
        x += 1;
    }
    out
}

} // verus!
