//! The tile grid of a view box, per-tile coverage of an object's pixel mask, and
//! the tiler that turns one object into tile entries.
use crate::geometry::{outline_view, Outline, Point, Rect};
use crate::paint::ShaderId;
use crate::raster::{mask_has, pixel_count, view_fits};
use crate::z_buffer::ZBuffer;
use vstd::arithmetic::div_mod::{
    lemma_fundamental_div_mod, lemma_hoist_over_denominator, lemma_mod_pos_bound,
    lemma_multiply_divide_lt,
};
use vstd::prelude::*;

verus! {

/// The tiles that cover a view box, in tile coordinates (`max` exclusive); the
/// all-zero rectangle for an empty view box. A tile is 16 pixels square: the
/// tile `(tx, ty)` holds the pixels `[16*tx, 16*tx + 16) x [16*ty, 16*ty + 16)`.
pub open spec fn tile_grid(vb: Rect) -> Rect {
    if vb.is_empty_spec() {
        Rect { min_x: 0, min_y: 0, max_x: 0, max_y: 0 }
    } else {
        Rect {
            min_x: (vb.min_x / 16) as i32,
            min_y: (vb.min_y / 16) as i32,
            max_x: ((vb.max_x + 15) / 16) as i32,
            max_y: ((vb.max_y + 15) / 16) as i32,
        }
    }
}

pub open spec fn grid_width(g: Rect) -> int {
    g.max_x - g.min_x
}

pub open spec fn grid_height(g: Rect) -> int {
    g.max_y - g.min_y
}

pub open spec fn grid_len(g: Rect) -> int {
    grid_width(g) * grid_height(g)
}

/// Tile coordinates of the `k`-th tile of the grid, in row-major order.
pub open spec fn grid_tile_x(g: Rect, k: int) -> int {
    g.min_x + k % grid_width(g)
}

pub open spec fn grid_tile_y(g: Rect, k: int) -> int {
    g.min_y + k / grid_width(g)
}

/// A grid of a view box whose tiles a `u32` can number.
pub open spec fn grid_fits(vb: Rect) -> bool {
    grid_len(tile_grid(vb)) <= u32::MAX
}

proof fn lemma_floor_tile(v: int)
    ensures
        (v + 0x8000_0000) / 16 == v / 16 + 0x800_0000,
{
    lemma_hoist_over_denominator(v, 0x800_0000, 16);
}

/// Index of the tile that holds pixel coordinate `v`.
fn floor_tile(v: i64) -> (r: i32)
    requires
        -0x8000_0000 <= v <= 0x8000_000e,
    ensures
        r == v / 16,
{
    proof {
        lemma_floor_tile(v as int);
    }
    let shifted = (v + 0x8000_0000) as u64;
    (shifted / 16) as i32 - 0x800_0000
}

pub fn tile_grid_of(vb: &Rect) -> (r: Rect)
    ensures
        r == tile_grid(*vb),
        0 <= grid_width(r) <= 0x1000_0000,
        0 <= grid_height(r) <= 0x1000_0000,
{
    if vb.is_empty() {
        Rect { min_x: 0, min_y: 0, max_x: 0, max_y: 0 }
    } else {
        proof {
            vstd::arithmetic::div_mod::lemma_div_is_ordered(vb.min_x as int, vb.max_x + 15, 16);
            vstd::arithmetic::div_mod::lemma_div_is_ordered(vb.min_y as int, vb.max_y + 15, 16);
            lemma_floor_tile(vb.min_x as int);
            lemma_floor_tile(vb.max_x + 15);
            lemma_floor_tile(vb.min_y as int);
            lemma_floor_tile(vb.max_y + 15);
        }
        Rect {
            min_x: floor_tile(vb.min_x as i64),
            min_y: floor_tile(vb.min_y as i64),
            max_x: floor_tile(vb.max_x as i64 + 15),
            max_y: floor_tile(vb.max_y as i64 + 15),
        }
    }
}

/// The `k`-th tile of a grid lies inside it.
pub proof fn lemma_grid_tile_in_grid(g: Rect, k: int)
    requires
        0 <= k < grid_len(g),
        grid_width(g) > 0,
    ensures
        g.min_x <= grid_tile_x(g, k) < g.max_x,
        g.min_y <= grid_tile_y(g, k) < g.max_y,
        (grid_tile_y(g, k) - g.min_y) * grid_width(g) + (grid_tile_x(g, k) - g.min_x) == k,
{
    lemma_mod_pos_bound(k, grid_width(g));
    vstd::arithmetic::div_mod::lemma_div_pos_is_pos(k, grid_width(g));
    assert(grid_height(g) * grid_width(g) == grid_len(g)) by (nonlinear_arith);
    lemma_multiply_divide_lt(k, grid_width(g), grid_height(g));
    lemma_fundamental_div_mod(k, grid_width(g));
    assert((k / grid_width(g)) * grid_width(g) == grid_width(g) * (k / grid_width(g)))
        by (nonlinear_arith);
}

/// How much of a tile an object covers.
#[derive(Clone, Copy, Debug, PartialEq, Eq, Structural)]
pub enum TileCoverage {
    Empty,
    Partial,
    Full,
}

/// The point after `c[i]` along the closed contour `c`.
pub open spec fn next_point(c: Seq<Point>, i: int) -> Point {
    if i + 1 < c.len() {
        c[i + 1]
    } else {
        c[0]
    }
}

/// The edge `a -> b` crosses the ray that leaves the sample point
/// `(sx / 2, sy / 2)` towards `+x`. Coordinates are doubled so that a sample
/// at a pixel centre (odd doubled coordinates) never lies on a vertex's row.
/// An edge of zero length crosses nothing.
pub open spec fn crosses(a: Point, b: Point, sx: int, sy: int) -> bool {
    let (ax, ay, bx, by) = (2 * a.x, 2 * a.y, 2 * b.x, 2 * b.y);
    &&& (ay > sy) != (by > sy)
    &&& if by > ay {
        (sx - ax) * (by - ay) < (sy - ay) * (bx - ax)
    } else {
        (sx - ax) * (by - ay) > (sy - ay) * (bx - ax)
    }
}

/// Parity of the number of edges among the first `k` of the contour that
/// cross the ray from the sample point.
pub open spec fn contour_parity(c: Seq<Point>, sx: int, sy: int, k: int) -> bool
    decreases k,
{
    if k <= 0 {
        false
    } else {
        contour_parity(c, sx, sy, k - 1) != crosses(c[k - 1], next_point(c, k - 1), sx, sy)
    }
}

/// Parity of the crossings of the first `m` contours of the outline.
pub open spec fn outline_parity(o: Seq<Seq<Point>>, sx: int, sy: int, m: int) -> bool
    decreases m,
{
    if m <= 0 {
        false
    } else {
        outline_parity(o, sx, sy, m - 1) != contour_parity(o[m - 1], sx, sy, o[m - 1].len() as int)
    }
}

/// The centre of pixel `(px, py)` lies inside the outline, by the even-odd rule.
pub open spec fn inside(o: Seq<Seq<Point>>, px: int, py: int) -> bool {
    outline_parity(o, 2 * px + 1, 2 * py + 1, o.len() as int)
}

/// The pixel `(px, py)` belongs to the view box.
pub open spec fn in_view(vb: Rect, px: int, py: int) -> bool {
    vb.min_x <= px < vb.max_x && vb.min_y <= py < vb.max_y
}

/// The `j`-th pixel (`0 <= j < 256`, row-major) of the tile `(tx, ty)`.
pub open spec fn tile_px(tx: int, j: int) -> int {
    16 * tx + j % 16
}

pub open spec fn tile_py(ty: int, j: int) -> int {
    16 * ty + j / 16
}

/// The `j`-th pixel of the tile is held by the mask (so it is visible).
pub open spec fn pixel_covered(o: Seq<bool>, vb: Rect, tx: int, ty: int, j: int) -> bool {
    mask_has(o, vb, tile_px(tx, j), tile_py(ty, j))
}

/// The `j`-th pixel of the tile is held by the mask, or not visible.
pub open spec fn pixel_filled(o: Seq<bool>, vb: Rect, tx: int, ty: int, j: int) -> bool {
    in_view(vb, tile_px(tx, j), tile_py(ty, j)) ==> mask_has(o, vb, tile_px(tx, j), tile_py(ty, j))
}

/// Coverage of a tile by a clipped (and perhaps dilated) outline, held as a
/// mask of view-box pixels: empty where the mask holds no pixel of the tile,
/// full where it holds every visible one, partial otherwise.
pub open spec fn coverage(o: Seq<bool>, vb: Rect, tx: int, ty: int) -> TileCoverage {
    if !exists|j: int| 0 <= j < 256 && #[trigger] pixel_covered(o, vb, tx, ty, j) {
        TileCoverage::Empty
    } else if forall|j: int| 0 <= j < 256 ==> #[trigger] pixel_filled(o, vb, tx, ty, j) {
        TileCoverage::Full
    } else {
        TileCoverage::Partial
    }
}

/// One tile that an object shows on.
#[derive(Clone, Copy, Debug, PartialEq, Eq)]
pub struct TileEntry {
    pub tile_x: i32,
    pub tile_y: i32,
    pub coverage: TileCoverage,
}

/// The tiled form of one scene object.
#[derive(Clone, Debug, PartialEq, Eq)]
pub struct BuiltObject {
    pub object_index: u16,
    pub shader: ShaderId,
    pub tiles: Vec<TileEntry>,
}

/// Builds the tiles of one object.
pub struct Tiler {
    /// The object's outline after the transform stage, as a mask of the
    /// view box's pixels.
    pub mask: Vec<bool>,
    pub view_box: Rect,
    pub object_index: u16,
    pub shader: ShaderId,
    /// Whether the object hides what lies behind the tiles it covers fully.
    pub occludes: bool,
}

/// What the `k`-th tile of the grid of `vb` gets in the z-buffer from the
/// object `index`, whose outline is `o`.
pub open spec fn tiler_depth(o: Seq<bool>, vb: Rect, index: int, occludes: bool, k: int) -> int {
    let g = tile_grid(vb);
    if occludes && coverage(o, vb, grid_tile_x(g, k), grid_tile_y(g, k)) == TileCoverage::Full {
        index + 1
    } else {
        0
    }
}

/// The z-buffer after that object has recorded its fully covered tiles: each
/// tile keeps the greater of its old value and the object's.
pub open spec fn z_after(
    o: Seq<bool>,
    vb: Rect,
    index: int,
    occludes: bool,
    d: Seq<u32>,
) -> Seq<u32> {
    Seq::new(
        d.len(),
        |k: int|
            if tiler_depth(o, vb, index, occludes, k) > d[k] {
                tiler_depth(o, vb, index, occludes, k) as u32
            } else {
                d[k]
            },
    )
}

/// The entries of the first `n` tiles of the grid that the object `index`
/// covers and that no later occluding object hides, per the depths `d`.
pub open spec fn visible_tiles(
    o: Seq<bool>,
    vb: Rect,
    index: int,
    d: Seq<u32>,
    n: int,
) -> Seq<TileEntry>
    decreases n,
{
    if n <= 0 {
        Seq::empty()
    } else {
        let prev = visible_tiles(o, vb, index, d, n - 1);
        let g = tile_grid(vb);
        let k = n - 1;
        let c = coverage(o, vb, grid_tile_x(g, k), grid_tile_y(g, k));
        if c != TileCoverage::Empty && d[k] <= index + 1 {
            prev.push(
                TileEntry {
                    tile_x: grid_tile_x(g, k) as i32,
                    tile_y: grid_tile_y(g, k) as i32,
                    coverage: c,
                },
            )
        } else {
            prev
        }
    }
}

fn crosses_exec(a: Point, b: Point, sx: i64, sy: i64) -> (r: bool)
    requires
        -0x40_0000_0000 <= sx <= 0x40_0000_0000,
        -0x40_0000_0000 <= sy <= 0x40_0000_0000,
    ensures
        r == crosses(a, b, sx as int, sy as int),
{
    let ay = 2 * (a.y as i64);
    let by = 2 * (b.y as i64);
    if (ay > sy) == (by > sy) {
        return false;
    }
    let ax = 2 * (a.x as i64);
    let bx = 2 * (b.x as i64);
    let (dx, ey, dy, ex) = (sx - ax, by - ay, sy - ay, bx - ax);
    assert(-0x4000_0000_0000_0000_0000 <= dx * ey <= 0x4000_0000_0000_0000_0000) by (nonlinear_arith)
        requires
            -0x80_0000_0000 <= dx <= 0x80_0000_0000,
            -0x80_0000_0000 <= ey <= 0x80_0000_0000,
    ;
    assert(-0x4000_0000_0000_0000_0000 <= dy * ex <= 0x4000_0000_0000_0000_0000) by (nonlinear_arith)
        requires
            -0x80_0000_0000 <= dy <= 0x80_0000_0000,
            -0x80_0000_0000 <= ex <= 0x80_0000_0000,
    ;
    let lhs = (dx as i128) * (ey as i128);
    let rhs = (dy as i128) * (ex as i128);
    if by > ay {
        lhs < rhs
    } else {
        lhs > rhs
    }
}

fn contour_parity_exec(c: &Vec<Point>, sx: i64, sy: i64) -> (r: bool)
    requires
        -0x40_0000_0000 <= sx <= 0x40_0000_0000,
        -0x40_0000_0000 <= sy <= 0x40_0000_0000,
    ensures
        r == contour_parity(c@, sx as int, sy as int, c@.len() as int),
{
    let n = c.len();
    let mut parity = false;
    let mut k: usize = 0;
    while k < n
        invariant
            k <= n,
            n == c@.len(),
            -0x40_0000_0000 <= sx <= 0x40_0000_0000,
            -0x40_0000_0000 <= sy <= 0x40_0000_0000,
            parity == contour_parity(c@, sx as int, sy as int, k as int),
        decreases n - k,
    {
        let b = if k + 1 < n {
            c[k + 1]
        } else {
            c[0]
        };
        parity = parity != crosses_exec(c[k], b, sx, sy);
        k = k + 1;
    }
    parity
}

/// Whether the centre of pixel `(px, py)` lies inside the outline.
pub fn inside_exec(o: &Outline, px: i64, py: i64) -> (r: bool)
    requires
        -0x10_0000_0000 <= px <= 0x10_0000_0000,
        -0x10_0000_0000 <= py <= 0x10_0000_0000,
    ensures
        r == inside(outline_view(*o), px as int, py as int),
{
    let ghost ov = outline_view(*o);
    let (sx, sy) = (2 * px + 1, 2 * py + 1);
    let mut parity = false;
    let mut m: usize = 0;
    while m < o.contours.len()
        invariant
            m <= o.contours@.len(),
            ov == outline_view(*o),
            sx == 2 * px + 1,
            sy == 2 * py + 1,
            -0x10_0000_0000 <= px <= 0x10_0000_0000,
            -0x10_0000_0000 <= py <= 0x10_0000_0000,
            parity == outline_parity(ov, sx as int, sy as int, m as int),
        decreases o.contours@.len() - m,
    {
        let p = contour_parity_exec(&o.contours[m].points, sx, sy);
        assert(ov[m as int] == o.contours@[m as int].points@);
        parity = parity != p;
        m = m + 1;
    }
    parity
}

fn in_view_exec(vb: &Rect, px: i64, py: i64) -> (r: bool)
    ensures
        r == in_view(*vb, px as int, py as int),
{
    vb.min_x as i64 <= px && px < vb.max_x as i64 && vb.min_y as i64 <= py && py < vb.max_y as i64
}

impl Tiler {
    pub open spec fn wf(&self) -> bool {
        &&& view_fits(self.view_box)
        &&& self.mask@.len() == pixel_count(self.view_box)
    }

    pub fn new(
        mask: Vec<bool>,
        view_box: Rect,
        object_index: u16,
        shader: ShaderId,
        occludes: bool,
    ) -> (r: Tiler)
        ensures
            r.mask == mask,
            r.view_box == view_box,
            r.object_index == object_index,
            r.shader == shader,
            r.occludes == occludes,
    {
        Tiler { mask, view_box, object_index, shader, occludes }
    }

    /// Coverage of the tile `(tile_x, tile_y)` by this object. A full tile
    /// has each of its pixels in the view box held by the mask.
    pub fn coverage_at(&self, tile_x: i32, tile_y: i32) -> (r: TileCoverage)
        requires
            self.wf(),
        ensures
            r == coverage(self.mask@, self.view_box, tile_x as int, tile_y as int),
            r == TileCoverage::Full ==> forall|j: int|
                0 <= j < 256 && in_view(self.view_box, tile_px(tile_x as int, j), tile_py(tile_y as int, j))
                    ==> mask_has(self.mask@, self.view_box, tile_px(tile_x as int, j), tile_py(tile_y as int, j)),
    {
        let ghost o = self.mask@;
        let ghost vb = self.view_box;
        let mut any = false;
        let mut all = true;
        let mut j: u32 = 0;
        while j < 256
            invariant
                j <= 256,
                self.wf(),
                o == self.mask@,
                vb == self.view_box,
                any == exists|i: int| 0 <= i < j && #[trigger] pixel_covered(o, vb, tile_x as int, tile_y as int, i),
                all == forall|i: int| 0 <= i < j ==> #[trigger] pixel_filled(o, vb, tile_x as int, tile_y as int, i),
            decreases 256 - j,
        {
            let px = 16 * (tile_x as i64) + (j % 16) as i64;
            let py = 16 * (tile_y as i64) + (j / 16) as i64;
            if in_view_exec(&self.view_box, px, py) {
                proof {
                    crate::raster::lemma_pixel_index(self.view_box, px as int, py as int);
                }
                let i = crate::scene::scene_tile_index(px as i32, py as i32, self.view_box);
                if self.mask[i as usize] {
                    any = true;
                } else {
                    all = false;
                }
            }
            assert(tile_px(tile_x as int, j as int) == px && tile_py(tile_y as int, j as int) == py);
            assert(pixel_covered(o, vb, tile_x as int, tile_y as int, j as int) == (in_view(
                vb,
                px as int,
                py as int,
            ) && mask_has(o, vb, px as int, py as int)));
            assert(pixel_filled(o, vb, tile_x as int, tile_y as int, j as int) == (in_view(
                vb,
                px as int,
                py as int,
            ) ==> mask_has(o, vb, px as int, py as int)));
            j = j + 1;
        }
        assert forall|i: int|
            0 <= i < 256 && in_view(vb, tile_px(tile_x as int, i), tile_py(tile_y as int, i)) && all
                implies mask_has(o, vb, tile_px(tile_x as int, i), tile_py(tile_y as int, i)) by {
            assert(pixel_filled(o, vb, tile_x as int, tile_y as int, i));
        }
        if !any {
            TileCoverage::Empty
        } else if all {
            TileCoverage::Full
        } else {
            TileCoverage::Partial
        }
    }

    /// Records in the z-buffer the tiles that this object covers fully, if it
    /// occludes: each such tile keeps the greatest object index plus one.
    pub fn update_z_buffer(&self, z_buffer: &mut ZBuffer)
        requires
            self.wf(),
            old(z_buffer).wf(),
            old(z_buffer).grid == tile_grid(self.view_box),
        ensures
            final(z_buffer).grid == old(z_buffer).grid,
            final(z_buffer).depth@ == z_after(
                self.mask@,
                self.view_box,
                self.object_index as int,
                self.occludes,
                old(z_buffer).depth@,
            ),
            final(z_buffer).wf(),
    {
        let g = z_buffer.grid;
        let w = (g.max_x as i64 - g.min_x as i64) as u32;
        let n = z_buffer.depth.len();
        let ghost d0 = z_buffer.depth@;
        let mut k: usize = 0;
        while k < n
            invariant
                self.wf(),
                z_buffer.wf(),
                z_buffer.grid == g,
                g == tile_grid(self.view_box),
                n == z_buffer.depth@.len(),
                n == d0.len(),
                w == grid_width(g),
                k <= n,
                forall|j: int|
                    0 <= j < k ==> z_buffer.depth@[j] == z_after(self.mask@, self.view_box, self.object_index as int, self.occludes, d0)[j],
                forall|j: int| k <= j < n ==> z_buffer.depth@[j] == d0[j],
            decreases n - k,
        {
            proof {
                lemma_grid_tile_in_grid(g, k as int);
            }
            let tx = g.min_x + (k as u32 % w) as i32;
            let ty = g.min_y + (k as u32 / w) as i32;
            if self.occludes {
                let c = self.coverage_at(tx, ty);
                let v = self.object_index as u32 + 1;
                if c == TileCoverage::Full && v > z_buffer.depth[k] {
                    z_buffer.set_depth(k, v);
                }
            }
            k = k + 1;
        }
        assert(z_buffer.depth@ =~= z_after(self.mask@, self.view_box, self.object_index as int, self.occludes, d0));
    }

    /// The entries of the tiles that this object covers and that no later
    /// occluding object hides, in row-major order.
    pub fn generate_tiles(&self, z_buffer: &ZBuffer) -> (r: BuiltObject)
        requires
            self.wf(),
            z_buffer.wf(),
            z_buffer.grid == tile_grid(self.view_box),
        ensures
            r.object_index == self.object_index,
            r.shader == self.shader,
            r.tiles@ == visible_tiles(
                self.mask@,
                self.view_box,
                self.object_index as int,
                z_buffer.depth@,
                z_buffer.depth@.len() as int,
            ),
    {
        let g = z_buffer.grid;
        let w = (g.max_x as i64 - g.min_x as i64) as u32;
        let n = z_buffer.depth.len();
        let mut tiles: Vec<TileEntry> = Vec::new();
        let mut k: usize = 0;
        while k < n
            invariant
                self.wf(),
                z_buffer.wf(),
                z_buffer.grid == g,
                g == tile_grid(self.view_box),
                n == z_buffer.depth@.len(),
                w == grid_width(g),
                k <= n,
                tiles@ == visible_tiles(
                    self.mask@,
                    self.view_box,
                    self.object_index as int,
                    z_buffer.depth@,
                    k as int,
                ),
            decreases n - k,
        {
            proof {
                lemma_grid_tile_in_grid(g, k as int);
            }
            let tx = g.min_x + (k as u32 % w) as i32;
            let ty = g.min_y + (k as u32 / w) as i32;
            let c = self.coverage_at(tx, ty);
            if c != TileCoverage::Empty && z_buffer.depth[k] <= self.object_index as u32 + 1 {
                tiles.push(TileEntry { tile_x: tx, tile_y: ty, coverage: c });
            }
            k = k + 1;
        }
        BuiltObject { object_index: self.object_index, shader: self.shader, tiles }
    }
}

/// Recording two objects in the z-buffer gives the same depths in either
/// order: each tile keeps the greatest value offered.
pub proof fn lemma_z_updates_commute(
    cs1: Seq<bool>,
    index1: int,
    occludes1: bool,
    cs2: Seq<bool>,
    index2: int,
    occludes2: bool,
    vb: Rect,
    d: Seq<u32>,
)
    requires
        0 <= index1 < 65536,
        0 <= index2 < 65536,
    ensures
        z_after(cs1, vb, index1, occludes1, z_after(cs2, vb, index2, occludes2, d)) == z_after(
            cs2,
            vb,
            index2,
            occludes2,
            z_after(cs1, vb, index1, occludes1, d),
        ),
{
    assert(z_after(cs1, vb, index1, occludes1, z_after(cs2, vb, index2, occludes2, d)) =~= z_after(
        cs2,
        vb,
        index2,
        occludes2,
        z_after(cs1, vb, index1, occludes1, d),
    ));
}

/// An object that covers no tile gets no tile entry.
pub proof fn lemma_no_coverage_no_tiles(
    cs: Seq<bool>,
    vb: Rect,
    index: int,
    d: Seq<u32>,
    n: int,
)
    requires
        forall|tx: int, ty: int| #[trigger] coverage(cs, vb, tx, ty) == TileCoverage::Empty,
    ensures
        visible_tiles(cs, vb, index, d, n).len() == 0,
    decreases n,
{
    if n > 0 {
        lemma_no_coverage_no_tiles(cs, vb, index, d, n - 1);
    }
}

proof fn lemma_repeat_parity_prefix(c: Seq<Point>, j: int, sx: int, sy: int, k: int)
    requires
        0 <= j,
        j + 1 < c.len(),
        c[j] == c[j + 1],
        0 <= k <= c.len(),
    ensures
        k <= j ==> contour_parity(c, sx, sy, k) == contour_parity(c.remove(j + 1), sx, sy, k),
        k > j ==> contour_parity(c, sx, sy, k) == contour_parity(c.remove(j + 1), sx, sy, k - 1),
    decreases k,
{
    let d = c.remove(j + 1);
    if k > 0 {
        lemma_repeat_parity_prefix(c, j, sx, sy, k - 1);
        if k <= j {
            assert(d[k - 1] == c[k - 1]);
            assert(next_point(d, k - 1) == next_point(c, k - 1));
        } else if k > j + 1 {
            assert(d[k - 2] == c[k - 1]);
            assert(next_point(d, k - 2) == next_point(c, k - 1));
        }
    }
}

/// A repeated point (a zero-length edge) changes nothing: removing it from a
/// contour leaves the crossing parity at every sample point, hence which
/// pixels the outline holds and the coverage of every tile, as it was.
pub proof fn lemma_repeated_point_changes_nothing(c: Seq<Point>, j: int, sx: int, sy: int)
    requires
        0 <= j,
        j + 1 < c.len(),
        c[j] == c[j + 1],
    ensures
        contour_parity(c, sx, sy, c.len() as int) == contour_parity(
            c.remove(j + 1),
            sx,
            sy,
            c.remove(j + 1).len() as int,
        ),
{
    lemma_repeat_parity_prefix(c, j, sx, sy, c.len() as int);
}

} // verus!
