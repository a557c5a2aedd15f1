//! An outline clipped to the view box, held as the set of view-box pixels
//! whose centres lie inside it, and the dilation of such a set.
use crate::geometry::{outline_view, Outline, Point, Rect};
use crate::scene::scene_tile_index;
use crate::tiles::{grid_len, grid_tile_x, grid_tile_y, grid_width, in_view, inside, inside_exec, lemma_grid_tile_in_grid};
use vstd::prelude::*;

verus! {

/// Number of pixels of the view box (0 for an empty one).
pub open spec fn pixel_count(vb: Rect) -> int {
    if vb.is_empty_spec() {
        0
    } else {
        grid_len(vb)
    }
}

/// A view box whose pixels a `u32` can number.
pub open spec fn view_fits(vb: Rect) -> bool {
    pixel_count(vb) <= u32::MAX
}

/// The mask `m` over the view box holds the pixel `(x, y)`: it lies in the
/// view box and its entry, in row-major order, is set.
pub open spec fn mask_has(m: Seq<bool>, vb: Rect, x: int, y: int) -> bool {
    in_view(vb, x, y) && m[(y - vb.min_y) * grid_width(vb) + (x - vb.min_x)]
}

/// The outline clipped to the view box: the pixels of the view box whose
/// centres lie inside the outline.
pub open spec fn clip_mask(o: Seq<Seq<Point>>, vb: Rect) -> Seq<bool> {
    Seq::new(pixel_count(vb) as nat, |k: int| inside(o, grid_tile_x(vb, k), grid_tile_y(vb, k)))
}

/// The pixel `q` steps from `(x, y)`, along a row or along a column, is in the mask.
pub open spec fn shifted_has(m: Seq<bool>, vb: Rect, horizontal: bool, x: int, y: int, q: int) -> bool {
    if horizontal {
        mask_has(m, vb, x + q, y)
    } else {
        mask_has(m, vb, x, y + q)
    }
}

/// Some pixel of the mask lies within `d` steps of `(x, y)` along a row (or a column).
pub open spec fn near(m: Seq<bool>, vb: Rect, horizontal: bool, d: int, x: int, y: int) -> bool {
    exists|q: int| -d <= q <= d && #[trigger] shifted_has(m, vb, horizontal, x, y, q)
}

/// The mask grown by `d` pixels along rows (or columns), within the view box.
pub open spec fn spread(m: Seq<bool>, vb: Rect, horizontal: bool, d: int) -> Seq<bool> {
    Seq::new(m.len(), |k: int| near(m, vb, horizontal, d, grid_tile_x(vb, k), grid_tile_y(vb, k)))
}

/// A dilation amount below zero counts as zero.
pub open spec fn amount(d: int) -> int {
    if d < 0 {
        0
    } else {
        d
    }
}

/// The mask grown by the box `[-dx, dx] x [-dy, dy]`: a pixel is held when some
/// pixel of `m` lies within `dx` columns and `dy` rows of it.
pub open spec fn dilate_mask(m: Seq<bool>, vb: Rect, dx: int, dy: int) -> Seq<bool> {
    spread(spread(m, vb, true, amount(dx)), vb, false, amount(dy))
}

/// Samples the outline at the centre of each pixel of the view box.
pub fn clip_to_view(o: &Outline, vb: &Rect) -> (r: Vec<bool>)
    requires
        view_fits(*vb),
    ensures
        r@ == clip_mask(outline_view(*o), *vb),
{
    let mut out: Vec<bool> = Vec::new();
    if vb.is_empty() {
        assert(out@ =~= clip_mask(outline_view(*o), *vb));
        return out;
    }
    let w = (vb.max_x as i64 - vb.min_x as i64) as u64;
    let h = (vb.max_y as i64 - vb.min_y as i64) as u64;
    assert(w * h == grid_len(*vb));
    let n = (w * h) as u32;
    let mut k: u32 = 0;
    while k < n
        invariant
            !vb.is_empty_spec(),
            n == grid_len(*vb),
            w == grid_width(*vb),
            w > 0,
            k <= n,
            out@.len() == k,
            forall|j: int| 0 <= j < k ==> out@[j] == #[trigger] clip_mask(outline_view(*o), *vb)[j],
        decreases n - k,
    {
        proof {
            lemma_grid_tile_in_grid(*vb, k as int);
        }
        let px = vb.min_x as i64 + (k as u64 % w) as i64;
        let py = vb.min_y as i64 + (k as u64 / w) as i64;
        out.push(inside_exec(o, px, py));
        k = k + 1;
    }
    assert(out@ =~= clip_mask(outline_view(*o), *vb));
    out
}

/// Grows the mask by `d` pixels along rows (or columns).
fn spread_exec(m: &Vec<bool>, vb: &Rect, horizontal: bool, d: i32) -> (r: Vec<bool>)
    requires
        view_fits(*vb),
        m@.len() == pixel_count(*vb),
        d >= 0,
    ensures
        r@ == spread(m@, *vb, horizontal, d as int),
{
    let mut out: Vec<bool> = Vec::new();
    if vb.is_empty() {
        assert(out@ =~= spread(m@, *vb, horizontal, d as int));
        return out;
    }
    let w = (vb.max_x as i64 - vb.min_x as i64) as u64;
    let h = (vb.max_y as i64 - vb.min_y as i64) as u64;
    let n = m.len() as u32;
    let size: i64 = if horizontal { w as i64 } else { h as i64 };
    let e: i64 = if (d as i64) < size { d as i64 } else { size };
    let mut k: u32 = 0;
    while k < n
        invariant
            !vb.is_empty_spec(),
            n == grid_len(*vb),
            n == m@.len(),
            w == grid_width(*vb),
            h == vb.max_y - vb.min_y,
            w > 0,
            size == (if horizontal { w as int } else { h as int }),
            e == (if (d as int) < size { d as int } else { size as int }),
            0 <= e <= d,
            k <= n,
            out@.len() == k,
            forall|j: int| 0 <= j < k ==> out@[j] == #[trigger] spread(m@, *vb, horizontal, d as int)[j],
        decreases n - k,
    {
        proof {
            lemma_grid_tile_in_grid(*vb, k as int);
        }
        let x = vb.min_x as i64 + (k as u64 % w) as i64;
        let y = vb.min_y as i64 + (k as u64 / w) as i64;
        let mut found = false;
        let mut q: i64 = -e;
        while q <= e
            invariant
                -e <= q <= e + 1,
                0 <= e <= d,
                !vb.is_empty_spec(),
                n == grid_len(*vb),
                n == m@.len(),
                vb.min_x <= x < vb.max_x,
                vb.min_y <= y < vb.max_y,
                found == exists|p: int| -e <= p < q && #[trigger] shifted_has(m@, *vb, horizontal, x as int, y as int, p),
            decreases e + 1 - q,
        {
            let (qx, qy) = if horizontal { (x + q, y) } else { (x, y + q) };
            if vb.min_x as i64 <= qx && qx < vb.max_x as i64 && vb.min_y as i64 <= qy && qy < vb.max_y as i64 {
                let i = scene_tile_index(qx as i32, qy as i32, *vb);
                if m[i as usize] {
                    found = true;
                }
            }
            assert(shifted_has(m@, *vb, horizontal, x as int, y as int, q as int) == mask_has(m@, *vb, qx as int, qy as int));
            q = q + 1;
        }
        proof {
            let gx = grid_tile_x(*vb, k as int);
            let gy = grid_tile_y(*vb, k as int);
            assert(gx == x && gy == y);
            if near(m@, *vb, horizontal, d as int, x as int, y as int) {
                let p = choose|p: int| -d <= p <= d && #[trigger] shifted_has(m@, *vb, horizontal, x as int, y as int, p);
                assert(-e <= p <= e);
            }
        }
        out.push(found);
        k = k + 1;
    }
    assert(out@ =~= spread(m@, *vb, horizontal, d as int));
    out
}

/// Grows the mask by `dx` columns and `dy` rows (negative amounts count as zero).
pub fn dilate_pixels(m: &Vec<bool>, vb: &Rect, dx: i32, dy: i32) -> (r: Vec<bool>)
    requires
        view_fits(*vb),
        m@.len() == pixel_count(*vb),
    ensures
        r@ == dilate_mask(m@, *vb, dx as int, dy as int),
        r@.len() == m@.len(),
{
    let ax = if dx < 0 { 0 } else { dx };
    let ay = if dy < 0 { 0 } else { dy };
    let rows = spread_exec(m, vb, true, ax);
    spread_exec(&rows, vb, false, ay)
}

/// Every pixel that a mask holds lies in the view box.
pub proof fn lemma_mask_inside_view(m: Seq<bool>, vb: Rect, x: int, y: int)
    requires
        mask_has(m, vb, x, y),
    ensures
        vb.min_x <= x < vb.max_x && vb.min_y <= y < vb.max_y,
{
}

/// Dilating by any amounts keeps every pixel of the mask: the dilated mask
/// holds all that the mask held.
pub proof fn lemma_dilate_keeps_pixels(m: Seq<bool>, vb: Rect, dx: int, dy: int, x: int, y: int)
    requires
        m.len() == pixel_count(vb),
        mask_has(m, vb, x, y),
    ensures
        mask_has(dilate_mask(m, vb, dx, dy), vb, x, y),
{
    let k = (y - vb.min_y) * grid_width(vb) + (x - vb.min_x);
    lemma_pixel_index(vb, x, y);
    let h = spread(m, vb, true, amount(dx));
    assert(shifted_has(m, vb, true, x, y, 0));
    assert(h[k]);
    assert(shifted_has(h, vb, false, x, y, 0));
}

/// Dilating an empty mask gives an empty mask.
pub proof fn lemma_dilate_empty(m: Seq<bool>, vb: Rect, dx: int, dy: int, x: int, y: int)
    requires
        m.len() == pixel_count(vb),
        forall|px: int, py: int| !#[trigger] mask_has(m, vb, px, py),
    ensures
        !mask_has(dilate_mask(m, vb, dx, dy), vb, x, y),
{
    let h = spread(m, vb, true, amount(dx));
    assert forall|px: int, py: int| !#[trigger] mask_has(h, vb, px, py) by {
        if mask_has(h, vb, px, py) {
            lemma_pixel_index(vb, px, py);
            assert(near(m, vb, true, amount(dx), px, py));
            let q = choose|q: int| -amount(dx) <= q <= amount(dx) && #[trigger] shifted_has(m, vb, true, px, py, q);
            assert(mask_has(m, vb, px + q, py));
        }
    }
    if mask_has(dilate_mask(m, vb, dx, dy), vb, x, y) {
        lemma_pixel_index(vb, x, y);
        let q = choose|q: int| -amount(dy) <= q <= amount(dy) && #[trigger] shifted_has(h, vb, false, x, y, q);
        assert(mask_has(h, vb, x, y + q));
    }
}

/// The row-major index of a pixel of the view box, and back.
pub proof fn lemma_pixel_index(vb: Rect, x: int, y: int)
    requires
        in_view(vb, x, y),
    ensures
        ({
            let k = (y - vb.min_y) * grid_width(vb) + (x - vb.min_x);
            &&& 0 <= k < pixel_count(vb)
            &&& grid_tile_x(vb, k) == x
            &&& grid_tile_y(vb, k) == y
        }),
{
    let w = grid_width(vb);
    let k = (y - vb.min_y) * w + (x - vb.min_x);
    assert(0 <= k < pixel_count(vb)) by (nonlinear_arith)
        requires
            k == (y - vb.min_y) * w + (x - vb.min_x),
            0 <= y - vb.min_y < vb.max_y - vb.min_y,
            0 <= x - vb.min_x < w,
            pixel_count(vb) == w * (vb.max_y - vb.min_y),
    ;
    vstd::arithmetic::div_mod::lemma_fundamental_div_mod_converse(k, w, y - vb.min_y, x - vb.min_x);
}

} // verus!
