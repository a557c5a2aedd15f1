//! Per-tile occlusion buffer of one build pass.
use crate::geometry::Rect;
use crate::scene::scene_tile_index;
use crate::tiles::{grid_fits, grid_height, grid_len, grid_width, tile_grid, tile_grid_of};
use vstd::prelude::*;

verus! {

/// For each tile of the grid, in row-major order: 0 where no occluding object
/// covers the tile fully, else one more than the greatest index of those that do.
pub struct ZBuffer {
    pub grid: Rect,
    pub depth: Vec<u32>,
}

impl ZBuffer {
    pub open spec fn wf(&self) -> bool {
        &&& 0 <= grid_width(self.grid) <= 0x1000_0000
        &&& 0 <= grid_height(self.grid) <= 0x1000_0000
        &&& self.depth@.len() == grid_len(self.grid)
        &&& grid_len(self.grid) <= u32::MAX
        &&& (grid_width(self.grid) > 0 || self.depth@.len() == 0)
    }

    /// A fresh buffer for the view box: every tile at 0.
    pub fn new(view_box: Rect) -> (r: ZBuffer)
        requires
            grid_fits(view_box),
        ensures
            r.wf(),
            r.grid == tile_grid(view_box),
            forall|k: int| 0 <= k < r.depth@.len() ==> r.depth@[k] == 0,
    {
        let grid = tile_grid_of(&view_box);
        let w = (grid.max_x as i64 - grid.min_x as i64) as u64;
        let h = (grid.max_y as i64 - grid.min_y as i64) as u64;
        assert(w * h <= 0x1000_0000 * 0x1000_0000) by (nonlinear_arith)
            requires
                w <= 0x1000_0000,
                h <= 0x1000_0000,
        ;
        assert(w == 0 ==> w * h == 0) by (nonlinear_arith);
        let n = (w * h) as usize;
        let mut depth: Vec<u32> = Vec::new();
        let mut k: usize = 0;
        while k < n
            invariant
                k <= n,
                depth@.len() == k,
                forall|j: int| 0 <= j < k ==> depth@[j] == 0,
            decreases n - k,
        {
            depth.push(0);
            k = k + 1;
        }
        ZBuffer { grid, depth }
    }

    pub(crate) fn set_depth(&mut self, k: usize, v: u32)
        requires
            k < old(self).depth@.len(),
        ensures
            final(self).grid == old(self).grid,
            final(self).depth@ == old(self).depth@.update(k as int, v),
    {
        self.depth.set(k, v);
    }

    /// The depth recorded for the tile `(tile_x, tile_y)`.
    pub fn depth_at(&self, tile_x: i32, tile_y: i32) -> (r: u32)
        requires
            self.wf(),
            self.grid.min_x <= tile_x < self.grid.max_x,
            self.grid.min_y <= tile_y < self.grid.max_y,
        ensures
            r == self.depth@[(tile_y - self.grid.min_y) * grid_width(self.grid) + (tile_x
                - self.grid.min_x)],
    {
        let i = scene_tile_index(tile_x, tile_y, self.grid);
        self.depth[i as usize]
    }
}

} // verus!
