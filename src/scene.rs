//! A set of paths to be rendered, and the build passes that tile them.
use crate::geometry::{outline_op, outline_view, Outline, Point, PointOp, Rect, Transform2D};
use crate::paint::{
    cache_entries, key_of, lemma_paint_key_injective, paint_key, ObjectShader, Paint, PaintCache,
    PaintId, ShaderId,
};
use crate::tiles::{
    coverage, grid_fits, grid_tile_x, grid_tile_y, grid_height, grid_len, grid_width, in_view, inside, tile_grid,
    tiler_depth, visible_tiles, z_after, BuiltObject, TileCoverage, TileEntry, Tiler,
};
use crate::raster::{
    clip_mask, clip_to_view, dilate_mask, dilate_pixels, lemma_dilate_empty, lemma_dilate_keeps_pixels,
    lemma_pixel_index, mask_has, pixel_count, view_fits,
};
use crate::z_buffer::ZBuffer;
use rayon::iter::{IntoParallelIterator, IntoParallelRefIterator, ParallelIterator};
use vstd::prelude::*;

verus! {

/// Whether an object is filled or stroked; only fills hide what lies behind them.
#[derive(Clone, Copy, Debug, PartialEq, Eq, Structural)]
pub enum PathObjectKind {
    Fill,
    Stroke,
}

/// One path of a scene: its outline, the id of its paint, a label and a kind.
#[derive(Clone, Debug)]
pub struct PathObject {
    pub outline: Outline,
    pub paint: PaintId,
    pub name: String,
    pub kind: PathObjectKind,
}

impl PathObject {
    pub fn new(outline: Outline, paint: PaintId, name: String, kind: PathObjectKind) -> (r:
        PathObject)
        ensures
            r.outline == outline,
            r.paint == paint,
            r.name == name,
            r.kind == kind,
    {
        PathObject { outline, paint, name, kind }
    }

    pub fn outline(&self) -> (r: &Outline)
        ensures
            *r == self.outline,
    {
        &self.outline
    }
}

/// The transform that a build pass applies to every outline: an integer
/// affine map, or none. There is no perspective projection here, since it
/// needs fractional coordinates.
#[derive(Clone, Copy, Debug, PartialEq, Eq)]
pub enum RenderTransform {
    Transform2D(Transform2D),
    Identity,
}

/// A transform and a dilation: how far (in `x` and `y`) outlines grow.
#[derive(Clone, Copy, Debug, PartialEq, Eq)]
pub struct RenderOptions {
    pub transform: RenderTransform,
    pub dilation: Point,
}

/// The outline `o` under the transform alone.
pub open spec fn transformed(o: Seq<Seq<Point>>, t: RenderTransform) -> Seq<Seq<Point>> {
    match t {
        RenderTransform::Transform2D(m) => outline_op(PointOp::Transform(m), o),
        RenderTransform::Identity => o,
    }
}

/// The transform stage: transform (if any), clip to the view box (the
/// view-box pixels whose centres lie inside the transformed outline), then,
/// unless the dilation is zero, dilate what the clip left.
pub open spec fn stage_mask(o: Seq<Seq<Point>>, opts: RenderOptions, vb: Rect) -> Seq<bool> {
    let clipped = clip_mask(transformed(o, opts.transform), vb);
    if opts.dilation.x == 0 && opts.dilation.y == 0 {
        clipped
    } else {
        dilate_mask(clipped, vb, opts.dilation.x as int, opts.dilation.y as int)
    }
}

/// Why a paint could not be added.
#[derive(Clone, Copy, Debug, PartialEq, Eq)]
pub enum PaintError {
    /// The scene already holds as many distinct paints as a `PaintId` can name.
    CapacityExceeded,
}

/// Most distinct paints that one scene can hold.
pub const MAX_PAINTS: usize = 65536;

/// Most objects that one build pass can number.
pub const MAX_OBJECTS: usize = 65536;

/// The objects of a scene in draw order, the paint table that their paint
/// ids index, the bounds of the objects and the view box they are tiled in.
///
/// Later objects are drawn over earlier ones: where several opaque fills
/// cover a tile fully, the one with the greatest index is the one seen, and
/// the tiles of the others there are dropped.
pub struct Scene {
    pub objects: Vec<PathObject>,
    pub paints: Vec<Paint>,
    pub paint_cache: PaintCache,
    pub bounds: Rect,
    pub view_box: Rect,
}

/// The effect of `push_paint(p)` on a scene `s0`, giving `s1` and `r`.
pub open spec fn push_paint_post(
    s0: Scene,
    p: Paint,
    s1: Scene,
    r: Result<PaintId, PaintError>,
) -> bool {
    &&& s1.paints_wf()
    &&& s1.objects@ == s0.objects@
    &&& s1.bounds == s0.bounds
    &&& s1.view_box == s0.view_box
    &&& if exists|i: int| 0 <= i < s0.paints@.len() && s0.paints@[i] == p {
        &&& s1.paints@ == s0.paints@
        &&& r is Ok
        &&& (r->Ok_0).0 < s0.paints@.len()
        &&& s0.paints@[(r->Ok_0).0 as int] == p
        &&& forall|i: int|
            0 <= i < s0.paints@.len() && #[trigger] s0.paints@[i] == p ==> (r->Ok_0).0 == i
    } else if s0.paints@.len() >= MAX_PAINTS {
        &&& s1.paints@ == s0.paints@
        &&& r == Err::<PaintId, PaintError>(PaintError::CapacityExceeded)
    } else {
        &&& s1.paints@ == s0.paints@.push(p)
        &&& r == Ok::<PaintId, PaintError>(PaintId(s0.paints@.len() as u16))
    }
}

/// Whether object `i` hides what lies behind the tiles it covers fully: it
/// is a fill with an opaque paint.
pub open spec fn object_occludes(s: Scene, i: int) -> bool {
    s.objects@[i].kind == PathObjectKind::Fill && s.paints@[s.objects@[i].paint.0 as int].color.a
        == 255
}

/// The pixels of object `i` after the transform stage.
pub open spec fn prepared_object(s: Scene, opts: RenderOptions, i: int) -> Seq<bool> {
    stage_mask(outline_view(s.objects@[i].outline), opts, s.view_box)
}

/// A tiler for object `i` of the scene.
pub open spec fn tiler_matches(s: Scene, opts: RenderOptions, i: int, t: Tiler) -> bool {
    &&& t.mask@ == prepared_object(s, opts, i)
    &&& t.wf()
    &&& t.view_box == s.view_box
    &&& t.object_index == i
    &&& t.shader == ShaderId(s.objects@[i].paint.0)
    &&& t.occludes == object_occludes(s, i)
}

/// The z-buffer once objects `0..n` have recorded their tiles.
pub open spec fn scene_depth(s: Scene, opts: RenderOptions, n: int) -> Seq<u32>
    decreases n,
{
    if n <= 0 {
        Seq::new(grid_len(tile_grid(s.view_box)) as nat, |k: int| 0u32)
    } else {
        z_after(
            prepared_object(s, opts, n - 1),
            s.view_box,
            n - 1,
            object_occludes(s, n - 1),
            scene_depth(s, opts, n - 1),
        )
    }
}

/// The visible tile entries of object `i` at the end of a build pass.
pub open spec fn built_tiles(s: Scene, opts: RenderOptions, i: int) -> Seq<TileEntry> {
    let d = scene_depth(s, opts, s.objects@.len() as int);
    visible_tiles(prepared_object(s, opts, i), s.view_box, i, d, d.len() as int)
}

/// What a build pass returns, and the z-buffer it leaves.
pub open spec fn build_post(s: Scene, opts: RenderOptions, r: Seq<BuiltObject>, depth: Seq<u32>) -> bool {
    &&& r.len() == s.objects@.len()
    &&& forall|i: int|
        0 <= i < r.len() ==> {
            &&& #[trigger] r[i].object_index == i
            &&& r[i].shader == ShaderId(s.objects@[i].paint.0)
            &&& r[i].tiles@ == built_tiles(s, opts, i)
        }
    &&& depth == scene_depth(s, opts, s.objects@.len() as int)
}

/// Relies on rayon: `into_par_iter().map(f).collect()` over an index range
/// calls `f` once per index and returns the results in index order.
#[verifier::external_body]
fn tilers_in_parallel(scene: &Scene, options: &RenderOptions) -> (r: Vec<Tiler>)
    requires
        scene.objects_wf(),
        view_fits(scene.view_box),
    ensures
        r@.len() == scene.objects@.len(),
        forall|i: int| 0 <= i < r@.len() ==> tiler_matches(*scene, *options, i, #[trigger] r@[i]),
{
    (0..scene.objects.len()).into_par_iter().map(|i| scene.tiler_for(i, options)).collect()
}

/// Relies on rayon: `par_iter().map(f).collect()` over a slice calls `f` once
/// per element and returns the results in element order.
#[verifier::external_body]
fn tiles_in_parallel(tilers: &Vec<Tiler>, z_buffer: &ZBuffer) -> (r: Vec<BuiltObject>)
    requires
        z_buffer.wf(),
        forall|i: int|
            0 <= i < tilers@.len() ==> z_buffer.grid == tile_grid(#[trigger] tilers@[i].view_box)
                && tilers@[i].wf(),
    ensures
        r@.len() == tilers@.len(),
        forall|i: int|
            0 <= i < r@.len() ==> {
                &&& #[trigger] r@[i].object_index == tilers@[i].object_index
                &&& r@[i].shader == tilers@[i].shader
                &&& r@[i].tiles@ == visible_tiles(
                    tilers@[i].mask@,
                    tilers@[i].view_box,
                    tilers@[i].object_index as int,
                    z_buffer.depth@,
                    z_buffer.depth@.len() as int,
                )
            },
{
    tilers.par_iter().map(|t| t.generate_tiles(z_buffer)).collect()
}

impl Scene {
    /// The paint table and its cache agree: distinct paints, each cached
    /// under its key with its index, and nothing else cached.
    pub open spec fn paints_wf(&self) -> bool {
        &&& self.paints@.len() <= MAX_PAINTS
        &&& forall|i: int, j: int|
            0 <= i < j < self.paints@.len() ==> self.paints@[i] != self.paints@[j]
        &&& forall|i: int|
            0 <= i < self.paints@.len() ==> {
                &&& cache_entries(self.paint_cache).contains_key(
                    paint_key(#[trigger] self.paints@[i]),
                )
                &&& cache_entries(self.paint_cache)[paint_key(self.paints@[i])] == i
            }
        &&& forall|k: u32|
            #[trigger] cache_entries(self.paint_cache).contains_key(k) ==> {
                &&& cache_entries(self.paint_cache)[k] < self.paints@.len()
                &&& paint_key(self.paints@[cache_entries(self.paint_cache)[k] as int]) == k
            }
    }

    /// Every object names a paint of the table, and the objects can be
    /// numbered by `u16`.
    pub open spec fn objects_wf(&self) -> bool {
        &&& self.objects@.len() <= MAX_OBJECTS
        &&& self.paint_ids_valid()
    }

    /// Every object names a paint of the table.
    pub open spec fn paint_ids_valid(&self) -> bool {
        &&& forall|i: int|
            0 <= i < self.objects@.len() ==> (#[trigger] self.objects@[i]).paint.0
                < self.paints@.len()
    }

    pub fn new() -> (r: Scene)
        ensures
            r.objects@.len() == 0,
            r.paints@.len() == 0,
            r.paints_wf(),
            r.objects_wf(),
            r.bounds == (Rect { min_x: 0, min_y: 0, max_x: 0, max_y: 0 }),
            r.view_box == (Rect { min_x: 0, min_y: 0, max_x: 0, max_y: 0 }),
    {
        Scene {
            objects: Vec::new(),
            paints: Vec::new(),
            paint_cache: PaintCache::new(),
            bounds: Rect { min_x: 0, min_y: 0, max_x: 0, max_y: 0 },
            view_box: Rect { min_x: 0, min_y: 0, max_x: 0, max_y: 0 },
        }
    }

    /// The id of `paint` in the table, adding it at the end if no equal paint
    /// is there yet; an error when the table is full.
    pub fn push_paint(&mut self, paint: &Paint) -> (r: Result<PaintId, PaintError>)
        requires
            old(self).paints_wf(),
        ensures
            push_paint_post(*old(self), *paint, *final(self), r),
    {
        let key = key_of(paint);
        match self.paint_cache.get(key) {
            Some(id) => {
                proof {
                    lemma_paint_key_injective(self.paints@[id as int], *paint);
                    assert forall|i: int|
                        0 <= i < self.paints@.len() && #[trigger] self.paints@[i] == *paint implies id
                        == i by {
                        if i < id {
                            assert(self.paints@[i] != self.paints@[id as int]);
                        } else if i > id {
                            assert(self.paints@[id as int] != self.paints@[i]);
                        }
                    }
                }
                Ok(PaintId(id))
            },
            None => {
                proof {
                    assert forall|i: int| 0 <= i < self.paints@.len() implies self.paints@[i]
                        != *paint by {
                        lemma_paint_key_injective(self.paints@[i], *paint);
                    }
                }
                if self.paints.len() >= MAX_PAINTS {
                    return Err(PaintError::CapacityExceeded);
                }
                let id = self.paints.len() as u16;
                let ghost old_paints = self.paints@;
                self.paint_cache.insert(key, id);
                self.paints.push(*paint);
                proof {
                    assert forall|i: int| 0 <= i < self.paints@.len() - 1 implies paint_key(
                        self.paints@[i],
                    ) != key by {
                        lemma_paint_key_injective(self.paints@[i], *paint);
                    }
                    assert(self.paints@[id as int] == *paint);
                }
                Ok(PaintId(id))
            },
        }
    }

    /// One shader per paint, in table order, with the paint's color.
    pub fn build_shaders(&self) -> (r: Vec<ObjectShader>)
        ensures
            r@.len() == self.paints@.len(),
            forall|i: int|
                0 <= i < r@.len() ==> (#[trigger] r@[i]).fill_color == self.paints@[i].color,
    {
        let mut out: Vec<ObjectShader> = Vec::new();
        let mut i: usize = 0;
        while i < self.paints.len()
            invariant
                i <= self.paints@.len(),
                out@.len() == i,
                forall|j: int| 0 <= j < i ==> (#[trigger] out@[j]).fill_color == self.paints@[j].color,
            decreases self.paints@.len() - i,
        {
            out.push(ObjectShader { fill_color: self.paints[i].color });
            i = i + 1;
        }
        out
    }

    /// The transform stage on one outline, which is left as it is: transform,
    /// clip to the view box, dilate; the result is the set of view-box pixels
    /// that the object covers, in row-major order.
    pub fn apply_render_options(&self, outline: &Outline, options: &RenderOptions) -> (r: Vec<bool>)
        requires
            view_fits(self.view_box),
        ensures
            r@ == stage_mask(outline_view(*outline), *options, self.view_box),
            r@.len() == pixel_count(self.view_box),
    {
        let placed = match options.transform {
            RenderTransform::Transform2D(t) => outline.transform(&t),
            RenderTransform::Identity => outline.copy(),
        };
        let clipped = clip_to_view(&placed, &self.view_box);
        if options.dilation.x == 0 && options.dilation.y == 0 {
            clipped
        } else {
            dilate_pixels(&clipped, &self.view_box, options.dilation.x, options.dilation.y)
        }
    }

    /// A tiler for object `index`.
    pub fn tiler_for(&self, index: usize, options: &RenderOptions) -> (r: Tiler)
        requires
            self.objects_wf(),
            view_fits(self.view_box),
            index < self.objects@.len(),
        ensures
            tiler_matches(*self, *options, index as int, r),
    {
        let object = &self.objects[index];
        let mask = self.apply_render_options(&object.outline, options);
        let occludes = object.kind == PathObjectKind::Fill
            && self.paints[object.paint.0 as usize].color.is_opaque();
        Tiler::new(mask, self.view_box, index as u16, ShaderId(object.paint.0), occludes)
    }

    /// Records the objects' fully covered tiles in the z-buffer, in
    /// ascending object order.
    fn record_depths(&self, options: &RenderOptions, tilers: &Vec<Tiler>, z_buffer: &mut ZBuffer)
        requires
            self.objects_wf(),
            tilers@.len() == self.objects@.len(),
            forall|i: int|
                0 <= i < tilers@.len() ==> tiler_matches(*self, *options, i, #[trigger] tilers@[i]),
            old(z_buffer).wf(),
            old(z_buffer).grid == tile_grid(self.view_box),
            forall|k: int| 0 <= k < old(z_buffer).depth@.len() ==> old(z_buffer).depth@[k] == 0,
        ensures
            final(z_buffer).wf(),
            final(z_buffer).grid == old(z_buffer).grid,
            final(z_buffer).depth@ == scene_depth(*self, *options, self.objects@.len() as int),
    {
        let n = tilers.len();
        assert(z_buffer.depth@ =~= scene_depth(*self, *options, 0));
        let mut i: usize = 0;
        while i < n
            invariant
                n == tilers@.len(),
                n == self.objects@.len(),
                i <= n,
                forall|j: int|
                    0 <= j < n ==> tiler_matches(*self, *options, j, #[trigger] tilers@[j]),
                z_buffer.wf(),
                z_buffer.grid == tile_grid(self.view_box),
                z_buffer.depth@ == scene_depth(*self, *options, i as int),
            decreases n - i,
        {
            tilers[i].update_z_buffer(z_buffer);
            i = i + 1;
        }
    }

    /// Builds every object in turn: one `BuiltObject` per object, in object
    /// order, with `z_buffer` (fresh for the view box) filled on the way.
    pub fn build_objects_sequentially(&self, options: RenderOptions, z_buffer: &mut ZBuffer) -> (r: Vec<BuiltObject>)
        requires
            self.objects_wf(),
            grid_fits(self.view_box),
            view_fits(self.view_box),
            old(z_buffer).wf(),
            old(z_buffer).grid == tile_grid(self.view_box),
            forall|k: int| 0 <= k < old(z_buffer).depth@.len() ==> old(z_buffer).depth@[k] == 0,
        ensures
            final(z_buffer).wf(),
            final(z_buffer).grid == old(z_buffer).grid,
            build_post(*self, options, r@, final(z_buffer).depth@),
    {
        let mut tilers: Vec<Tiler> = Vec::new();
        let mut i: usize = 0;
        while i < self.objects.len()
            invariant
                self.objects_wf(),
                view_fits(self.view_box),
                i <= self.objects@.len(),
                tilers@.len() == i,
                forall|j: int| 0 <= j < i ==> tiler_matches(*self, options, j, #[trigger] tilers@[j]),
            decreases self.objects@.len() - i,
        {
            tilers.push(self.tiler_for(i, &options));
            i = i + 1;
        }
        self.record_depths(&options, &tilers, z_buffer);
        let n = tilers.len();
        let mut out: Vec<BuiltObject> = Vec::new();
        let mut i: usize = 0;
        while i < n
            invariant
                n == tilers@.len(),
                n == self.objects@.len(),
                i <= n,
                forall|j: int|
                    0 <= j < n ==> tiler_matches(*self, options, j, #[trigger] tilers@[j]),
                z_buffer.wf(),
                z_buffer.grid == tile_grid(self.view_box),
                z_buffer.depth@ == scene_depth(*self, options, n as int),
                out@.len() == i,
                forall|j: int|
                    0 <= j < i ==> {
                        &&& #[trigger] out@[j].object_index == j
                        &&& out@[j].shader == ShaderId(self.objects@[j].paint.0)
                        &&& out@[j].tiles@ == built_tiles(*self, options, j)
                    },
            decreases n - i,
        {
            out.push(tilers[i].generate_tiles(z_buffer));
            i = i + 1;
        }
        out
    }

    /// As `build_objects_sequentially`, with the transform stage of the
    /// objects run in parallel; the result is the same.
    pub fn build_objects(&self, options: RenderOptions, z_buffer: &mut ZBuffer) -> (r: Vec<BuiltObject>)
        requires
            self.objects_wf(),
            grid_fits(self.view_box),
            view_fits(self.view_box),
            old(z_buffer).wf(),
            old(z_buffer).grid == tile_grid(self.view_box),
            forall|k: int| 0 <= k < old(z_buffer).depth@.len() ==> old(z_buffer).depth@[k] == 0,
        ensures
            final(z_buffer).wf(),
            final(z_buffer).grid == old(z_buffer).grid,
            build_post(*self, options, r@, final(z_buffer).depth@),
    {
        let tilers = tilers_in_parallel(self, &options);
        self.record_depths(&options, &tilers, z_buffer);
        let out = tiles_in_parallel(&tilers, z_buffer);
        assert forall|i: int| 0 <= i < out@.len() implies {
            &&& #[trigger] out@[i].object_index == i
            &&& out@[i].shader == ShaderId(self.objects@[i].paint.0)
            &&& out@[i].tiles@ == built_tiles(*self, options, i)
        } by {
            assert(tiler_matches(*self, options, i, tilers@[i]));
            assert(out@[i].object_index == tilers@[i].object_index);
        }
        out
    }
}

/// Row-major index of the tile `(tile_x, tile_y)` in the grid `tile_rect`.
pub fn scene_tile_index(tile_x: i32, tile_y: i32, tile_rect: Rect) -> (r: u32)
    requires
        tile_rect.min_x <= tile_x < tile_rect.max_x,
        tile_rect.min_y <= tile_y < tile_rect.max_y,
        grid_len(tile_rect) <= u32::MAX,
    ensures
        r == (tile_y - tile_rect.min_y) * grid_width(tile_rect) + (tile_x - tile_rect.min_x),
        r < grid_len(tile_rect),
{
    let dy = (tile_y as i64 - tile_rect.min_y as i64) as u64;
    let w = (tile_rect.max_x as i64 - tile_rect.min_x as i64) as u64;
    let dx = (tile_x as i64 - tile_rect.min_x as i64) as u64;
    assert(dy * w + dx < grid_len(tile_rect)) by (nonlinear_arith)
        requires
            dy + 1 <= grid_height(tile_rect),
            dx < w,
            w == grid_width(tile_rect),
            grid_len(tile_rect) == w * grid_height(tile_rect),
    ;
    (dy * w + dx) as u32
}

/// Pushing a paint a second time returns the id that the first push gave,
/// and the paint table gains no entry.
pub proof fn lemma_push_paint_idempotent(
    s0: Scene,
    s1: Scene,
    s2: Scene,
    p: Paint,
    r1: Result<PaintId, PaintError>,
    r2: Result<PaintId, PaintError>,
)
    requires
        s0.paints_wf(),
        push_paint_post(s0, p, s1, r1),
        push_paint_post(s1, p, s2, r2),
        r1 is Ok,
    ensures
        r2 == r1,
        s2.paints@ == s1.paints@,
{
    let id1 = (r1->Ok_0).0 as int;
    assert(s1.paints@[id1] == p);
    assert(exists|i: int| 0 <= i < s1.paints@.len() && s1.paints@[i] == p);
    let id2 = (r2->Ok_0).0 as int;
    assert(s1.paints@[id2] == p);
    assert(id1 == id2);
}

/// A build pass is determined by the scene and the options: two passes over
/// the same scene, sequential or parallel alike, give the same objects, tile
/// for tile, and the same z-buffer.
pub proof fn lemma_build_deterministic(
    s: Scene,
    opts: RenderOptions,
    r1: Seq<BuiltObject>,
    d1: Seq<u32>,
    r2: Seq<BuiltObject>,
    d2: Seq<u32>,
)
    requires
        build_post(s, opts, r1, d1),
        build_post(s, opts, r2, d2),
    ensures
        r1.len() == r2.len(),
        forall|i: int|
            0 <= i < r1.len() ==> {
                &&& #[trigger] r1[i].object_index == r2[i].object_index
                &&& r1[i].shader == r2[i].shader
                &&& r1[i].tiles@ == r2[i].tiles@
            },
        d1 == d2,
{
    assert forall|i: int| 0 <= i < r1.len() implies {
        &&& #[trigger] r1[i].object_index == r2[i].object_index
        &&& r1[i].shader == r2[i].shader
        &&& r1[i].tiles@ == r2[i].tiles@
    } by {
        assert(r1[i].object_index == i);
        assert(r2[i].object_index == i);
    }
}

/// Clipping keeps only pixels of the view box whose centres lie inside the
/// transformed outline.
pub proof fn lemma_clip_holds_inside(o: Seq<Seq<Point>>, vb: Rect, x: int, y: int)
    requires
        mask_has(clip_mask(o, vb), vb, x, y),
    ensures
        in_view(vb, x, y),
        inside(o, x, y),
{
    lemma_pixel_index(vb, x, y);
}

/// An object whose transformed outline holds no pixel centre of the view box
/// (in particular one that lies wholly outside it) is clipped away whatever
/// the dilation: its mask is empty, it covers no tile and gets no tile entry.
pub proof fn lemma_outside_object_has_no_tiles(s: Scene, opts: RenderOptions, i: int)
    requires
        0 <= i < s.objects@.len(),
        forall|px: int, py: int|
            in_view(s.view_box, px, py) ==> !#[trigger] inside(
                transformed(outline_view(s.objects@[i].outline), opts.transform),
                px,
                py,
            ),
    ensures
        forall|px: int, py: int| !#[trigger] mask_has(prepared_object(s, opts, i), s.view_box, px, py),
        forall|tx: int, ty: int|
            #[trigger] coverage(prepared_object(s, opts, i), s.view_box, tx, ty)
                == TileCoverage::Empty,
        built_tiles(s, opts, i).len() == 0,
{
    let t = transformed(outline_view(s.objects@[i].outline), opts.transform);
    let c = clip_mask(t, s.view_box);
    assert forall|px: int, py: int| !#[trigger] mask_has(c, s.view_box, px, py) by {
        if mask_has(c, s.view_box, px, py) {
            lemma_clip_holds_inside(t, s.view_box, px, py);
        }
    }
    let o = prepared_object(s, opts, i);
    assert forall|px: int, py: int| !#[trigger] mask_has(o, s.view_box, px, py) by {
        if !(opts.dilation.x == 0 && opts.dilation.y == 0) {
            lemma_dilate_empty(c, s.view_box, opts.dilation.x as int, opts.dilation.y as int, px, py);
        }
    }
    assert forall|tx: int, ty: int|
        #[trigger] coverage(o, s.view_box, tx, ty) == TileCoverage::Empty by {
        assert(!exists|j: int| 0 <= j < 256 && #[trigger] crate::tiles::pixel_covered(o, s.view_box, tx, ty, j));
    }
    let d = scene_depth(s, opts, s.objects@.len() as int);
    crate::tiles::lemma_no_coverage_no_tiles(o, s.view_box, i, d, d.len() as int);
}

/// Dilating never loses a pixel or a tile: each pixel, and each tile, that
/// an outline covers without dilation it still covers with any dilation.
pub proof fn lemma_dilation_keeps_tiles(
    o: Seq<Seq<Point>>,
    transform: RenderTransform,
    vb: Rect,
    dx: i32,
    dy: i32,
    tx: int,
    ty: int,
)
    ensures
        forall|x: int, y: int|
            #[trigger] mask_has(stage_mask(o, RenderOptions { transform, dilation: Point { x: 0, y: 0 } }, vb), vb, x, y)
                ==> mask_has(stage_mask(o, RenderOptions { transform, dilation: Point { x: dx, y: dy } }, vb), vb, x, y),
        coverage(stage_mask(o, RenderOptions { transform, dilation: Point { x: 0, y: 0 } }, vb), vb, tx, ty)
            != TileCoverage::Empty ==> coverage(
            stage_mask(o, RenderOptions { transform, dilation: Point { x: dx, y: dy } }, vb),
            vb,
            tx,
            ty,
        ) != TileCoverage::Empty,
{
    let plain = stage_mask(o, RenderOptions { transform, dilation: Point { x: 0, y: 0 } }, vb);
    let grown = stage_mask(o, RenderOptions { transform, dilation: Point { x: dx, y: dy } }, vb);
    assert forall|x: int, y: int| #[trigger] mask_has(plain, vb, x, y) implies mask_has(grown, vb, x, y) by {
        if !(dx == 0 && dy == 0) {
            lemma_dilate_keeps_pixels(plain, vb, dx as int, dy as int, x, y);
        }
    }
    if coverage(plain, vb, tx, ty) != TileCoverage::Empty {
        let j = choose|j: int| 0 <= j < 256 && #[trigger] crate::tiles::pixel_covered(plain, vb, tx, ty, j);
        assert(crate::tiles::pixel_covered(grown, vb, tx, ty, j));
    }
}

/// A push never drops or moves a paint: the table before is a prefix of the
/// table after.
pub proof fn lemma_push_paint_keeps_table(
    s0: Scene,
    p: Paint,
    s1: Scene,
    r: Result<PaintId, PaintError>,
)
    requires
        push_paint_post(s0, p, s1, r),
    ensures
        s0.paints@.len() <= s1.paints@.len(),
        s1.paints@.subrange(0, s0.paints@.len() as int) == s0.paints@,
{
    assert(s1.paints@.subrange(0, s0.paints@.len() as int) =~= s0.paints@);
}

/// Pushing a paint that the table already holds at `id` returns `id` and
/// leaves the table as it is, whatever came between; with
/// `lemma_push_paint_keeps_table`, every later push of an equal paint returns
/// the id that the first one gave.
pub proof fn lemma_push_paint_returns_known_id(
    s0: Scene,
    p: Paint,
    id: u16,
    s1: Scene,
    r: Result<PaintId, PaintError>,
)
    requires
        s0.paints_wf(),
        id < s0.paints@.len(),
        s0.paints@[id as int] == p,
        push_paint_post(s0, p, s1, r),
    ensures
        r == Ok::<PaintId, PaintError>(PaintId(id)),
        s1.paints@ == s0.paints@,
{
    assert(exists|i: int| 0 <= i < s0.paints@.len() && s0.paints@[i] == p);
}

proof fn lemma_pushed_paint_stays(
    states: Seq<Scene>,
    pushed: Seq<Paint>,
    results: Seq<Result<PaintId, PaintError>>,
    k: int,
)
    requires
        states.len() == pushed.len() + 1,
        results.len() == pushed.len(),
        forall|i: int|
            0 <= i < pushed.len() ==> push_paint_post(
                #[trigger] states[i],
                pushed[i],
                states[i + 1],
                results[i],
            ),
        results[0] is Ok,
        1 <= k < states.len(),
    ensures
        states[k].paints_wf(),
        (results[0]->Ok_0).0 < states[k].paints@.len(),
        states[k].paints@[(results[0]->Ok_0).0 as int] == pushed[0],
    decreases k,
{
    assert(push_paint_post(states[k - 1], pushed[k - 1], states[k], results[k - 1]));
    if k > 1 {
        lemma_pushed_paint_stays(states, pushed, results, k - 1);
        lemma_push_paint_keeps_table(states[k - 1], pushed[k - 1], states[k], results[k - 1]);
        let id = (results[0]->Ok_0).0 as int;
        assert(states[k].paints@.subrange(0, states[k - 1].paints@.len() as int)[id]
            == states[k].paints@[id]);
    }
}

/// However many other pushes come between, pushing a paint again returns
/// the id that its first push gave.
pub proof fn lemma_push_paint_idempotent_over_pushes(
    states: Seq<Scene>,
    pushed: Seq<Paint>,
    results: Seq<Result<PaintId, PaintError>>,
)
    requires
        pushed.len() >= 2,
        states.len() == pushed.len() + 1,
        results.len() == pushed.len(),
        forall|i: int|
            0 <= i < pushed.len() ==> push_paint_post(
                #[trigger] states[i],
                pushed[i],
                states[i + 1],
                results[i],
            ),
        results[0] is Ok,
        pushed.last() == pushed[0],
    ensures
        results.last() == results[0],
{
    let n = pushed.len() as int;
    lemma_pushed_paint_stays(states, pushed, results, n - 1);
    assert(push_paint_post(states[n - 1], pushed[n - 1], states[n], results[n - 1]));
    lemma_push_paint_returns_known_id(
        states[n - 1],
        pushed[0],
        (results[0]->Ok_0).0,
        states[n],
        results[n - 1],
    );
}

/// What object `j` offers the `k`-th tile of the z-buffer.
pub open spec fn object_depth(s: Scene, opts: RenderOptions, j: int, k: int) -> int {
    tiler_depth(prepared_object(s, opts, j), s.view_box, j, object_occludes(s, j), k)
}

/// After objects `0..n` the z-buffer holds, for each tile, one more than the
/// greatest index of an occluding object that covers the tile fully, or 0
/// where none does; the order of the objects does not enter.
pub proof fn lemma_scene_depth_is_frontmost(s: Scene, opts: RenderOptions, n: int, k: int)
    requires
        0 <= n <= s.objects@.len(),
        s.objects_wf(),
        0 <= k < grid_len(tile_grid(s.view_box)),
    ensures
        scene_depth(s, opts, n).len() == grid_len(tile_grid(s.view_box)),
        forall|j: int| 0 <= j < n ==> #[trigger] object_depth(s, opts, j, k) <= scene_depth(s, opts, n)[k],
        scene_depth(s, opts, n)[k] == 0 || exists|j: int|
            0 <= j < n && scene_depth(s, opts, n)[k] == j + 1 && #[trigger] object_depth(s, opts, j, k) == j + 1,
    decreases n,
{
    if n > 0 {
        lemma_scene_depth_is_frontmost(s, opts, n - 1, k);
        let d = scene_depth(s, opts, n - 1);
        let e = scene_depth(s, opts, n);
        assert(e[k] == if object_depth(s, opts, n - 1, k) > d[k] {
            object_depth(s, opts, n - 1, k) as u32
        } else {
            d[k]
        });
        if object_depth(s, opts, n - 1, k) > d[k] {
            assert(object_depth(s, opts, n - 1, k) == n);
        }
    }
}

/// A tile entry that a build pass drops is hidden: an occluding object of
/// greater index covers that tile fully.
pub proof fn lemma_dropped_tile_is_hidden(s: Scene, opts: RenderOptions, i: int, k: int)
    requires
        s.objects_wf(),
        0 <= i < s.objects@.len(),
        0 <= k < grid_len(tile_grid(s.view_box)),
        scene_depth(s, opts, s.objects@.len() as int)[k] > i + 1,
    ensures
        exists|j: int|
            i < j < s.objects@.len() && object_occludes(s, j) && #[trigger] coverage(
                prepared_object(s, opts, j),
                s.view_box,
                grid_tile_x(tile_grid(s.view_box), k),
                grid_tile_y(tile_grid(s.view_box), k),
            ) == TileCoverage::Full,
{
    lemma_scene_depth_is_frontmost(s, opts, s.objects@.len() as int, k);
}

/// Of two occluding objects that both cover a tile fully, the later one wins
/// it: the z-buffer holds its index plus one there.
pub proof fn lemma_later_fill_wins(s: Scene, opts: RenderOptions, k: int)
    requires
        s.objects_wf(),
        s.objects@.len() == 2,
        0 <= k < grid_len(tile_grid(s.view_box)),
        object_occludes(s, 0),
        object_occludes(s, 1),
        coverage(
            prepared_object(s, opts, 0),
            s.view_box,
            grid_tile_x(tile_grid(s.view_box), k),
            grid_tile_y(tile_grid(s.view_box), k),
        ) == TileCoverage::Full,
        coverage(
            prepared_object(s, opts, 1),
            s.view_box,
            grid_tile_x(tile_grid(s.view_box), k),
            grid_tile_y(tile_grid(s.view_box), k),
        ) == TileCoverage::Full,
    ensures
        scene_depth(s, opts, 2)[k] == 2,
{
    assert(object_depth(s, opts, 1, k) == 2);
    lemma_scene_depth_is_frontmost(s, opts, 2, k);
}

/// An empty view box has no pixel, so no object gets a tile entry.
pub proof fn lemma_empty_view_box_has_no_tiles(s: Scene, opts: RenderOptions, i: int)
    requires
        0 <= i < s.objects@.len(),
        s.view_box.is_empty_spec(),
    ensures
        built_tiles(s, opts, i).len() == 0,
{
    let o = prepared_object(s, opts, i);
    assert forall|tx: int, ty: int|
        #[trigger] coverage(o, s.view_box, tx, ty) == TileCoverage::Empty by {
        assert(!exists|j: int| 0 <= j < 256 && #[trigger] crate::tiles::pixel_covered(o, s.view_box, tx, ty, j));
    }
    let d = scene_depth(s, opts, s.objects@.len() as int);
    crate::tiles::lemma_no_coverage_no_tiles(o, s.view_box, i, d, d.len() as int);
}

} // verus!
