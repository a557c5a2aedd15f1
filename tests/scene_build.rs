use scene_tiler::geometry::{Contour, Outline, Point, Rect, Transform2D};
use scene_tiler::paint::{ColorU, Paint, PaintId, ShaderId};
use scene_tiler::scene::{
    scene_tile_index, PaintError, PathObject, PathObjectKind, RenderOptions, RenderTransform,
    Scene,
};
use scene_tiler::tiles::{BuiltObject, TileCoverage, TileEntry};
use scene_tiler::z_buffer::ZBuffer;

fn pt(x: i32, y: i32) -> Point {
    Point { x, y }
}

fn square(x0: i32, y0: i32, x1: i32, y1: i32) -> Outline {
    Outline {
        contours: vec![Contour { points: vec![pt(x0, y0), pt(x1, y0), pt(x1, y1), pt(x0, y1)] }],
    }
}

fn paint(r: u8, g: u8, b: u8, a: u8) -> Paint {
    Paint { color: ColorU { r, g, b, a } }
}

fn plain_options() -> RenderOptions {
    RenderOptions { transform: RenderTransform::Identity, dilation: pt(0, 0) }
}

fn scene_100() -> Scene {
    let mut scene = Scene::new();
    scene.view_box = Rect::new(0, 0, 100, 100);
    scene.bounds = Rect::new(0, 0, 100, 100);
    scene
}

fn add(scene: &mut Scene, outline: Outline, p: Paint, kind: PathObjectKind) {
    let id = scene.push_paint(&p).unwrap();
    scene.objects.push(PathObject::new(outline, id, String::new(), kind));
}

fn build_seq(scene: &Scene, options: RenderOptions) -> (Vec<BuiltObject>, ZBuffer) {
    let mut z = ZBuffer::new(scene.view_box);
    let built = scene.build_objects_sequentially(options, &mut z);
    (built, z)
}

fn build_par(scene: &Scene, options: RenderOptions) -> (Vec<BuiltObject>, ZBuffer) {
    let mut z = ZBuffer::new(scene.view_box);
    let built = scene.build_objects(options, &mut z);
    (built, z)
}

fn tile_set(b: &BuiltObject) -> Vec<(i32, i32)> {
    b.tiles.iter().map(|t| (t.tile_x, t.tile_y)).collect()
}

#[test]
fn push_paint_twice_returns_same_id() {
    let mut scene = Scene::new();
    let red = paint(255, 0, 0, 255);
    let first = scene.push_paint(&red);
    let second = scene.push_paint(&red);
    assert_eq!(first, Ok(PaintId(0)));
    assert_eq!(second, Ok(PaintId(0)));
    assert_eq!(scene.paints.len(), 1);
}

#[test]
fn push_paint_numbers_distinct_paints_in_order() {
    let mut scene = Scene::new();
    assert_eq!(scene.push_paint(&paint(1, 2, 3, 4)), Ok(PaintId(0)));
    assert_eq!(scene.push_paint(&paint(4, 3, 2, 1)), Ok(PaintId(1)));
    assert_eq!(scene.push_paint(&paint(1, 2, 3, 4)), Ok(PaintId(0)));
    assert_eq!(scene.push_paint(&paint(1, 2, 3, 5)), Ok(PaintId(2)));
    assert_eq!(scene.paints, vec![paint(1, 2, 3, 4), paint(4, 3, 2, 1), paint(1, 2, 3, 5)]);
}

#[test]
fn push_paint_reports_full_table() {
    let mut scene = Scene::new();
    for i in 0..65536u32 {
        let p = paint((i >> 8) as u8, i as u8, 7, 255);
        assert_eq!(scene.push_paint(&p), Ok(PaintId(i as u16)));
    }
    assert_eq!(scene.push_paint(&paint(0, 0, 8, 255)), Err(PaintError::CapacityExceeded));
    assert_eq!(scene.push_paint(&paint(0, 5, 7, 255)), Ok(PaintId(5)));
    assert_eq!(scene.paints.len(), 65536);
}

#[test]
fn build_shaders_follows_paint_table() {
    let mut scene = Scene::new();
    scene.push_paint(&paint(10, 20, 30, 40)).unwrap();
    scene.push_paint(&paint(50, 60, 70, 80)).unwrap();
    let shaders = scene.build_shaders();
    assert_eq!(shaders.len(), 2);
    assert_eq!(shaders[0].fill_color, ColorU { r: 10, g: 20, b: 30, a: 40 });
    assert_eq!(shaders[1].fill_color, ColorU { r: 50, g: 60, b: 70, a: 80 });
}

#[test]
fn small_square_covers_only_its_tile() {
    let mut scene = scene_100();
    add(&mut scene, square(5, 5, 15, 15), paint(0, 0, 255, 255), PathObjectKind::Fill);
    let (built, _) = build_seq(&scene, plain_options());
    assert_eq!(built.len(), 1);
    assert_eq!(
        built[0].tiles,
        vec![TileEntry { tile_x: 0, tile_y: 0, coverage: TileCoverage::Partial }]
    );
}

#[test]
fn square_across_tiles_is_full_inside_and_partial_at_edges() {
    let mut scene = scene_100();
    add(&mut scene, square(8, 8, 40, 40), paint(0, 0, 255, 255), PathObjectKind::Fill);
    let (built, _) = build_seq(&scene, plain_options());
    let tiles = &built[0].tiles;
    assert_eq!(tiles.len(), 9);
    let full: Vec<(i32, i32)> = tiles
        .iter()
        .filter(|t| t.coverage == TileCoverage::Full)
        .map(|t| (t.tile_x, t.tile_y))
        .collect();
    assert_eq!(full, vec![(1, 1)]);
    assert_eq!(tiles[0], TileEntry { tile_x: 0, tile_y: 0, coverage: TileCoverage::Partial });
}

#[test]
fn front_object_hides_back_object() {
    let mut scene = scene_100();
    add(&mut scene, square(0, 0, 32, 32), paint(255, 0, 0, 255), PathObjectKind::Fill);
    add(&mut scene, square(0, 0, 32, 32), paint(0, 255, 0, 255), PathObjectKind::Fill);
    let (seq, zs) = build_seq(&scene, plain_options());
    let (par, zp) = build_par(&scene, plain_options());
    assert!(seq[0].tiles.is_empty());
    assert_eq!(tile_set(&seq[1]), vec![(0, 0), (1, 0), (0, 1), (1, 1)]);
    assert!(seq[1].tiles.iter().all(|t| t.coverage == TileCoverage::Full));
    assert_eq!(seq[1].shader, ShaderId(1));
    assert_eq!(zs.depth_at(0, 0), 2);
    assert_eq!(zs.depth_at(2, 2), 0);
    assert_eq!(seq, par);
    assert_eq!(zs.depth, zp.depth);
}

#[test]
fn translucent_or_stroked_objects_hide_nothing() {
    let mut scene = scene_100();
    add(&mut scene, square(0, 0, 32, 32), paint(255, 0, 0, 255), PathObjectKind::Fill);
    add(&mut scene, square(0, 0, 32, 32), paint(0, 255, 0, 128), PathObjectKind::Fill);
    add(&mut scene, square(0, 0, 32, 32), paint(0, 0, 255, 255), PathObjectKind::Stroke);
    let (built, z) = build_seq(&scene, plain_options());
    assert_eq!(built[0].tiles.len(), 4);
    assert_eq!(built[1].tiles.len(), 4);
    assert_eq!(built[2].tiles.len(), 4);
    assert_eq!(z.depth_at(1, 1), 1);
}

#[test]
fn sequential_build_repeats_exactly() {
    let mut scene = scene_100();
    add(&mut scene, square(3, 3, 60, 20), paint(1, 1, 1, 255), PathObjectKind::Fill);
    add(&mut scene, square(20, 10, 90, 70), paint(2, 2, 2, 255), PathObjectKind::Fill);
    let (a, za) = build_seq(&scene, plain_options());
    let (b, zb) = build_seq(&scene, plain_options());
    assert_eq!(a, b);
    assert_eq!(za.depth, zb.depth);
}

#[test]
fn parallel_build_matches_sequential_build() {
    let mut scene = scene_100();
    for i in 0..20i32 {
        let p = paint(i as u8, 0, 0, if i % 3 == 0 { 200 } else { 255 });
        let kind = if i % 4 == 0 { PathObjectKind::Stroke } else { PathObjectKind::Fill };
        add(&mut scene, square(i * 3, i * 2, i * 3 + 40, i * 2 + 35), p, kind);
    }
    let opts = RenderOptions {
        transform: RenderTransform::Transform2D(Transform2D::translation(-5, 3)),
        dilation: pt(2, 1),
    };
    let (seq, zs) = build_seq(&scene, opts);
    let (par, zp) = build_par(&scene, opts);
    assert_eq!(seq, par);
    assert_eq!(zs.depth, zp.depth);
}

#[test]
fn build_keeps_object_order() {
    let mut scene = scene_100();
    add(&mut scene, square(0, 0, 10, 10), paint(1, 0, 0, 255), PathObjectKind::Fill);
    add(&mut scene, square(50, 50, 60, 60), paint(2, 0, 0, 255), PathObjectKind::Fill);
    add(&mut scene, square(80, 0, 90, 10), paint(1, 0, 0, 255), PathObjectKind::Stroke);
    let (built, _) = build_par(&scene, plain_options());
    assert_eq!(built.len(), 3);
    for (i, b) in built.iter().enumerate() {
        assert_eq!(b.object_index as usize, i);
    }
    assert_eq!(built[0].shader, ShaderId(0));
    assert_eq!(built[1].shader, ShaderId(1));
    assert_eq!(built[2].shader, ShaderId(0));
    assert_eq!(tile_set(&built[1]), vec![(3, 3)]);
    assert_eq!(tile_set(&built[2]), vec![(5, 0)]);
}

#[test]
fn outline_outside_view_box_has_no_tiles() {
    let mut scene = scene_100();
    add(&mut scene, square(150, 10, 170, 30), paint(1, 0, 0, 255), PathObjectKind::Fill);
    add(&mut scene, square(10, -40, 30, -5), paint(1, 0, 0, 255), PathObjectKind::Fill);
    let (built, _) = build_seq(&scene, plain_options());
    assert!(built[0].tiles.is_empty());
    assert!(built[1].tiles.is_empty());
    let grown = RenderOptions { transform: RenderTransform::Identity, dilation: pt(30, 30) };
    let (built, _) = build_seq(&scene, grown);
    assert!(built[0].tiles.is_empty());
    assert!(built[1].tiles.is_empty());
}

#[test]
fn dilation_does_not_pull_outside_outline_into_view() {
    let mut scene = Scene::new();
    scene.view_box = Rect::new(0, 0, 16, 16);
    add(&mut scene, square(17, 0, 27, 10), paint(1, 0, 0, 255), PathObjectKind::Fill);
    let grown = RenderOptions { transform: RenderTransform::Identity, dilation: pt(10, 10) };
    let (built, z) = build_seq(&scene, grown);
    assert!(built[0].tiles.is_empty());
    assert_eq!(z.depth_at(0, 0), 0);
}

#[test]
fn transform_stage_clips_then_dilates() {
    let mut scene = Scene::new();
    scene.view_box = Rect::new(0, 0, 8, 4);
    let plain = scene.apply_render_options(&square(2, 1, 4, 2), &plain_options());
    let expected_plain: Vec<bool> = (0..32).map(|k| (k / 8) == 1 && (k % 8 == 2 || k % 8 == 3)).collect();
    assert_eq!(plain, expected_plain);
    let grown_opts = RenderOptions { transform: RenderTransform::Identity, dilation: pt(1, 1) };
    let grown = scene.apply_render_options(&square(2, 1, 4, 2), &grown_opts);
    let expected_grown: Vec<bool> = (0..32).map(|k| (k / 8) <= 2 && (1..=4).contains(&(k % 8))).collect();
    assert_eq!(grown, expected_grown);
    let far = scene.apply_render_options(&square(200, 200, 210, 210), &grown_opts);
    assert!(far.iter().all(|b| !*b));
}

#[test]
fn dilating_an_l_shape_keeps_its_tiles() {
    let mut scene = scene_100();
    let l_shape = Outline {
        contours: vec![Contour {
            points: vec![pt(0, 0), pt(64, 0), pt(64, 16), pt(16, 16), pt(16, 64), pt(0, 64)],
        }],
    };
    add(&mut scene, l_shape, paint(1, 0, 0, 128), PathObjectKind::Fill);
    let (plain, _) = build_seq(&scene, plain_options());
    let grown_opts = RenderOptions { transform: RenderTransform::Identity, dilation: pt(3, 5) };
    let (grown, _) = build_seq(&scene, grown_opts);
    let grown_tiles = tile_set(&grown[0]);
    assert_eq!(tile_set(&plain[0]).len(), 7);
    for t in tile_set(&plain[0]) {
        assert!(grown_tiles.contains(&t));
    }
    assert!(grown_tiles.contains(&(1, 1)));
}

#[test]
fn triangle_beside_corner_has_no_tiles() {
    let mut scene = Scene::new();
    scene.view_box = Rect::new(0, 0, 16, 16);
    let triangle = Outline { contours: vec![Contour { points: vec![pt(-1, 40), pt(40, -1), pt(40, 40)] }] };
    add(&mut scene, triangle, paint(1, 0, 0, 255), PathObjectKind::Fill);
    let (built, z) = build_seq(&scene, plain_options());
    assert!(built[0].tiles.is_empty());
    assert_eq!(z.depth_at(0, 0), 0);
}

#[test]
fn ring_hole_shows_what_lies_behind() {
    let mut scene = scene_100();
    add(&mut scene, square(0, 0, 64, 64), paint(255, 0, 0, 255), PathObjectKind::Fill);
    let mut ring = square(0, 0, 64, 64);
    ring.contours.push(Contour { points: vec![pt(16, 16), pt(48, 16), pt(48, 48), pt(16, 48)] });
    add(&mut scene, ring, paint(0, 255, 0, 255), PathObjectKind::Fill);
    let (built, z) = build_seq(&scene, plain_options());
    assert_eq!(z.depth_at(1, 1), 1);
    assert_eq!(z.depth_at(0, 0), 2);
    assert!(built[0].tiles.contains(&TileEntry { tile_x: 1, tile_y: 1, coverage: TileCoverage::Full }));
    assert!(!built[0].tiles.iter().any(|t| (t.tile_x, t.tile_y) == (0, 0)));
    assert!(!built[1].tiles.iter().any(|t| (t.tile_x, t.tile_y) == (1, 1)));
    assert_eq!(built[1].tiles.len(), 12);
}

#[test]
fn repeated_corner_changes_nothing() {
    let mut plain = scene_100();
    add(&mut plain, square(0, 0, 40, 40), paint(1, 0, 0, 255), PathObjectKind::Fill);
    add(&mut plain, square(0, 0, 32, 32), paint(2, 0, 0, 255), PathObjectKind::Fill);
    let mut repeated = scene_100();
    add(&mut repeated, square(0, 0, 40, 40), paint(1, 0, 0, 255), PathObjectKind::Fill);
    let doubled = Outline {
        contours: vec![Contour { points: vec![pt(0, 0), pt(32, 0), pt(32, 0), pt(32, 32), pt(0, 32), pt(0, 32)] }],
    };
    add(&mut repeated, doubled, paint(2, 0, 0, 255), PathObjectKind::Fill);
    let (a, za) = build_seq(&plain, plain_options());
    let (b, zb) = build_seq(&repeated, plain_options());
    assert_eq!(a, b);
    assert_eq!(za.depth, zb.depth);
    assert_eq!(zb.depth_at(0, 0), 2);
}

#[test]
fn transform_moves_outline_out_of_view() {
    let mut scene = scene_100();
    add(&mut scene, square(5, 5, 15, 15), paint(1, 0, 0, 255), PathObjectKind::Fill);
    let opts = RenderOptions {
        transform: RenderTransform::Transform2D(Transform2D::translation(200, 0)),
        dilation: pt(0, 0),
    };
    let (built, _) = build_seq(&scene, opts);
    assert!(built[0].tiles.is_empty());
}

#[test]
fn transform_moves_outline_to_other_tiles() {
    let mut scene = scene_100();
    add(&mut scene, square(5, 5, 15, 15), paint(1, 0, 0, 255), PathObjectKind::Fill);
    let opts = RenderOptions {
        transform: RenderTransform::Transform2D(Transform2D::translation(20, 16)),
        dilation: pt(0, 0),
    };
    let (built, _) = build_seq(&scene, opts);
    assert_eq!(tile_set(&built[0]), vec![(1, 1), (2, 1)]);
}

#[test]
fn scaling_transform_grows_outline() {
    let mut scene = scene_100();
    add(&mut scene, square(1, 1, 2, 2), paint(1, 0, 0, 255), PathObjectKind::Fill);
    let scale = Transform2D { m11: 16, m12: 0, m21: 0, m22: 16, tx: 0, ty: 0 };
    let opts = RenderOptions { transform: RenderTransform::Transform2D(scale), dilation: pt(0, 0) };
    let (built, _) = build_seq(&scene, opts);
    assert_eq!(
        built[0].tiles,
        vec![TileEntry { tile_x: 1, tile_y: 1, coverage: TileCoverage::Full }]
    );
}

#[test]
fn dilation_keeps_and_adds_tiles() {
    let mut scene = scene_100();
    add(&mut scene, square(20, 20, 30, 30), paint(1, 0, 0, 255), PathObjectKind::Fill);
    let (plain, _) = build_seq(&scene, plain_options());
    let grown_opts = RenderOptions { transform: RenderTransform::Identity, dilation: pt(4, 4) };
    let (grown, _) = build_seq(&scene, grown_opts);
    assert_eq!(tile_set(&plain[0]), vec![(1, 1)]);
    let grown_tiles = tile_set(&grown[0]);
    assert_eq!(grown_tiles, vec![(1, 1), (2, 1), (1, 2), (2, 2)]);
    for t in tile_set(&plain[0]) {
        assert!(grown_tiles.contains(&t));
    }
}

#[test]
fn empty_view_box_gives_no_tiles() {
    let mut scene = Scene::new();
    add(&mut scene, square(0, 0, 50, 50), paint(1, 0, 0, 255), PathObjectKind::Fill);
    let (built, z) = build_seq(&scene, plain_options());
    assert_eq!(built.len(), 1);
    assert!(built[0].tiles.is_empty());
    assert!(z.depth.is_empty());
}

#[test]
fn degenerate_outline_has_no_coverage() {
    let mut scene = scene_100();
    let line = Outline {
        contours: vec![Contour { points: vec![pt(10, 10), pt(10, 50)] }, Contour { points: vec![] }],
    };
    add(&mut scene, line, paint(1, 0, 0, 255), PathObjectKind::Fill);
    let (built, _) = build_seq(&scene, plain_options());
    assert!(built[0].tiles.is_empty());
}

#[test]
fn scene_tile_index_is_row_major() {
    let rect = Rect::new(-2, 3, 5, 9);
    assert_eq!(scene_tile_index(-2, 3, rect), 0);
    assert_eq!(scene_tile_index(4, 3, rect), 6);
    assert_eq!(scene_tile_index(-2, 4, rect), 7);
    assert_eq!(scene_tile_index(1, 5, rect), 17);
}

#[test]
fn z_buffer_grid_rounds_out_to_tiles() {
    let z = ZBuffer::new(Rect::new(-20, 5, 33, 16));
    assert_eq!(z.grid, Rect::new(-2, 0, 3, 1));
    assert_eq!(z.depth.len(), 5);
    assert!(z.depth.iter().all(|d| *d == 0));
}

#[test]
fn clip_and_dilate_points() {
    let o = square(-10, 5, 120, 50);
    assert_eq!(o.copy(), o);
    let moved = o.transform(&Transform2D { m11: 2, m12: 1, m21: 0, m22: -1, tx: 7, ty: 0 });
    assert_eq!(moved.contours[0].points[0], pt(-8, -5));
    let huge = square(0, 0, 1, 1).transform(&Transform2D {
        m11: i32::MAX, m12: i32::MAX, m21: 0, m22: 1, tx: i32::MAX, ty: 0,
    });
    assert_eq!(huge.contours[0].points[2], pt(i32::MAX, 1));
}

#[test]
fn path_object_keeps_its_parts() {
    let o = PathObject::new(square(0, 0, 1, 1), PaintId(3), String::from("a"), PathObjectKind::Stroke);
    assert_eq!(*o.outline(), square(0, 0, 1, 1));
    assert_eq!(o.paint, PaintId(3));
    assert_eq!(o.name, "a");
    assert_eq!(o.kind, PathObjectKind::Stroke);
}

#[test]
fn svg_export_lists_objects() {
    let mut scene = scene_100();
    let red = scene.push_paint(&paint(255, 0, 0, 255)).unwrap();
    let blue = scene.push_paint(&paint(0, 128, 255, 16)).unwrap();
    scene.objects.push(PathObject::new(
        square(5, 5, 15, 15),
        red,
        String::from("sq"),
        PathObjectKind::Fill,
    ));
    let mut two = square(-3, 0, 7, 2);
    two.contours.push(Contour { points: vec![pt(1, 1)] });
    scene.objects.push(PathObject::new(two, blue, String::new(), PathObjectKind::Stroke));
    let expected = "<svg xmlns=\"http://www.w3.org/2000/svg\" viewBox=\"0 0 100 100\">\n\
                    \x20   <path id=\"sq\" fill=\"#ff0000ff\" d=\"M 5 5 L 15 5 L 15 15 L 5 15 z\" />\n\
                    \x20   <path fill=\"#0080ff10\" d=\"M -3 0 L 7 0 L 7 2 L -3 2 z M 1 1 z\" />\n\
                    </svg>\n";
    assert_eq!(scene.to_svg(), expected);
}

#[test]
fn svg_export_of_empty_scene() {
    let mut scene = Scene::new();
    scene.view_box = Rect::new(-10, -20, 30, 25);
    assert_eq!(
        scene.to_svg(),
        "<svg xmlns=\"http://www.w3.org/2000/svg\" viewBox=\"-10 -20 40 45\">\n</svg>\n"
    );
}
