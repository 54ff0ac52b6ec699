use std::collections::HashMap;

use hull_picking::codec::pack;
use hull_picking::geometry::{Point, Ray};
use hull_picking::pick::{pick_window, resolve_pick, PickOutcome};
use hull_picking::scene::SceneState;
use hull_picking::shard::MeshVertex;
use hull_picking::snap::SnapMode;

const W: usize = 64;
const H: usize = 64;

fn pt(x: i64, y: i64, z: i64) -> Point {
    Point { x, y, z }
}

fn blank_image() -> Vec<i32> {
    vec![0; W * H * 4]
}

fn set_texel(image: &mut Vec<i32>, col: usize, row: usize, p: Point, packed: u32) {
    let b = W * row * 4 + col * 4;
    image[b] = p.x as i32;
    image[b + 1] = p.y as i32;
    image[b + 2] = p.z as i32;
    image[b + 3] = packed as i32;
}

/// Eight shards; the only geometry of shard 2 is the triangle
/// (0,0,0)-(10,0,0)-(0,10,0) in metres of object 5. Like every vertex
/// buffer, it starts with two vertices that begin no triangle.
fn single_triangle_scene() -> SceneState {
    let mut scene = SceneState::new(8, true);
    let mut v = vec![MeshVertex::default(); 2];
    v.push(MeshVertex::new(0, 0, 0, 0, 5));
    v.push(MeshVertex::new(10000, 0, 0, 0, 5));
    v.push(MeshVertex::new(0, 10000, 0, 0, 5));
    let mut index = HashMap::new();
    index.insert(5, (2, 4, 0));
    let b = hull_picking::shard::BoundingBox { min: pt(0, 0, 0), max: pt(10000, 10000, 0) };
    scene.gpu_mems[2].set_data(v, vec![], vec![0; 5], b, index, vec![b]);
    scene
}

/// The triangle covers the quadrant at and beyond (28, 28); its texels all
/// hold the point (2, 2, 0) and the packed id 502.
fn single_triangle_image() -> Vec<i32> {
    let mut image = blank_image();
    for row in 28..H {
        for col in 28..W {
            set_texel(&mut image, col, row, pt(2000, 2000, 0), pack(5, 2));
        }
    }
    image
}

fn ray_down() -> Ray {
    Ray { origin: pt(2000, 2000, 50000), direction: pt(0, 0, -1) }
}

#[test]
fn end_to_end_single_triangle_vertex_snap() {
    let scene = single_triangle_scene();
    let image = single_triangle_image();
    let r = resolve_pick(&image, W, W, H, 30, 30, SnapMode::Vertex, &ray_down(), &scene);
    assert_eq!(r.active_id, 5);
    assert_eq!(r.pack_id, 2);
    assert_eq!(r.point, Some(pt(0, 0, 0)));
    let p = r.point.unwrap();
    let dx = (2000 - p.x) as f64 / 1000.0;
    let dy = (2000 - p.y) as f64 / 1000.0;
    let d = (dx * dx + dy * dy).sqrt();
    assert!((d - 2.83).abs() < 0.01);
}

#[test]
fn end_to_end_single_triangle_edge_snap() {
    let scene = single_triangle_scene();
    let image = single_triangle_image();
    let r = resolve_pick(&image, W, W, H, 30, 30, SnapMode::Edge, &ray_down(), &scene);
    assert_eq!(r.active_id, 5);
    assert_eq!(r.point, Some(pt(2000, 0, 0)));
}

#[test]
fn disabled_snap_reports_center_texel() {
    let scene = single_triangle_scene();
    let image = single_triangle_image();
    let r = resolve_pick(&image, W, W, H, 30, 30, SnapMode::Disabled, &ray_down(), &scene);
    assert_eq!(r, PickOutcome { active_id: 5, pack_id: 2, point: Some(pt(2000, 2000, 0)) });
}

#[test]
fn blank_image_resolves_to_nothing() {
    let scene = single_triangle_scene();
    let image = blank_image();
    let modes = [SnapMode::Vertex, SnapMode::Edge, SnapMode::Face, SnapMode::Disabled, SnapMode::LineDim, SnapMode::NotSet];
    for &mode in modes.iter() {
        for &(x, y) in [(0i64, 0i64), (5, 40), (11, 11), (30, 30), (52, 52), (53, 30), (63, 63), (-4, 20)].iter() {
            let r = resolve_pick(&image, W, W, H, x, y, mode, &ray_down(), &scene);
            assert_eq!(r, PickOutcome { active_id: 0, pack_id: 0, point: None });
        }
    }
}

#[test]
fn cursor_near_border_clears() {
    let scene = single_triangle_scene();
    let image = single_triangle_image();
    for &(x, y) in [(10i64, 30i64), (30, 10), (54, 30), (30, 54)].iter() {
        let r = resolve_pick(&image, W, W, H, x, y, SnapMode::Vertex, &ray_down(), &scene);
        assert_eq!(r, PickOutcome { active_id: 0, pack_id: 0, point: None });
    }
    assert!(pick_window(&image, W, W, H, 11, 11).is_some());
    assert!(pick_window(&image, W, W, H, 53, 53).is_some());
    assert!(pick_window(&image, W, W, H, 54, 53).is_none());
}

#[test]
fn malformed_image_clears() {
    let scene = single_triangle_scene();
    let mut image = single_triangle_image();
    image.pop();
    let r = resolve_pick(&image, W, W, H, 30, 30, SnapMode::Vertex, &ray_down(), &scene);
    assert_eq!(r, PickOutcome { active_id: 0, pack_id: 0, point: None });
    let image = single_triangle_image();
    // a viewport wider than the row stride does not fit
    assert!(pick_window(&image, W, W + 1, H, 30, 30).is_none());
}

#[test]
fn padded_rows_are_indexed_by_stride() {
    let scene = single_triangle_scene();
    // viewport 40 wide inside rows of 64 texels
    let image = single_triangle_image();
    let r = resolve_pick(&image, W, 40, H, 28, 30, SnapMode::Disabled, &ray_down(), &scene);
    assert_eq!(r.active_id, 5);
    let win = pick_window(&image, W, 40, H, 28, 30).unwrap();
    assert_eq!(win.len(), 441);
    assert_eq!(win[220].id, 5);
    assert_eq!(win[220].pack_id, 2);
    // the window's first texel is (18, 20): background
    assert_eq!(win[0].id, 0);
}

/// Two coplanar triangles of one flat quad, in shard 0: vertices 2..4 and
/// 5..7 of objects 3 and 4.
fn flat_quad_scene() -> SceneState {
    let mut scene = SceneState::new(8, true);
    let v = vec![
        MeshVertex::default(),
        MeshVertex::default(),
        MeshVertex::new(0, 0, 0, 0, 3),
        MeshVertex::new(10000, 0, 0, 0, 3),
        MeshVertex::new(10000, 10000, 0, 0, 3),
        MeshVertex::new(0, 0, 0, 0, 4),
        MeshVertex::new(10000, 10000, 0, 0, 4),
        MeshVertex::new(0, 10000, 0, 0, 4),
    ];
    let mut index = HashMap::new();
    index.insert(3, (2, 4, 0));
    index.insert(4, (5, 7, 0));
    let b = hull_picking::shard::BoundingBox { min: pt(0, 0, 0), max: pt(10000, 10000, 0) };
    scene.gpu_mems[0].set_data(v, vec![], vec![0; 8], b, index, vec![b]);
    scene
}

#[test]
fn flat_quad_gives_no_cross_triangle_snap() {
    let scene = flat_quad_scene();
    let mut image = blank_image();
    for row in 0..H {
        for col in 0..W {
            let id = if col < 30 { 3 } else { 4 };
            set_texel(&mut image, col, row, pt(5000, 5000, 0), pack(id, 0));
        }
    }
    let ray = Ray { origin: pt(5000, 5000, 20000), direction: pt(0, 0, -1) };
    let r = resolve_pick(&image, W, W, H, 31, 31, SnapMode::Vertex, &ray, &scene);
    assert_eq!(r, PickOutcome { active_id: 4, pack_id: 0, point: None });
}

#[test]
fn folded_faces_do_snap() {
    // the second triangle stands upright on the shared edge
    let mut scene = SceneState::new(8, true);
    let v = vec![
        MeshVertex::default(),
        MeshVertex::default(),
        MeshVertex::new(0, 0, 0, 0, 3),
        MeshVertex::new(10000, 0, 0, 0, 3),
        MeshVertex::new(10000, 10000, 0, 0, 3),
        MeshVertex::new(0, 0, 0, 0, 4),
        MeshVertex::new(10000, 10000, 0, 0, 4),
        MeshVertex::new(5000, 5000, 8000, 0, 4),
    ];
    let mut index = HashMap::new();
    index.insert(3, (2, 4, 0));
    index.insert(4, (5, 7, 0));
    let b = hull_picking::shard::BoundingBox { min: pt(0, 0, 0), max: pt(10000, 10000, 8000) };
    scene.gpu_mems[0].set_data(v, vec![], vec![0; 8], b, index, vec![b]);
    let mut image = blank_image();
    for row in 0..H {
        for col in 0..W {
            let id = if col < 29 { 3 } else { 4 };
            set_texel(&mut image, col, row, pt(6000, 3000, 0), pack(id, 0));
        }
    }
    let ray = Ray { origin: pt(6000, 3000, 20000), direction: pt(0, 0, -1) };
    let r = resolve_pick(&image, W, W, H, 31, 31, SnapMode::Vertex, &ray, &scene);
    // the candidate comes from a centre on the first triangle, nearest
    // vertex (10000, 0, 0) to the query point (6000, 3000, 0)
    assert_eq!(r.point, Some(pt(10000, 0, 0)));
    assert_eq!(r.active_id, 3);
}
