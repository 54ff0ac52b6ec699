use std::collections::HashMap;

use hull_picking::geometry::{Point, Triangle};
use hull_picking::materials::{type_to_color, HIDDEN_HULL_MAT, SELECTION_HULL_MAT, TY_HULL_OTHERS, TY_HULL_PLATES};
use hull_picking::shard::{triangle_span, BoundingBox, GpuMem, MeshVertex};

fn pt(x: i64, y: i64, z: i64) -> Point {
    Point { x, y, z }
}

fn bbox(k: i64) -> BoundingBox {
    BoundingBox { min: pt(-k, -k, -k), max: pt(k, k, k) }
}

/// Vertices 0..4 belong to object 1, which is not indexed; 5..7 form the
/// triangle of object 5.
fn sample_vertices() -> Vec<MeshVertex> {
    let mut v = Vec::new();
    for k in 0..5 {
        v.push(MeshVertex::new(k * 100, 0, 0, 0, 1));
    }
    v.push(MeshVertex::new(0, 0, 0, 900, 5));
    v.push(MeshVertex::new(10000, 0, 0, 900, 5));
    v.push(MeshVertex::new(0, 10000, 0, 900, 5));
    v
}

fn sample_index() -> HashMap<i32, (i32, i32, i32)> {
    let mut m = HashMap::new();
    m.insert(5, (5, 7, 1));
    m.insert(9, (6, 20, 0));
    m
}

fn sample_shard(keeps_vertices: bool) -> GpuMem {
    let mut g = GpuMem::new(2, keeps_vertices);
    g.set_data(
        sample_vertices(),
        vec![0, 1, 2, 3, 4, 5, 6, 7],
        vec![7; 8],
        bbox(20000),
        sample_index(),
        vec![bbox(1), bbox(2)],
    );
    g
}

#[test]
fn triangle_runs() {
    assert_eq!(triangle_span(0), None);
    assert_eq!(triangle_span(1), None);
    assert_eq!(triangle_span(2), Some((2, 3, 4)));
    assert_eq!(triangle_span(3), Some((2, 3, 4)));
    assert_eq!(triangle_span(4), Some((2, 3, 4)));
    assert_eq!(triangle_span(5), Some((5, 6, 7)));
    assert_eq!(triangle_span(usize::MAX - 1), None);
}

#[test]
fn local_lookup_finds_indexed_triangle() {
    let g = sample_shard(true);
    let expected = Triangle::new(pt(0, 0, 0), pt(10000, 0, 0), pt(0, 10000, 0));
    for i in 5..8 {
        assert_eq!(g.get_triangle_by_vertex_index(i), Some((5, expected)));
    }
}

#[test]
fn local_lookup_misses() {
    let g = sample_shard(true);
    // object 1 is not indexed
    assert_eq!(g.get_triangle_by_vertex_index(3), None);
    // run 8..10 is past the end
    assert_eq!(g.get_triangle_by_vertex_index(8), None);
    assert_eq!(g.get_triangle_by_vertex_index(0), None);
    assert_eq!(g.get_triangle_by_vertex_index(1), None);
}

#[test]
fn residency_modes_agree() {
    let local = sample_shard(true);
    let remote = sample_shard(false);
    assert!(remote.v.is_empty());
    assert!(remote.i.is_empty());
    let verts = sample_vertices();
    for i in 2..8usize {
        let (a, b, c) = triangle_span(i).unwrap();
        let fetched = vec![verts[a], verts[b], verts[c]];
        assert_eq!(remote.get_triangle_by_fetched(i, &fetched), local.get_triangle_by_vertex_index(i));
    }
    assert_eq!(remote.get_triangle_by_vertex_index(5), None);
}

#[test]
fn failed_fetch_gives_nothing() {
    let remote = sample_shard(false);
    let verts = sample_vertices();
    assert_eq!(remote.get_triangle_by_fetched(5, &vec![verts[5], verts[6]]), None);
    assert_eq!(remote.get_triangle_by_fetched(5, &Vec::new()), None);
    assert_eq!(remote.get_triangle_by_fetched(1, &vec![verts[0], verts[1], verts[2]]), None);
}

#[test]
fn out_of_range_vertex_is_a_miss() {
    let mut g = GpuMem::new(0, true);
    let mut m = HashMap::new();
    m.insert(4, (2, 4, 0));
    g.set_data(
        vec![
            MeshVertex::default(),
            MeshVertex::default(),
            MeshVertex::new(1 << 40, 0, 0, 0, 4),
            MeshVertex::new(0, 1, 0, 0, 4),
            MeshVertex::new(0, 0, 1, 0, 4),
        ],
        vec![],
        vec![0; 5],
        bbox(1),
        m,
        vec![],
    );
    assert_eq!(g.get_triangle_by_vertex_index(3), None);
}

#[test]
fn set_data_replaces_content() {
    let mut g = sample_shard(true);
    assert!(g.is_renderable);
    assert!(g.is_metadata_dirty);
    g.reset_dirty_metadata();
    assert!(!g.is_metadata_dirty);
    g.set_data(vec![], vec![], vec![], bbox(3), HashMap::new(), vec![]);
    assert_eq!(g.get_triangle_by_vertex_index(5), None);
    assert_eq!(g.get_bbx_by_oid(5), None);
    assert_eq!(g.tot_loc_bbx, bbox(3));
}

#[test]
fn bounding_box_by_slot() {
    let g = sample_shard(true);
    assert_eq!(g.get_bbx_by_oid(5), Some(bbox(2)));
    assert_eq!(g.get_bbx_by_oid(9), Some(bbox(1)));
    assert_eq!(g.get_bbx_by_oid(1), None);
}

#[test]
fn select_and_hide_paint_ranges() {
    let mut g = sample_shard(true);
    assert!(g.select_by_id(5));
    assert_eq!(g.metadata, vec![7, 7, 7, 7, 7, SELECTION_HULL_MAT, SELECTION_HULL_MAT, SELECTION_HULL_MAT]);
    assert!(g.hide_by_id(5));
    assert_eq!(g.metadata, vec![7, 7, 7, 7, 7, HIDDEN_HULL_MAT, HIDDEN_HULL_MAT, HIDDEN_HULL_MAT]);
    // unknown object, and an object whose range runs past the slots
    assert!(!g.select_by_id(1));
    assert!(!g.hide_by_id(9));
    assert_eq!(g.metadata, vec![7, 7, 7, 7, 7, HIDDEN_HULL_MAT, HIDDEN_HULL_MAT, HIDDEN_HULL_MAT]);
}

#[test]
fn default_material_from_part_type() {
    let mut g = sample_shard(true);
    // material index 900 packs part type 9: outer plates
    assert_eq!(g.get_default_material_by_id(5), type_to_color(9));
    assert!(g.set_default_by_id(5));
    assert_eq!(g.metadata[5], 86);
    assert_eq!(g.get_default_material_by_id(1), 0);
    let remote = sample_shard(false);
    assert_eq!(remote.get_default_material_by_id(5), 0);
}

#[test]
fn part_type_colors() {
    assert_eq!(type_to_color(0), 74);
    assert_eq!(type_to_color(17), 74);
    assert_eq!(type_to_color(8), TY_HULL_PLATES);
    assert_eq!(type_to_color(9), 86);
    assert_eq!(type_to_color(10), TY_HULL_OTHERS);
    assert_eq!(type_to_color(-1), TY_HULL_OTHERS);
}

#[test]
fn object_lookup_uses_nearest_vertex_run() {
    // object 6 holds the runs 2..4 and 5..7
    let mut g = GpuMem::new(0, true);
    let v = vec![
        MeshVertex::default(),
        MeshVertex::default(),
        MeshVertex::new(0, 0, 0, 0, 6),
        MeshVertex::new(100, 0, 0, 0, 6),
        MeshVertex::new(0, 100, 0, 0, 6),
        MeshVertex::new(1000, 1000, 0, 0, 6),
        MeshVertex::new(1100, 1000, 0, 0, 6),
        MeshVertex::new(1000, 1100, 0, 0, 6),
    ];
    let mut m = HashMap::new();
    m.insert(6, (2, 7, 0));
    g.set_data(v.clone(), vec![], vec![0; 8], bbox(1), m, vec![]);
    let near_first = g.get_triangle_by_object(6, pt(10, 10, 0)).unwrap();
    assert_eq!(near_first, (6, Triangle::new(pt(0, 0, 0), pt(100, 0, 0), pt(0, 100, 0))));
    let near_second = g.get_triangle_by_object(6, pt(1090, 1010, 0)).unwrap();
    assert_eq!(near_second, (6, Triangle::new(pt(1000, 1000, 0), pt(1100, 1000, 0), pt(1000, 1100, 0))));
    assert_eq!(g.get_triangle_by_object(7, pt(0, 0, 0)), None);
    assert_eq!(g.object_vertex_range(6), Some((2, 7)));
    // the same lookups from fetched vertices
    let remote = {
        let mut r = GpuMem::new(0, false);
        let mut m = HashMap::new();
        m.insert(6, (2, 7, 0));
        r.set_data(v.clone(), vec![], vec![0; 8], bbox(1), m, vec![]);
        r
    };
    let fetched = v[2..8].to_vec();
    assert_eq!(remote.get_triangle_by_object_fetched(6, pt(10, 10, 0), &fetched), Some(near_first));
    assert_eq!(remote.get_triangle_by_object_fetched(6, pt(1090, 1010, 0), &fetched), Some(near_second));
    assert_eq!(remote.get_triangle_by_object_fetched(6, pt(10, 10, 0), &v[2..7].to_vec()), None);
}

#[test]
fn object_run_outside_object_is_a_miss() {
    // object 8 starts mid-run: its nearest vertex's run begins before it
    let mut g = GpuMem::new(0, true);
    let v = vec![
        MeshVertex::default(),
        MeshVertex::default(),
        MeshVertex::default(),
        MeshVertex::new(5, 5, 5, 0, 8),
        MeshVertex::new(6, 5, 5, 0, 8),
    ];
    let mut m = HashMap::new();
    m.insert(8, (3, 4, 0));
    g.set_data(v, vec![], vec![0; 5], bbox(1), m, vec![]);
    assert_eq!(g.get_triangle_by_object(8, pt(5, 5, 5)), None);
}
