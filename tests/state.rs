use hull_picking::modes::{FontSource, MeshDrawIndexedIndirect};
use hull_picking::remote::{HashI32State, RemoteMeshData};
use hull_picking::scene::SceneState;

#[test]
fn id_set_starts_empty() {
    let s = HashI32State::new();
    assert!(s.values.is_empty());
    assert!(!s.is_dirty);
}

#[test]
fn remote_mesh_data_cleans() {
    let mut d = RemoteMeshData::new();
    assert!(!d.is_dirty);
    d.is_dirty = true;
    d.load_level = 3;
    d.decoded_v = vec![1, 2, 3];
    d.decoded_t = vec![9];
    d.clean();
    assert!(!d.is_dirty);
    assert_eq!(d.load_level, 0);
    assert!(d.decoded_v.is_empty());
    assert!(d.decoded_i.is_empty());
    assert!(d.decoded_b.is_empty());
    assert!(d.decoded_t.is_empty());
}

#[test]
fn font_source_copies_bytes() {
    let f = FontSource::new(&[1, 2, 3]);
    assert_eq!(f.font_bytes, vec![1, 2, 3]);
    assert!(FontSource::new(&[]).font_bytes.is_empty());
}

#[test]
fn indirect_draw_arguments() {
    let d = MeshDrawIndexedIndirect { vertex_count: 3, instance_count: 1, base_index: 0, vertex_offset: 0, base_instance: 0 };
    assert_eq!(d.vertex_count, 3);
}

#[test]
fn scene_has_numbered_shards() {
    let s = SceneState::new(8, false);
    assert_eq!(s.gpu_mems.len(), 8);
    for (k, g) in s.gpu_mems.iter().enumerate() {
        assert_eq!(g.id as usize, k);
        assert!(!g.keeps_vertices);
    }
    assert_eq!(s.get_triangle_by_index(5, 9), None);
    assert_eq!(s.get_triangle_by_index(1, 0), None);
}
