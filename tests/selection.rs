use std::collections::{HashMap, HashSet};

use hull_picking::geometry::Point;
use hull_picking::materials::{HIDDEN_HULL_MAT, SELECTION_HULL_MAT, TY_HULL_OUTERPLATES, TY_HULL_PLATES};
use hull_picking::modes::ActionType;
use hull_picking::scene::SceneState;
use hull_picking::shard::{BoundingBox, MeshVertex};

/// Shard 0 holds object 3 (vertices 2..4, a plate) and object 4
/// (vertices 5..7, an outer plate); every material slot starts at 7.
fn scene() -> SceneState {
    let mut s = SceneState::new(8, true);
    let mut v = vec![MeshVertex::default(); 2];
    for k in 0..3 {
        v.push(MeshVertex::new(k, 0, 0, 800, 3));
    }
    for k in 0..3 {
        v.push(MeshVertex::new(0, k, 0, 900, 4));
    }
    let mut index = HashMap::new();
    index.insert(3, (2, 4, 0));
    index.insert(4, (5, 7, 0));
    let b = BoundingBox { min: Point { x: 0, y: 0, z: 0 }, max: Point { x: 3, y: 3, z: 0 } };
    s.gpu_mems[0].set_data(v, vec![], vec![7; 8], b, index, vec![b]);
    s
}

fn meta(s: &SceneState) -> Vec<i32> {
    s.gpu_mems[0].metadata.clone()
}

fn set(ids: &[i32]) -> HashSet<i32> {
    ids.iter().copied().collect()
}

#[test]
fn select_replaces_previous_selection() {
    let mut s = scene();
    s.select_by_id(3, 0);
    assert_eq!(meta(&s), vec![7, 7, 1, 1, 1, 7, 7, 7]);
    assert_eq!(s.selected_hull_ids, set(&[3]));
    s.select_by_id(4, 0);
    let p = TY_HULL_PLATES;
    assert_eq!(meta(&s), vec![7, 7, p, p, p, SELECTION_HULL_MAT, SELECTION_HULL_MAT, SELECTION_HULL_MAT]);
    assert_eq!(s.selected_hull_ids, set(&[4]));
}

#[test]
fn select_in_unknown_shard_only_clears() {
    let mut s = scene();
    s.select_by_id(3, 0);
    s.select_by_id(3, 9);
    assert!(s.selected_hull_ids.is_empty());
    assert_eq!(meta(&s)[2], TY_HULL_PLATES);
}

#[test]
fn hide_and_unhide() {
    let mut s = scene();
    s.select_by_id(4, 0);
    s.hide_by_id(3, 0);
    assert_eq!(meta(&s)[2..5].to_vec(), vec![HIDDEN_HULL_MAT; 3]);
    assert_eq!(s.hidden_hull_ids, set(&[3]));
    assert_eq!(s.selected_hull_ids, set(&[4]));
    s.unhide_all();
    assert_eq!(meta(&s)[2..5].to_vec(), vec![TY_HULL_PLATES; 3]);
    assert!(s.hidden_hull_ids.is_empty());
    assert_eq!(s.selected_hull_ids, set(&[4]));
    s.hide_by_id(4, 0);
    s.unhide_by_id(4);
    assert_eq!(meta(&s)[5..8].to_vec(), vec![TY_HULL_OUTERPLATES; 3]);
    assert!(s.hidden_hull_ids.is_empty());
}

#[test]
fn unselect_by_id_restores_default() {
    let mut s = scene();
    s.select_by_id(4, 0);
    s.unselect_by_id(4);
    assert_eq!(meta(&s)[5..8].to_vec(), vec![TY_HULL_OUTERPLATES; 3]);
    assert!(s.selected_hull_ids.is_empty());
    // an id no shard holds stays where it is
    s.selected_hull_ids.insert(42);
    s.unselect_by_id(42);
    assert_eq!(s.selected_hull_ids, set(&[42]));
    s.unselect_all();
    assert_eq!(s.selected_hull_ids, set(&[42]));
}

#[test]
fn bulk_select_and_hide() {
    let mut s = scene();
    s.select_by_ids(set(&[3, 4, 99]));
    assert_eq!(meta(&s), vec![7, 7, 1, 1, 1, 1, 1, 1]);
    assert_eq!(s.selected_hull_ids, set(&[3, 4]));
    s.hide_by_ids(set(&[4]));
    assert_eq!(meta(&s), vec![7, 7, 1, 1, 1, 0, 0, 0]);
    assert_eq!(s.hidden_hull_ids, set(&[4]));
    s.hide_by_ids(set(&[3]));
    assert_eq!(meta(&s)[5..8].to_vec(), vec![TY_HULL_OUTERPLATES; 3]);
    assert_eq!(meta(&s)[2..5].to_vec(), vec![HIDDEN_HULL_MAT; 3]);
    assert_eq!(s.hidden_hull_ids, set(&[3]));
}

#[test]
fn click_actions_on_picked_object() {
    let mut s = scene();
    assert!(!s.screen_oid(ActionType::Select, 4, 0));
    assert_eq!(s.selected_hull_ids, set(&[4]));
    assert!(s.screen_oid(ActionType::Hide, 3, 0));
    assert_eq!(s.hidden_hull_ids, set(&[3]));
    let before = meta(&s);
    assert!(!s.screen_oid(ActionType::Evaluate, 4, 0));
    assert!(!s.screen_oid(ActionType::Hide, 0, 0));
    assert_eq!(meta(&s), before);
    // an object no shard holds changes nothing but still reports hiding
    assert!(s.screen_oid(ActionType::Hide, 100, 0));
    assert!(s.screen_oid(ActionType::Hide, 3, 8));
    assert_eq!(meta(&s), before);
    assert_eq!(s.hidden_hull_ids, set(&[3]));
    assert!(s.apply_action(ActionType::Hide, 4, 0));
    assert_eq!(s.hidden_hull_ids, set(&[3, 4]));
}
