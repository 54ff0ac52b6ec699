use std::collections::HashMap;

use hull_picking::capture::{CaptureError, CaptureState, CaptureTarget, ScreenCapture};
use hull_picking::codec::pack;
use hull_picking::geometry::{Point, Ray};
use hull_picking::pick::PickOutcome;
use hull_picking::scene::SceneState;
use hull_picking::shard::{BoundingBox, MeshVertex};
use hull_picking::snap::SnapMode;

#[test]
fn new_capture_is_idle() {
    let c = ScreenCapture::new();
    assert!(!c.is_captured());
    assert_eq!(c.state(), CaptureState::Idle);
    assert!(c.image().is_empty());
}

#[test]
fn nothing_is_read_while_idle_or_pending() {
    let mut c = ScreenCapture::new();
    assert!(!c.poll_map());
    assert!(!c.consume(vec![1, 2, 3, 4]));
    assert!(c.image().is_empty());
    // a stray completion does not make an idle capture ready
    c.completion_sender().try_send(true).unwrap();
    assert!(!c.poll_map());
    assert_eq!(c.state(), CaptureState::Idle);
    c.get_capture_buffer(100, 50, 64).unwrap();
    assert!(!c.poll_map());
    assert_eq!(c.state(), CaptureState::CapturePending);
    assert!(!c.consume(vec![0; 4]));
}

#[test]
fn begin_capture_pads_rows_and_reallocates_on_resize() {
    let mut c = ScreenCapture::new();
    let t = c.get_capture_buffer(100, 50, 64).unwrap();
    assert_eq!(t, CaptureTarget { padded_width: 128, height: 50, reallocate: true, buffer_bytes: 128 * 50 * 16 });
    assert!(c.is_captured());
    assert!(c.copy_to_host());
    c.completion_sender().try_send(true).unwrap();
    assert!(c.poll_map());
    assert!(c.consume(vec![0; 128 * 50 * 4]));
    let t2 = c.get_capture_buffer(100, 50, 64).unwrap();
    assert!(!t2.reallocate);
    assert_eq!(t2.padded_width, 128);
}

#[test]
fn begin_capture_rejected_while_in_flight() {
    let mut c = ScreenCapture::new();
    c.get_capture_buffer(64, 64, 16).unwrap();
    assert_eq!(c.get_capture_buffer(64, 64, 16), Err(CaptureError::Busy));
    assert!(c.copy_to_host());
    assert_eq!(c.state(), CaptureState::MapRequested);
    assert_eq!(c.get_capture_buffer(80, 80, 16), Err(CaptureError::Busy));
    assert_eq!(c.state(), CaptureState::MapRequested);
    assert!(!c.copy_to_host());
}

#[test]
fn bad_alignment_rejected() {
    let mut c = ScreenCapture::new();
    assert_eq!(c.get_capture_buffer(64, 64, 0), Err(CaptureError::BadShape));
    assert_eq!(c.get_capture_buffer(usize::MAX, 2, 16), Err(CaptureError::BadShape));
    assert_eq!(c.state(), CaptureState::Idle);
}

#[test]
fn map_waits_for_completion() {
    let mut c = ScreenCapture::new();
    c.get_capture_buffer(32, 32, 32).unwrap();
    c.copy_to_host();
    assert!(!c.poll_map());
    assert_eq!(c.state(), CaptureState::MapRequested);
    c.completion_sender().try_send(true).unwrap();
    assert!(c.poll_map());
    assert_eq!(c.state(), CaptureState::Ready);
    assert!(c.poll_map());
}

#[test]
fn failed_map_ends_capture() {
    let mut c = ScreenCapture::new();
    c.get_capture_buffer(32, 32, 32).unwrap();
    c.copy_to_host();
    c.completion_sender().try_send(false).unwrap();
    assert!(!c.poll_map());
    assert_eq!(c.state(), CaptureState::Idle);
    assert!(c.image().is_empty());
}

#[test]
fn pick_through_capture() {
    let mut scene = SceneState::new(8, true);
    let mut v = vec![MeshVertex::default(); 5];
    v.push(MeshVertex::new(0, 0, 0, 0, 5));
    v.push(MeshVertex::new(10000, 0, 0, 0, 5));
    v.push(MeshVertex::new(0, 10000, 0, 0, 5));
    let mut index = HashMap::new();
    index.insert(5, (5, 7, 0));
    let b = BoundingBox { min: Point { x: 0, y: 0, z: 0 }, max: Point { x: 1, y: 1, z: 1 } };
    scene.gpu_mems[2].set_data(v, vec![], vec![0; 8], b, index, vec![b]);

    let mut c = ScreenCapture::new();
    let t = c.get_capture_buffer(40, 40, 16).unwrap();
    assert_eq!(t.padded_width, 48);
    c.copy_to_host();
    c.completion_sender().try_send(true).unwrap();
    assert!(c.poll_map());
    let mut image = vec![0; 48 * 40 * 4];
    let b = 48 * 20 * 4 + 20 * 4;
    image[b] = 2000;
    image[b + 1] = 2000;
    image[b + 3] = pack(5, 2) as i32;
    assert!(c.consume(image));
    let ray = Ray { origin: Point { x: 2000, y: 2000, z: 9000 }, direction: Point { x: 0, y: 0, z: -1 } };
    let r = c.pick(20, 20, SnapMode::Disabled, &ray, &scene);
    assert_eq!(r, PickOutcome { active_id: 5, pack_id: 2, point: Some(Point { x: 2000, y: 2000, z: 0 }) });
}

#[test]
fn map_events_only_move_a_requested_map() {
    let mut c = ScreenCapture::new();
    assert!(!c.apply_map_event(Some(true)));
    assert_eq!(c.state(), CaptureState::Idle);
    c.get_capture_buffer(16, 16, 16).unwrap();
    assert!(!c.apply_map_event(Some(true)));
    assert_eq!(c.state(), CaptureState::CapturePending);
    c.copy_to_host();
    assert!(!c.apply_map_event(None));
    assert_eq!(c.state(), CaptureState::MapRequested);
    assert!(c.apply_map_event(Some(true)));
    assert_eq!(c.state(), CaptureState::Ready);
    assert!(c.apply_map_event(Some(false)));
    assert_eq!(c.state(), CaptureState::Ready);
    assert!(c.consume(vec![0; 16 * 16 * 4]));
    assert_eq!(c.image().len(), 16 * 16 * 4);
    c.get_capture_buffer(16, 16, 16).unwrap();
    c.copy_to_host();
    assert!(!c.apply_map_event(Some(false)));
    assert_eq!(c.state(), CaptureState::Idle);
}

#[test]
fn image_of_wrong_size_is_refused() {
    let mut c = ScreenCapture::new();
    c.get_capture_buffer(16, 16, 16).unwrap();
    c.copy_to_host();
    assert!(c.apply_map_event(Some(true)));
    assert!(!c.consume(vec![0; 16 * 16 * 4 - 1]));
    assert_eq!(c.state(), CaptureState::Ready);
    assert!(c.image().is_empty());
    assert!(c.consume(vec![0; 16 * 16 * 4]));
    assert_eq!(c.state(), CaptureState::Idle);
}
