use hull_picking::arith::{isqrt, le_wide, mul_wide};
use hull_picking::geometry::{
    face_angle_admits, find_nearest, in_coord_range, project_point_to_line, ray_query_point, Point, Ray,
    Triangle, COORD_LIMIT,
};

fn pt(x: i64, y: i64, z: i64) -> Point {
    Point { x, y, z }
}

#[test]
fn triangle_normal_is_edge_cross_product() {
    let t = Triangle::new(pt(0, 0, 0), pt(10, 0, 0), pt(0, 10, 0));
    assert_eq!(t.normal, pt(0, 0, 100));
    let u = Triangle::from_coords(1, 2, 3, 4, 6, 8, 2, 2, 5);
    // (3,4,5) x (1,0,2) = (8, -1, -4)
    assert_eq!(u.normal, pt(8, -1, -4));
    assert_eq!(u.p[1], pt(4, 6, 8));
}

#[test]
fn projection_inside_segment() {
    let r = project_point_to_line(pt(2, 2, 0), pt(0, 0, 0), pt(10, 0, 0));
    // (2,0,0) - a = (2,0,0), (2,0,0) - b = (-8,0,0)
    assert_eq!(r, Some((pt(2, 0, 0), 4, -16)));
}

#[test]
fn projection_rounds_toward_start() {
    // t = 3/10 of the way from (0,0,0) to (10,10,0): each coordinate 10*60/200 = 3
    let r = project_point_to_line(pt(5, 1, 0), pt(0, 0, 0), pt(10, 10, 0));
    assert_eq!(r, Some((pt(3, 3, 0), 8, -42)));
}

#[test]
fn projection_outside_segment_is_given_with_its_dot() {
    assert_eq!(project_point_to_line(pt(12, 1, 0), pt(0, 0, 0), pt(10, 0, 0)), Some((pt(12, 0, 0), 1, 24)));
    assert_eq!(project_point_to_line(pt(-1, 1, 0), pt(0, 0, 0), pt(10, 0, 0)), Some((pt(-1, 0, 0), 1, 11)));
    // projections on an endpoint have a zero dot product
    assert_eq!(project_point_to_line(pt(0, 5, 0), pt(0, 0, 0), pt(10, 0, 0)), Some((pt(0, 0, 0), 25, 0)));
    assert_eq!(project_point_to_line(pt(10, 5, 0), pt(0, 0, 0), pt(10, 0, 0)), Some((pt(10, 0, 0), 25, 0)));
}

#[test]
fn projection_far_outside_does_not_overflow() {
    let far = (1i64 << 40) - 1;
    let r = project_point_to_line(pt(far, 0, 0), pt(0, 0, 0), pt(1, 0, 0));
    assert_eq!(r, Some((pt(far, 0, 0), 0, (far as i128) * (far as i128 - 1))));
}

#[test]
fn projection_on_degenerate_segment_rejected() {
    assert_eq!(project_point_to_line(pt(1, 1, 1), pt(3, 3, 3), pt(3, 3, 3)), None);
}

#[test]
fn outside_projection_is_never_an_edge_candidate() {
    // (12,1,0) projects beyond b on ab; the other edges are far
    let t = Triangle::new(pt(0, 0, 0), pt(10, 0, 0), pt(0, 10, 0));
    let n = find_nearest(pt(12, 1, 0), &t);
    assert_ne!(n.edge.map(|e| e.0), Some(pt(12, 0, 0)));
}

#[test]
fn nearest_features_of_triangle() {
    let t = Triangle::new(pt(0, 0, 0), pt(10000, 0, 0), pt(0, 10000, 0));
    let n = find_nearest(pt(2000, 2000, 0), &t);
    assert_eq!(n.vertex, pt(0, 0, 0));
    assert_eq!(n.vertex_dist2, 8_000_000);
    // the edges ab and ca are both 2000 away; ab comes first
    assert_eq!(n.edge, Some((pt(2000, 0, 0), 4_000_000)));
}

#[test]
fn nearest_vertex_prefers_first_on_tie() {
    let t = Triangle::new(pt(0, 0, 0), pt(10, 0, 0), pt(0, 10, 0));
    let n = find_nearest(pt(5, 0, 0), &t);
    assert_eq!(n.vertex, pt(0, 0, 0));
    assert_eq!(n.vertex_dist2, 25);
}

#[test]
fn nearest_edge_absent_beyond_corner() {
    let t = Triangle::new(pt(0, 0, 0), pt(10, 0, 0), pt(0, 10, 0));
    let n = find_nearest(pt(-5, -20, 0), &t);
    assert_eq!(n.vertex, pt(0, 0, 0));
    assert_eq!(n.vertex_dist2, 425);
    assert_eq!(n.edge, None);
    // seen from below the corner, the far edge still has an inner foot
    let m = find_nearest(pt(-5, -5, 0), &t);
    assert_eq!(project_point_to_line(pt(-5, -5, 0), pt(10, 0, 0), pt(0, 10, 0)), Some((pt(5, 5, 0), 200, -50)));
    assert_eq!(m.edge, Some((pt(5, 5, 0), 200)));
}

#[test]
fn integer_square_roots() {
    assert_eq!(isqrt(0), 0);
    assert_eq!(isqrt(1), 1);
    assert_eq!(isqrt(15), 3);
    assert_eq!(isqrt(16), 4);
    assert_eq!(isqrt(8_000_000), 2828);
    assert_eq!(isqrt(u128::MAX), u64::MAX as u128);
}

#[test]
fn wide_products() {
    assert_eq!(mul_wide(3, 5), (0, 15));
    assert_eq!(mul_wide(u128::MAX, u128::MAX), (u128::MAX - 1, 1));
    assert_eq!(mul_wide(1 << 64, 1 << 64), (1, 0));
    assert!(le_wide((1, 0), (1, 0)));
    assert!(le_wide((0, u128::MAX), (1, 0)));
    assert!(!le_wide((1, 1), (1, 0)));
}

#[test]
fn face_angle_filter() {
    // parallel and anti-parallel faces are rejected
    assert!(!face_angle_admits(pt(0, 0, 1), pt(0, 0, 5)));
    assert!(!face_angle_admits(pt(0, 0, 1), pt(0, 0, -3)));
    // perpendicular faces pass
    assert!(face_angle_admits(pt(0, 0, 1), pt(1, 0, 0)));
    // 45 degrees passes (cos^2 = 1/2 <= 3/4)
    assert!(face_angle_admits(pt(0, 0, 1), pt(0, 1, 1)));
    // about 18 degrees is rejected (cos^2 = 9/10 > 3/4)
    assert!(!face_angle_admits(pt(0, 0, 3), pt(0, 1, 3)));
    // a degenerate face has no direction and passes
    assert!(face_angle_admits(pt(0, 0, 0), pt(0, 0, 1)));
    // large normals do not overflow
    let big = (1i64 << 61) - 1;
    assert!(!face_angle_admits(pt(big, big, big), pt(big, big, big)));
    assert!(face_angle_admits(pt(big, 0, 0), pt(0, big, -big)));
}

#[test]
fn ray_reprojection_straight_down() {
    let ray = Ray { origin: pt(2000, 2000, 10000), direction: pt(0, 0, -1) };
    assert!(ray.is_valid());
    assert_eq!(ray_query_point(&ray, pt(2000, 2000, 0)), pt(2000, 2000, 0));
    // a sample off the ray is moved onto it at the sample's distance
    assert_eq!(ray_query_point(&ray, pt(2000, 8000, 2000)), pt(2000, 2000, 0));
}

#[test]
fn ray_reprojection_scaled_direction() {
    let ray = Ray { origin: pt(0, 0, 0), direction: pt(3 << 20, 4 << 20, 0) };
    // distance 10000 along (3,4,0)/5
    assert_eq!(ray_query_point(&ray, pt(0, 0, 10000)), pt(6000, 8000, 0));
}

#[test]
fn ray_validity() {
    assert!(!Ray { origin: pt(0, 0, 0), direction: pt(0, 0, 0) }.is_valid());
    assert!(!Ray { origin: pt(COORD_LIMIT, 0, 0), direction: pt(0, 0, 1) }.is_valid());
    assert!(!Ray { origin: pt(0, 0, 0), direction: pt(1 << 30, 0, 0) }.is_valid());
    assert!(in_coord_range(pt(COORD_LIMIT - 1, 0, -(COORD_LIMIT - 1))));
    assert!(!in_coord_range(pt(0, -COORD_LIMIT, 0)));
}
