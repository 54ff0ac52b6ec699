//! Snap resolution: from a window of decoded picking texels around the
//! cursor to the snapped point and the object under it.
use vstd::prelude::*;
use crate::geometry::{
    closer_edge, dist2, dot3, edge_view, face_angle_admits, faces_steep, find_nearest, lemma_normal_bounded,
    nearest_edge_pts, nearest_vertex_pts, normal_of, ray_query_point, spec_query_point, within, Point,
    Ray, Triangle, SAMPLE_LIMIT,
};
use crate::shard::{tri_view, tri_wf};

verus! {

/// What the cursor should lock onto.
#[derive(Clone, Copy, Debug, PartialEq, Eq, Structural)]
pub enum SnapMode {
    Vertex,
    Edge,
    Face,
    Disabled,
    LineDim,
    NotSet,
}

/// One decoded texel of the picking image: the object id and shard packed
/// there, and the world point in millimetres.
#[derive(Clone, Copy, Debug, PartialEq, Eq, Structural)]
pub struct PixelData {
    pub id: u32,
    pub pack_id: u32,
    pub point_on_tri: Point,
}

/// Side of the square window analysed around the cursor.
pub const WINDOW: usize = 21;

/// Number of texels in the analysed window.
pub const WINDOW_TEXELS: usize = 441;

/// Number of sample centres in the window (a 7 by 7 grid).
pub const SAMPLES: usize = 49;

/// The best candidates found so far, as mathematical values: the vertex
/// with its squared distance and the id of the texel that gave it, and the
/// edge point with its squared distance.
pub struct SnapModel {
    pub vertex: Option<(Point, int, u32)>,
    pub edge: Option<((int, int, int), int)>,
}

/// The best candidates found by the window analysis.
#[derive(Clone, Copy, Debug, PartialEq, Eq)]
pub struct SnapResult {
    pub vertex: Option<(Point, u128, u32)>,
    pub edge: Option<(Point, u128)>,
}

pub open spec fn snap_view(r: SnapResult) -> SnapModel {
    SnapModel {
        vertex: match r.vertex {
            Some((p, d, id)) => Some((p, d as int, id)),
            None => None,
        },
        edge: edge_view(r.edge),
    }
}

pub open spec fn no_candidates() -> SnapModel {
    SnapModel { vertex: None, edge: None }
}

/// The query point on `ray` for a sample, as a point.
pub open spec fn query_at(ray: Ray, sample: Point) -> Point {
    let c = spec_query_point(ray, sample);
    Point { x: c.0 as i64, y: c.1 as i64, z: c.2 as i64 }
}

/// Keeps the vertex candidate unless the offered one is strictly nearer.
pub open spec fn offer_vertex(acc: SnapModel, v: Point, d: int, id: u32) -> SnapModel {
    match acc.vertex {
        Some(best) => if d < best.1 {
            SnapModel { vertex: Some((v, d, id)), edge: acc.edge }
        } else {
            acc
        },
        None => SnapModel { vertex: Some((v, d, id)), edge: acc.edge },
    }
}

/// Keeps the edge candidate unless the offered one is strictly nearer.
pub open spec fn offer_edge(acc: SnapModel, e: Option<((int, int, int), int)>) -> SnapModel {
    SnapModel { vertex: acc.vertex, edge: closer_edge(acc.edge, e) }
}

/// Offers the nearest vertex and the nearest edge point of `a b c` to `q`.
pub open spec fn offer_triangle(acc: SnapModel, q: Point, a: Point, b: Point, c: Point, id: u32) -> SnapModel {
    offer_edge(
        offer_vertex(acc, nearest_vertex_pts(q, a, b, c), dist2(q, nearest_vertex_pts(q, a, b, c)), id),
        nearest_edge_pts(q, a, b, c),
    )
}

/// The triangle lookups of a window as mathematical values.
pub open spec fn tris_view(tris: Seq<Option<(i32, Triangle)>>) -> Seq<Option<(i32, Point, Point, Point)>> {
    Seq::new(tris.len(), |i: int| tri_view(tris[i]))
}

/// Row of sample centre `n` in the window.
pub open spec fn sample_row(n: int) -> int {
    1 + 3 * (n / 7)
}

/// Column of sample centre `n` in the window.
pub open spec fn sample_col(n: int) -> int {
    1 + 3 * (n % 7)
}

/// Row offset of neighbour `k` (0 to 7, row by row, the centre left out).
pub open spec fn nb_dr(k: int) -> int {
    if k < 3 {
        -1
    } else if k < 5 {
        0
    } else {
        1
    }
}

/// Column offset of neighbour `k`.
pub open spec fn nb_dc(k: int) -> int {
    if k == 0 || k == 3 || k == 5 {
        -1
    } else if k == 1 || k == 6 {
        0
    } else {
        1
    }
}

pub open spec fn center_index(n: int) -> int {
    sample_row(n) * 21 + sample_col(n)
}

pub open spec fn neighbor_index(n: int, k: int) -> int {
    (sample_row(n) + nb_dr(k)) * 21 + sample_col(n) + nb_dc(k)
}

/// One neighbour of one sample centre. When the centre lies on no triangle,
/// a neighbour on a triangle offers that triangle's nearest features to its
/// own query point. When the centre lies on a triangle, a neighbour on no
/// triangle offers the centre triangle's edge point, and a neighbour on a
/// triangle meeting the centre's at 30 degrees or more offers the centre
/// triangle's features; a flatter neighbour offers nothing.
pub open spec fn neighbor_step(
    win: Seq<PixelData>,
    tris: Seq<Option<(i32, Point, Point, Point)>>,
    ray: Ray,
    acc: SnapModel,
    n: int,
    k: int,
) -> SnapModel {
    let c = center_index(n);
    let nb = neighbor_index(n, k);
    match tris[c] {
        None => match tris[nb] {
            None => acc,
            Some((_, a, b, d)) => offer_triangle(acc, query_at(ray, win[nb].point_on_tri), a, b, d, win[nb].id),
        },
        Some((_, a, b, d)) => {
            let qc = query_at(ray, win[c].point_on_tri);
            match tris[nb] {
                None => offer_edge(acc, nearest_edge_pts(qc, a, b, d)),
                Some((_, a2, b2, d2)) => if faces_steep(normal_of(a, b, d), normal_of(a2, b2, d2)) {
                    offer_triangle(acc, qc, a, b, d, win[c].id)
                } else {
                    acc
                },
            }
        },
    }
}

/// The candidates after the first `k` neighbours of sample centre `n`.
pub open spec fn neighbors_upto(
    win: Seq<PixelData>,
    tris: Seq<Option<(i32, Point, Point, Point)>>,
    ray: Ray,
    acc: SnapModel,
    n: int,
    k: nat,
) -> SnapModel
    decreases k,
{
    if k == 0 {
        acc
    } else {
        neighbor_step(win, tris, ray, neighbors_upto(win, tris, ray, acc, n, (k - 1) as nat), n, k - 1)
    }
}

/// The candidates after the first `n` sample centres, row by row.
pub open spec fn samples_upto(
    win: Seq<PixelData>,
    tris: Seq<Option<(i32, Point, Point, Point)>>,
    ray: Ray,
    n: nat,
) -> SnapModel
    decreases n,
{
    if n == 0 {
        no_candidates()
    } else {
        neighbors_upto(win, tris, ray, samples_upto(win, tris, ray, (n - 1) as nat), n - 1, 8)
    }
}

/// The inputs of the window analysis are well formed: a full window of
/// texels with in-range points, one lookup per texel, and a valid ray.
pub open spec fn window_inputs_wf(win: Seq<PixelData>, tris: Seq<Option<(i32, Triangle)>>, ray: Ray) -> bool {
    &&& win.len() == 441
    &&& tris.len() == 441
    &&& ray.wf()
    &&& forall|i: int| 0 <= i < 441 ==> within((#[trigger] win[i]).point_on_tri, SAMPLE_LIMIT as int)
    &&& forall|i: int| 0 <= i < 441 ==> tri_wf(#[trigger] tris[i])
}

fn offer_vertex_exec(acc: &mut SnapResult, v: Point, d: u128, id: u32)
    ensures
        snap_view(*final(acc)) == offer_vertex(snap_view(*old(acc)), v, d as int, id),
{
    match acc.vertex {
        Some(best) => {
            if d < best.1 {
                acc.vertex = Some((v, d, id));
            }
        },
        None => {
            acc.vertex = Some((v, d, id));
        },
    }
}

fn offer_edge_exec(acc: &mut SnapResult, e: Option<(Point, u128)>)
    ensures
        snap_view(*final(acc)) == offer_edge(snap_view(*old(acc)), edge_view(e)),
{
    match e {
        None => {},
        Some(c) => match acc.edge {
            None => {
                acc.edge = e;
            },
            Some(k) => {
                if c.1 < k.1 {
                    acc.edge = e;
                }
            },
        },
    }
}

/// Scans the 7 by 7 grid of sample centres, three texels apart, and the
/// eight neighbours of each, and keeps the nearest vertex and edge
/// candidates. `win` is the window row by row and `tris` the triangle
/// under each of its texels.
#[verifier::rlimit(60)]
pub fn analyze_texels(win: &Vec<PixelData>, tris: &Vec<Option<(i32, Triangle)>>, ray: &Ray) -> (r: SnapResult)
    requires
        window_inputs_wf(win@, tris@, *ray),
    ensures
        snap_view(r) == samples_upto(win@, tris_view(tris@), *ray, 49),
{
    let mut acc = SnapResult { vertex: None, edge: None };
    let mut n: usize = 0;
    while n < SAMPLES
        invariant
            n <= 49,
            window_inputs_wf(win@, tris@, *ray),
            snap_view(acc) == samples_upto(win@, tris_view(tris@), *ray, n as nat),
        decreases 49 - n,
    {
        let row: usize = 1 + 3 * (n / 7);
        let col: usize = 1 + 3 * (n % 7);
        let c: usize = row * WINDOW + col;
        assert(c as int == center_index(n as int));
        let cp: PixelData = win[c];
        let ghost start: SnapModel = snap_view(acc);
        match &tris[c] {
            None => {
                let mut k: usize = 0;
                while k < 8
                    invariant
                        k <= 8,
                        n < 49,
                        row == sample_row(n as int),
                        col == sample_col(n as int),
                        c == center_index(n as int),
                        tris@[c as int] is None,
                        window_inputs_wf(win@, tris@, *ray),
                        start == samples_upto(win@, tris_view(tris@), *ray, n as nat),
                        snap_view(acc) == neighbors_upto(win@, tris_view(tris@), *ray, start, n as int, k as nat),
                    decreases 8 - k,
                {
                    let dr: usize = if k < 3 { 0 } else if k < 5 { 1 } else { 2 };
                    let dc: usize = if k == 0 || k == 3 || k == 5 { 0 } else if k == 1 || k == 6 { 1 } else { 2 };
                    let nb: usize = (row + dr - 1) * WINDOW + col + dc - 1;
                    assert(nb as int == neighbor_index(n as int, k as int));
                    match &tris[nb] {
                        None => {},
                        Some((_, t)) => {
                            let p: PixelData = win[nb];
                            let q: Point = ray_query_point(ray, p.point_on_tri);
                            let f = find_nearest(q, t);
                            offer_vertex_exec(&mut acc, f.vertex, f.vertex_dist2, p.id);
                            offer_edge_exec(&mut acc, f.edge);
                        },
                    }
                    k = k + 1;
                }
            },
            Some((_, bt)) => {
                let qc: Point = ray_query_point(ray, cp.point_on_tri);
                let f = find_nearest(qc, bt);
                let mut k: usize = 0;
                while k < 8
                    invariant
                        k <= 8,
                        n < 49,
                        row == sample_row(n as int),
                        col == sample_col(n as int),
                        c == center_index(n as int),
                        tris@[c as int] == Some((tris@[c as int].unwrap().0, *bt)),
                        bt.wf(),
                        qc == query_at(*ray, win@[c as int].point_on_tri),
                        f.vertex == nearest_vertex_pts(qc, bt.p[0], bt.p[1], bt.p[2]),
                        f.vertex_dist2 as int == dist2(qc, f.vertex),
                        edge_view(f.edge) == nearest_edge_pts(qc, bt.p[0], bt.p[1], bt.p[2]),
                        cp == win@[c as int],
                        window_inputs_wf(win@, tris@, *ray),
                        start == samples_upto(win@, tris_view(tris@), *ray, n as nat),
                        snap_view(acc) == neighbors_upto(win@, tris_view(tris@), *ray, start, n as int, k as nat),
                    decreases 8 - k,
                {
                    let dr: usize = if k < 3 { 0 } else if k < 5 { 1 } else { 2 };
                    let dc: usize = if k == 0 || k == 3 || k == 5 { 0 } else if k == 1 || k == 6 { 1 } else { 2 };
                    let nb: usize = (row + dr - 1) * WINDOW + col + dc - 1;
                    assert(nb as int == neighbor_index(n as int, k as int));
                    match &tris[nb] {
                        None => {
                            offer_edge_exec(&mut acc, f.edge);
                        },
                        Some((_, t)) => {
                            proof {
                                assert(tri_wf(tris@[nb as int]));
                                lemma_normal_bounded(*bt);
                                lemma_normal_bounded(*t);
                            }
                            if face_angle_admits(bt.normal, t.normal) {
                                offer_vertex_exec(&mut acc, f.vertex, f.vertex_dist2, cp.id);
                                offer_edge_exec(&mut acc, f.edge);
                            }
                        },
                    }
                    k = k + 1;
                }
            },
        }
        n = n + 1;
    }
    acc
}

/// A neighbour on a face that meets the centre's face at less than 30
/// degrees offers no candidate: neither vertex nor edge.
pub proof fn lemma_flat_neighbor_offers_nothing(
    win: Seq<PixelData>,
    tris: Seq<Option<(i32, Point, Point, Point)>>,
    ray: Ray,
    acc: SnapModel,
    n: int,
    k: int,
    id1: i32,
    a: Point,
    b: Point,
    d: Point,
    id2: i32,
    a2: Point,
    b2: Point,
    d2: Point,
)
    requires
        tris[center_index(n)] == Some((id1, a, b, d)),
        tris[neighbor_index(n, k)] == Some((id2, a2, b2, d2)),
        !faces_steep(normal_of(a, b, d), normal_of(a2, b2, d2)),
    ensures
        neighbor_step(win, tris, ray, acc, n, k) == acc,
{
}

/// Coplanar faces, whose normals are non-zero multiples of each other,
/// never pass the angle filter.
pub proof fn lemma_coplanar_faces_rejected(nv: (int, int, int), s: int)
    requires
        nv != (0int, 0int, 0int),
        s != 0,
    ensures
        !faces_steep(nv, (s * nv.0, s * nv.1, s * nv.2)),
{
    let m = (s * nv.0, s * nv.1, s * nv.2);
    let len2: int = dot3(nv, nv);
    assert(len2 > 0) by (nonlinear_arith)
        requires len2 == nv.0 * nv.0 + nv.1 * nv.1 + nv.2 * nv.2, !(nv.0 == 0 && nv.1 == 0 && nv.2 == 0);
    assert(nv.0 * (s * nv.0) == s * (nv.0 * nv.0)) by (nonlinear_arith);
    assert(nv.1 * (s * nv.1) == s * (nv.1 * nv.1)) by (nonlinear_arith);
    assert(nv.2 * (s * nv.2) == s * (nv.2 * nv.2)) by (nonlinear_arith);
    assert(s * (nv.0 * nv.0) + s * (nv.1 * nv.1) + s * (nv.2 * nv.2) == s * len2) by (nonlinear_arith)
        requires len2 == nv.0 * nv.0 + nv.1 * nv.1 + nv.2 * nv.2;
    assert(dot3(nv, m) == s * len2);
    assert((s * nv.0) * (s * nv.0) == (s * s) * (nv.0 * nv.0)) by (nonlinear_arith);
    assert((s * nv.1) * (s * nv.1) == (s * s) * (nv.1 * nv.1)) by (nonlinear_arith);
    assert((s * nv.2) * (s * nv.2) == (s * s) * (nv.2 * nv.2)) by (nonlinear_arith);
    assert((s * s) * (nv.0 * nv.0) + (s * s) * (nv.1 * nv.1) + (s * s) * (nv.2 * nv.2) == s * s * len2)
        by (nonlinear_arith)
        requires len2 == nv.0 * nv.0 + nv.1 * nv.1 + nv.2 * nv.2;
    assert(dot3(m, m) == s * s * len2);
    let q: int = s * s * (len2 * len2);
    assert(q > 0) by (nonlinear_arith)
        requires q == s * s * (len2 * len2), s != 0, len2 > 0;
    assert(4 * ((s * len2) * (s * len2)) == 4 * q) by (nonlinear_arith)
        requires q == s * s * (len2 * len2);
    assert(3 * (len2 * (s * s * len2)) == 3 * q) by (nonlinear_arith)
        requires q == s * s * (len2 * len2);
}

} // verus!
