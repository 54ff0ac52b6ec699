//! Picking: decoding the texels around the cursor, resolving their
//! triangles and reducing them to the active object and point.
use vstd::prelude::*;
use crate::codec::{spec_unpack_id, spec_unpack_shard, unpack_id, unpack_packid};
use crate::arith::lemma_mul_le_mono;
use crate::geometry::{faces_steep, normal_of, within, Point, Ray, Triangle, SAMPLE_LIMIT};
use crate::scene::SceneState;
use crate::shard::{tri_view, tri_wf, MeshVertex};
use crate::snap::{
    analyze_texels, center_index, neighbor_index, neighbors_upto, no_candidates,
    samples_upto, tris_view, window_inputs_wf, PixelData, SnapMode, SnapModel, SnapResult,
    WINDOW_TEXELS,
};

verus! {

/// What picking hands to the interactive state: the active id, the shard
/// of the texel under the cursor, and the active point (`None` when
/// nothing was resolved).
#[derive(Clone, Copy, Debug, PartialEq, Eq)]
pub struct PickOutcome {
    pub active_id: u32,
    pub pack_id: u32,
    pub point: Option<Point>,
}

/// Nothing under the cursor.
pub open spec fn cleared() -> PickOutcome {
    PickOutcome { active_id: 0, pack_id: 0, point: None }
}

/// Index of the first channel of texel (`row`, `col`) in a capture image
/// whose rows hold `padded` texels of four channels.
pub open spec fn texel_base(padded: int, row: int, col: int) -> int {
    padded * row * 4 + col * 4
}

/// The decoded texel (`row`, `col`) of a capture image.
pub open spec fn spec_texel(image: Seq<i32>, padded: int, row: int, col: int) -> PixelData {
    let b = texel_base(padded, row, col);
    let raw = image[b + 3] as u32;
    PixelData {
        id: spec_unpack_id(raw as nat) as u32,
        pack_id: spec_unpack_shard(raw as nat) as u32,
        point_on_tri: Point { x: image[b] as i64, y: image[b + 1] as i64, z: image[b + 2] as i64 },
    }
}

/// The image holds `height` rows of `padded` texels, at least `width` wide.
pub open spec fn image_fits(len: int, padded: int, width: int, height: int) -> bool {
    width <= padded && len == padded * height * 4
}

/// The cursor is more than 10 texels away from every edge of the viewport.
pub open spec fn inside_margin(width: int, height: int, x: int, y: int) -> bool {
    10 < x && x + 10 < width && 10 < y && y + 10 < height
}

/// The 21 by 21 texels centred on (`x`, `y`), row by row.
pub open spec fn spec_window(image: Seq<i32>, padded: int, x: int, y: int) -> Seq<PixelData> {
    Seq::new(441, |k: int| spec_texel(image, padded, y - 10 + k / 21, x - 10 + k % 21))
}

/// The lookups of every texel of a window in a scene.
pub open spec fn scene_view(scene: SceneState, win: Seq<PixelData>) -> Seq<Option<(i32, Point, Point, Point)>> {
    Seq::new(win.len(), |i: int| scene.spec_object_triangle(win[i].id as int, win[i].pack_id as int, win[i].point_on_tri))
}

/// The lookups of every texel of a window, from the vertices fetched for
/// each texel.
pub open spec fn scene_view_fetched(scene: SceneState, win: Seq<PixelData>, fetched: Seq<Vec<MeshVertex>>) -> Seq<
    Option<(i32, Point, Point, Point)>,
> {
    Seq::new(
        win.len(),
        |i: int| scene.spec_object_triangle_fetched(win[i].id as int, win[i].pack_id as int, win[i].point_on_tri, fetched[i]@),
    )
}

/// The outcome of a pick from a decoded window and the triangle under each
/// texel. The texel under the cursor gives the active id and shard, and its
/// point unless it is background (packed value 0). With snapping on, the
/// point is the best vertex candidate and the id that of the texel that
/// gave it; outside vertex mode a strictly nearer edge point wins instead.
/// Without a vertex candidate the point is unset.
pub open spec fn spec_finish(
    win: Seq<PixelData>,
    tris: Seq<Option<(i32, Point, Point, Point)>>,
    mode: SnapMode,
    ray: Ray,
) -> PickOutcome {
    let c = win[220];
    let base = if c.id == 0 && c.pack_id == 0 {
        None
    } else {
        Some(c.point_on_tri)
    };
    if mode == SnapMode::Disabled {
        PickOutcome { active_id: c.id, pack_id: c.pack_id, point: base }
    } else {
        let s = samples_upto(win, tris, ray, 49);
        match s.vertex {
            None => PickOutcome { active_id: c.id, pack_id: c.pack_id, point: None },
            Some((v, vd, vid)) => {
                let p = match s.edge {
                    Some((e, ed)) => if mode != SnapMode::Vertex && ed < vd {
                        Point { x: e.0 as i64, y: e.1 as i64, z: e.2 as i64 }
                    } else {
                        v
                    },
                    None => v,
                };
                PickOutcome { active_id: vid, pack_id: c.pack_id, point: Some(p) }
            },
        }
    }
}

/// The outcome of a pick at (`x`, `y`) in a capture image against a scene.
pub open spec fn spec_pick(
    image: Seq<i32>,
    padded: int,
    width: int,
    height: int,
    x: int,
    y: int,
    mode: SnapMode,
    ray: Ray,
    scene: SceneState,
) -> PickOutcome {
    if image_fits(image.len() as int, padded, width, height) && inside_margin(width, height, x, y) {
        let win = spec_window(image, padded, x, y);
        spec_finish(win, scene_view(scene, win), mode, ray)
    } else {
        cleared()
    }
}

proof fn lemma_texel_in_bounds(padded: int, height: int, row: int, col: int)
    requires
        0 <= row < height,
        0 <= col < padded,
    ensures
        texel_base(padded, row, col) + 3 < padded * height * 4,
        0 <= texel_base(padded, row, col),
{
    assert(padded * row <= padded * (height - 1)) by (nonlinear_arith)
        requires 0 <= row < height, 0 <= padded;
    assert(padded * (height - 1) == padded * height - padded) by (nonlinear_arith);
    assert(padded * row >= 0) by (nonlinear_arith)
        requires 0 <= row, 0 <= padded;
    assert(padded * row * 4 == (padded * row) * 4);
}

fn decode_texel(image: &Vec<i32>, padded: usize, row: usize, col: usize) -> (r: PixelData)
    requires
        texel_base(padded as int, row as int, col as int) + 3 < image@.len(),
        0 <= texel_base(padded as int, row as int, col as int),
    ensures
        r == spec_texel(image@, padded as int, row as int, col as int),
        within(r.point_on_tri, SAMPLE_LIMIT as int),
{
    let n: usize = image.len();
    proof {
        assert((padded as int) * (row as int) >= 0) by (nonlinear_arith);
    }
    let pr: usize = padded * row;
    let b: usize = pr * 4 + col * 4;
    let raw: u32 = #[verifier::truncate] (image[b + 3] as u32);
    PixelData {
        id: unpack_id(raw),
        pack_id: unpack_packid(raw),
        point_on_tri: Point { x: image[b] as i64, y: image[b + 1] as i64, z: image[b + 2] as i64 },
    }
}

/// The decoded 21 by 21 window around (`x`, `y`), when the image has the
/// given shape and the cursor keeps the margin.
pub fn pick_window(
    image: &Vec<i32>,
    padded_width: usize,
    width: usize,
    height: usize,
    x: i64,
    y: i64,
) -> (r: Option<Vec<PixelData>>)
    ensures
        r is Some <==> (image_fits(image@.len() as int, padded_width as int, width as int, height as int)
            && inside_margin(width as int, height as int, x as int, y as int)),
        r matches Some(w) ==> w@ == spec_window(image@, padded_width as int, x as int, y as int)
            && forall|i: int| 0 <= i < 441 ==> within((#[trigger] w@[i]).point_on_tri, SAMPLE_LIMIT as int),
{
    let len: usize = image.len();
    proof {
        lemma_mul_le_mono(
            padded_width as int,
            height as int,
            0xffff_ffff_ffff_ffffint,
            0xffff_ffff_ffff_ffffint,
        );
    }
    if width > padded_width || len % 4 != 0 || (len / 4) as u128 != (padded_width as u128) * (height as u128) {
        return None;
    }
    assert(len == (padded_width as int) * (height as int) * 4);
    if !(10 < x && (x as i128) + 10 < width as i128 && 10 < y && (y as i128) + 10 < height as i128) {
        return None;
    }
    let x0: usize = (x - 10) as usize;
    let y0: usize = (y - 10) as usize;
    let mut w: Vec<PixelData> = Vec::new();
    let mut k: usize = 0;
    while k < WINDOW_TEXELS
        invariant
            k <= 441,
            w@.len() == k,
            x0 == x - 10,
            y0 == y - 10,
            x0 + 20 < width,
            y0 + 20 < height,
            width <= padded_width,
            image@.len() == (padded_width as int) * (height as int) * 4,
            forall|i: int| 0 <= i < k ==> #[trigger] w@[i] == spec_texel(image@, padded_width as int, y - 10 + i / 21, x - 10 + i % 21),
            forall|i: int| 0 <= i < k ==> within((#[trigger] w@[i]).point_on_tri, SAMPLE_LIMIT as int),
        decreases 441 - k,
    {
        let row: usize = y0 + k / 21;
        let col: usize = x0 + k % 21;
        proof {
            lemma_texel_in_bounds(padded_width as int, height as int, row as int, col as int);
        }
        let p: PixelData = decode_texel(image, padded_width, row, col);
        w.push(p);
        k = k + 1;
    }
    assert(w@ =~= spec_window(image@, padded_width as int, x as int, y as int));
    Some(w)
}

impl SceneState {
    /// The triangle under each texel of a window.
    pub fn window_triangles(&self, win: &Vec<PixelData>) -> (r: Vec<Option<(i32, Triangle)>>)
        requires
            forall|i: int| 0 <= i < win@.len() ==> within((#[trigger] win@[i]).point_on_tri, SAMPLE_LIMIT as int),
        ensures
            tris_view(r@) == scene_view(*self, win@),
            forall|i: int| 0 <= i < r@.len() ==> tri_wf(#[trigger] r@[i]),
    {
        let mut r: Vec<Option<(i32, Triangle)>> = Vec::new();
        let mut k: usize = 0;
        while k < win.len()
            invariant
                k <= win@.len(),
                r@.len() == k,
                forall|i: int| 0 <= i < win@.len() ==> within((#[trigger] win@[i]).point_on_tri, SAMPLE_LIMIT as int),
                forall|i: int| 0 <= i < k ==> tri_view(#[trigger] r@[i]) == self.spec_object_triangle(
                    win@[i].id as int,
                    win@[i].pack_id as int,
                    win@[i].point_on_tri,
                ),
                forall|i: int| 0 <= i < k ==> tri_wf(#[trigger] r@[i]),
            decreases win@.len() - k,
        {
            let p: PixelData = win[k];
            r.push(self.get_triangle_by_object(p.id, p.pack_id, p.point_on_tri));
            k = k + 1;
        }
        assert(tris_view(r@) =~= scene_view(*self, win@));
        r
    }

    /// The triangle under each texel of a window, from the vertices fetched
    /// for each texel (see `texel_vertex_range`).
    pub fn window_triangles_fetched(&self, win: &Vec<PixelData>, fetched: &Vec<Vec<MeshVertex>>) -> (r: Vec<
        Option<(i32, Triangle)>,
    >)
        requires
            fetched@.len() == win@.len(),
            forall|i: int| 0 <= i < win@.len() ==> within((#[trigger] win@[i]).point_on_tri, SAMPLE_LIMIT as int),
        ensures
            tris_view(r@) == scene_view_fetched(*self, win@, fetched@),
            forall|i: int| 0 <= i < r@.len() ==> tri_wf(#[trigger] r@[i]),
    {
        let mut r: Vec<Option<(i32, Triangle)>> = Vec::new();
        let mut k: usize = 0;
        while k < win.len()
            invariant
                k <= win@.len(),
                fetched@.len() == win@.len(),
                r@.len() == k,
                forall|i: int| 0 <= i < win@.len() ==> within((#[trigger] win@[i]).point_on_tri, SAMPLE_LIMIT as int),
                forall|i: int| 0 <= i < k ==> tri_view(#[trigger] r@[i]) == self.spec_object_triangle_fetched(
                    win@[i].id as int,
                    win@[i].pack_id as int,
                    win@[i].point_on_tri,
                    fetched@[i]@,
                ),
                forall|i: int| 0 <= i < k ==> tri_wf(#[trigger] r@[i]),
            decreases win@.len() - k,
        {
            let p: PixelData = win[k];
            r.push(self.get_triangle_by_object_fetched(p.id, p.pack_id, p.point_on_tri, &fetched[k]));
            k = k + 1;
        }
        assert(tris_view(r@) =~= scene_view_fetched(*self, win@, fetched@));
        r
    }
}

/// Reduces a decoded window and the triangle under each of its texels to
/// the pick outcome.
pub fn finish_pick(
    win: &Vec<PixelData>,
    tris: &Vec<Option<(i32, Triangle)>>,
    mode: SnapMode,
    ray: &Ray,
) -> (r: PickOutcome)
    requires
        window_inputs_wf(win@, tris@, *ray),
    ensures
        r == spec_finish(win@, tris_view(tris@), mode, *ray),
{
    let c: PixelData = win[220];
    let base: Option<Point> = if c.id == 0 && c.pack_id == 0 {
        None
    } else {
        Some(c.point_on_tri)
    };
    if mode == SnapMode::Disabled {
        return PickOutcome { active_id: c.id, pack_id: c.pack_id, point: base };
    }
    let s: SnapResult = analyze_texels(win, tris, ray);
    match s.vertex {
        None => PickOutcome { active_id: c.id, pack_id: c.pack_id, point: None },
        Some((v, vd, vid)) => {
            let p: Point = match s.edge {
                Some((e, ed)) => if mode != SnapMode::Vertex && ed < vd {
                    e
                } else {
                    v
                },
                None => v,
            };
            PickOutcome { active_id: vid, pack_id: c.pack_id, point: Some(p) }
        },
    }
}

/// Picks at (`x`, `y`) in a capture image of `height` rows of
/// `padded_width` texels, of which `width` are the viewport's, against the
/// shards of `scene`. A malformed image, or a cursor within 10 texels of
/// the viewport's edge, clears the pick.
pub fn resolve_pick(
    image: &Vec<i32>,
    padded_width: usize,
    width: usize,
    height: usize,
    x: i64,
    y: i64,
    mode: SnapMode,
    ray: &Ray,
    scene: &SceneState,
) -> (r: PickOutcome)
    requires
        ray.wf(),
    ensures
        r == spec_pick(image@, padded_width as int, width as int, height as int, x as int, y as int, mode, *ray, *scene),
{
    match pick_window(image, padded_width, width, height, x, y) {
        None => PickOutcome { active_id: 0, pack_id: 0, point: None },
        Some(win) => {
            let tris: Vec<Option<(i32, Triangle)>> = scene.window_triangles(&win);
            assert(tris@.len() == tris_view(tris@).len());
            finish_pick(&win, &tris, mode, ray)
        },
    }
}

proof fn lemma_window_indices(n: int, k: int)
    requires
        0 <= n < 49,
        0 <= k < 8,
    ensures
        0 <= center_index(n) < 441,
        0 <= neighbor_index(n, k) < 441,
{
}

proof fn lemma_no_lookups_no_candidates(
    win: Seq<PixelData>,
    tris: Seq<Option<(i32, Point, Point, Point)>>,
    ray: Ray,
    n: nat,
)
    requires
        n <= 49,
        tris.len() == 441,
        forall|i: int| 0 <= i < 441 ==> #[trigger] tris[i] is None,
    ensures
        samples_upto(win, tris, ray, n) == no_candidates(),
    decreases n,
{
    if n > 0 {
        lemma_no_lookups_no_candidates(win, tris, ray, (n - 1) as nat);
        let m: int = n - 1;
        let acc = samples_upto(win, tris, ray, (n - 1) as nat);
        assert forall|k: nat| k <= 8 implies neighbors_upto(win, tris, ray, acc, m, k) == acc by {
            lemma_neighbors_idle(win, tris, ray, acc, m, k);
        }
    }
}

proof fn lemma_neighbors_idle(
    win: Seq<PixelData>,
    tris: Seq<Option<(i32, Point, Point, Point)>>,
    ray: Ray,
    acc: SnapModel,
    n: int,
    k: nat,
)
    requires
        0 <= n < 49,
        k <= 8,
        tris.len() == 441,
        forall|i: int| 0 <= i < 441 ==> #[trigger] tris[i] is None,
    ensures
        neighbors_upto(win, tris, ray, acc, n, k) == acc,
    decreases k,
{
    if k > 0 {
        lemma_neighbors_idle(win, tris, ray, acc, n, (k - 1) as nat);
        lemma_window_indices(n, k - 1);
        assert(tris[center_index(n)] is None);
        assert(tris[neighbor_index(n, k - 1)] is None);
    }
}

/// A capture image in which nothing was rendered (every channel zero)
/// resolves to object id 0 and an unset point, wherever the cursor is and
/// whatever the snap mode.
pub proof fn lemma_blank_image_picks_nothing(
    image: Seq<i32>,
    padded: int,
    width: int,
    height: int,
    x: int,
    y: int,
    mode: SnapMode,
    ray: Ray,
    scene: SceneState,
)
    requires
        forall|i: int| 0 <= i < image.len() ==> image[i] == 0,
    ensures
        spec_pick(image, padded, width, height, x, y, mode, ray, scene) == cleared(),
{
    if image_fits(image.len() as int, padded, width, height) && inside_margin(width, height, x, y) {
        let win = spec_window(image, padded, x, y);
        let blank = PixelData { id: 0, pack_id: 0, point_on_tri: Point { x: 0, y: 0, z: 0 } };
        assert forall|k: int| 0 <= k < 441 implies #[trigger] win[k] == blank by {
            let row = y - 10 + k / 21;
            let col = x - 10 + k % 21;
            lemma_texel_in_bounds(padded, height, row, col);
            let b = texel_base(padded, row, col);
            assert(image[b + 3] == 0);
            assert(spec_unpack_id(0) == 0);
        }
        let tv = scene_view(scene, win);
        assert forall|i: int| 0 <= i < 441 implies #[trigger] tv[i] is None by {
            assert(win[i] == blank);
        }
        lemma_no_lookups_no_candidates(win, tv, ray, 49);
        assert(win[220] == blank);
    }
}

/// The face normal of a looked-up triangle.
pub open spec fn lookup_normal(t: Option<(i32, Point, Point, Point)>) -> (int, int, int) {
    match t {
        Some((_, a, b, c)) => normal_of(a, b, c),
        None => (0int, 0int, 0int),
    }
}

proof fn lemma_flat_neighbors_idle(
    win: Seq<PixelData>,
    tris: Seq<Option<(i32, Point, Point, Point)>>,
    ray: Ray,
    acc: SnapModel,
    n: int,
    k: nat,
)
    requires
        0 <= n < 49,
        k <= 8,
        tris.len() == 441,
        forall|i: int| 0 <= i < 441 ==> #[trigger] tris[i] is Some,
        forall|i: int, j: int|
            0 <= i < 441 && 0 <= j < 441 ==> !faces_steep(#[trigger] lookup_normal(tris[i]), #[trigger] lookup_normal(tris[j])),
    ensures
        neighbors_upto(win, tris, ray, acc, n, k) == acc,
    decreases k,
{
    if k > 0 {
        lemma_flat_neighbors_idle(win, tris, ray, acc, n, (k - 1) as nat);
        lemma_window_indices(n, k - 1);
        let c = center_index(n);
        let nb = neighbor_index(n, k - 1);
        assert(tris[c] is Some);
        assert(tris[nb] is Some);
        assert(!faces_steep(lookup_normal(tris[c]), lookup_normal(tris[nb])));
    }
}

/// A window in which every texel lies on a triangle and no two of those
/// triangles meet at 30 degrees or more (the two coplanar triangles of a
/// flat quad, for instance) yields no candidate at all: neither a vertex
/// nor an edge.
pub proof fn lemma_flat_window_gives_nothing(
    win: Seq<PixelData>,
    tris: Seq<Option<(i32, Point, Point, Point)>>,
    ray: Ray,
    n: nat,
)
    requires
        n <= 49,
        tris.len() == 441,
        forall|i: int| 0 <= i < 441 ==> #[trigger] tris[i] is Some,
        forall|i: int, j: int|
            0 <= i < 441 && 0 <= j < 441 ==> !faces_steep(#[trigger] lookup_normal(tris[i]), #[trigger] lookup_normal(tris[j])),
    ensures
        samples_upto(win, tris, ray, n) == no_candidates(),
    decreases n,
{
    if n > 0 {
        lemma_flat_window_gives_nothing(win, tris, ray, (n - 1) as nat);
        lemma_flat_neighbors_idle(win, tris, ray, samples_upto(win, tris, ray, (n - 1) as nat), n - 1, 8);
    }
}

} // verus!
