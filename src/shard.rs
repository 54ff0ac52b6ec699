//! One mesh shard: its vertices, its object index and the lookup of the
//! triangle under a vertex.
use vstd::prelude::*;
use std::collections::HashMap;
use crate::codec::{spec_unpack_id, unpack_id};
use crate::geometry::{dist2, in_coord_range, sub_wide, dot_wide, within, Point, Triangle, COORD_LIMIT, SAMPLE_LIMIT};
use crate::arith::lemma_square_nonneg;
use crate::materials::{spec_type_to_color, type_to_color, HIDDEN_HULL_MAT, SELECTION_HULL_MAT};

verus! {

broadcast use vstd::std_specs::hash::group_hash_axioms;

/// A vertex of the hull mesh: its position in millimetres, its material
/// slot and the id of the object it belongs to.
#[derive(Clone, Copy, Debug, PartialEq, Eq, Structural)]
pub struct MeshVertex {
    pub position: Point,
    pub material_index: i32,
    pub id: i32,
}

impl MeshVertex {
    pub fn new(vx: i64, vy: i64, vz: i64, mi: i32, id: i32) -> (r: MeshVertex)
        ensures
            r.position == (Point { x: vx, y: vy, z: vz }),
            r.material_index == mi,
            r.id == id,
    {
        MeshVertex { position: Point { x: vx, y: vy, z: vz }, material_index: mi, id }
    }

    pub fn default() -> (r: MeshVertex)
        ensures
            r.position == (Point { x: 0, y: 0, z: 0 }),
            r.material_index == 0,
            r.id == 0,
    {
        MeshVertex::new(0, 0, 0, 0, 0)
    }
}

/// An axis-aligned box in millimetres.
#[derive(Clone, Copy, Debug, PartialEq, Eq, Structural)]
pub struct BoundingBox {
    pub min: Point,
    pub max: Point,
}

/// The first vertex of the triangle that holds vertex `i`. Triangles are
/// runs of three that begin where `(i + 1) % 3 == 0`.
pub open spec fn span_start(i: int) -> int {
    if (i + 1) % 3 == 0 {
        i
    } else if (i + 1) % 3 == 1 {
        i - 1
    } else {
        i - 2
    }
}

/// The indices of the three vertices of the triangle that holds vertex
/// `vertex_index`, when they are all valid indices.
pub fn triangle_span(vertex_index: usize) -> (r: Option<(usize, usize, usize)>)
    ensures
        r == (if 0 <= span_start(vertex_index as int) && span_start(vertex_index as int) + 2 <= usize::MAX {
            Some(
                (
                    span_start(vertex_index as int) as usize,
                    (span_start(vertex_index as int) + 1) as usize,
                    (span_start(vertex_index as int) + 2) as usize,
                ),
            )
        } else {
            None
        }),
{
    let rem: usize = vertex_index % 3;
    if rem == 2 {
        if vertex_index > usize::MAX - 2 {
            None
        } else {
            Some((vertex_index, vertex_index + 1, vertex_index + 2))
        }
    } else if rem == 0 {
        if vertex_index < 1 || vertex_index > usize::MAX - 1 {
            None
        } else {
            Some((vertex_index - 1, vertex_index, vertex_index + 1))
        }
    } else {
        if vertex_index < 2 {
            None
        } else {
            Some((vertex_index - 2, vertex_index - 1, vertex_index))
        }
    }
}

/// The triangle `a b c` with the object id of the vertex at `pos` in it,
/// when that object is indexed and every vertex lies within the
/// coordinate bound.
pub open spec fn window_result(
    index: Map<i32, (i32, i32, i32)>,
    pos: int,
    a: MeshVertex,
    b: MeshVertex,
    c: MeshVertex,
) -> Option<(i32, Point, Point, Point)> {
    let base = if pos == 0 {
        a
    } else if pos == 1 {
        b
    } else {
        c
    };
    if index.contains_key(base.id) && within(a.position, COORD_LIMIT as int) && within(
        b.position,
        COORD_LIMIT as int,
    ) && within(c.position, COORD_LIMIT as int) {
        Some((base.id, a.position, b.position, c.position))
    } else {
        None
    }
}

/// The triangle under vertex `i` of a shard whose vertices are held in
/// host memory.
pub open spec fn local_triangle(index: Map<i32, (i32, i32, i32)>, v: Seq<MeshVertex>, i: int) -> Option<
    (i32, Point, Point, Point),
> {
    let s = span_start(i);
    if 0 <= s && s + 2 < v.len() {
        window_result(index, i - s, v[s], v[s + 1], v[s + 2])
    } else {
        None
    }
}

/// The triangle under vertex `i`, from the three vertices of its run as
/// fetched one by one from the device.
pub open spec fn fetched_triangle(index: Map<i32, (i32, i32, i32)>, i: int, w: Seq<MeshVertex>) -> Option<
    (i32, Point, Point, Point),
> {
    let s = span_start(i);
    if 0 <= s && w.len() == 3 {
        window_result(index, i - s, w[0], w[1], w[2])
    } else {
        None
    }
}

/// A triangle lookup result as mathematical values.
pub open spec fn tri_view(r: Option<(i32, Triangle)>) -> Option<(i32, Point, Point, Point)> {
    match r {
        Some((id, t)) => Some((id, t.p[0], t.p[1], t.p[2])),
        None => None,
    }
}

/// Every triangle in a lookup result is well formed.
pub open spec fn tri_wf(r: Option<(i32, Triangle)>) -> bool {
    match r {
        Some((_, t)) => t.wf(),
        None => true,
    }
}

/// Both ways of reading a shard give the same triangle: the lookup in host
/// memory, and the lookup from the three vertices of the run fetched from
/// the device, whenever those are the vertices held in memory.
pub proof fn lemma_residency_modes_agree(index: Map<i32, (i32, i32, i32)>, v: Seq<MeshVertex>, i: int)
    requires
        0 <= span_start(i),
        span_start(i) + 2 < v.len(),
    ensures
        fetched_triangle(
            index,
            i,
            seq![v[span_start(i)], v[span_start(i) + 1], v[span_start(i) + 2]],
        ) == local_triangle(index, v, i),
{
}

/// Among the first `n` vertices of `w` that lie within the coordinate
/// bound, the index of the one nearest to `p` (the first on a tie).
pub open spec fn nearest_in_range(w: Seq<MeshVertex>, p: Point, n: int) -> Option<int>
    decreases n,
{
    if n <= 0 {
        None
    } else {
        let prev = nearest_in_range(w, p, n - 1);
        if !within(w[n - 1].position, COORD_LIMIT as int) {
            prev
        } else {
            match prev {
                None => Some(n - 1),
                Some(j) => if dist2(w[n - 1].position, p) < dist2(w[j].position, p) {
                    Some(n - 1)
                } else {
                    prev
                },
            }
        }
    }
}

/// The triangle of object `oid` under the captured point `p`, given the
/// object's vertices `w`, the first of which is vertex `start` of the
/// shard: the triangle run that holds the object's vertex nearest to `p`,
/// when that run lies inside the object and within the coordinate bound.
pub open spec fn object_triangle_in(oid: i32, start: int, w: Seq<MeshVertex>, p: Point) -> Option<
    (i32, Point, Point, Point),
> {
    match nearest_in_range(w, p, w.len() as int) {
        None => None,
        Some(j) => {
            let t = span_start(start + j) - start;
            if 0 <= t && t + 2 < w.len() && within(w[t].position, COORD_LIMIT as int) && within(
                w[t + 1].position,
                COORD_LIMIT as int,
            ) && within(w[t + 2].position, COORD_LIMIT as int) {
                Some((oid, w[t].position, w[t + 1].position, w[t + 2].position))
            } else {
                None
            }
        },
    }
}

/// The triangle of object `oid` under `p`, read from the vertices held in
/// host memory.
pub open spec fn local_object_triangle(index: Map<i32, (i32, i32, i32)>, v: Seq<MeshVertex>, oid: i32, p: Point) -> Option<
    (i32, Point, Point, Point),
> {
    if index.contains_key(oid) && 0 <= index[oid].0 <= index[oid].1 < v.len() {
        object_triangle_in(oid, index[oid].0 as int, v.subrange(index[oid].0 as int, index[oid].1 + 1), p)
    } else {
        None
    }
}

/// The triangle of object `oid` under `p`, from the object's vertices as
/// fetched from the device.
pub open spec fn fetched_object_triangle(index: Map<i32, (i32, i32, i32)>, oid: i32, p: Point, w: Seq<MeshVertex>) -> Option<
    (i32, Point, Point, Point),
> {
    if index.contains_key(oid) && 0 <= index[oid].0 <= index[oid].1 && w.len() == index[oid].1 - index[oid].0 + 1 {
        object_triangle_in(oid, index[oid].0 as int, w, p)
    } else {
        None
    }
}

/// Both ways of reading a shard give the same triangle for an object when
/// the fetched vertices are those held in memory.
pub proof fn lemma_object_lookup_modes_agree(index: Map<i32, (i32, i32, i32)>, v: Seq<MeshVertex>, oid: i32, p: Point)
    requires
        index.contains_key(oid),
        0 <= index[oid].0 <= index[oid].1 < v.len(),
    ensures
        fetched_object_triangle(index, oid, p, v.subrange(index[oid].0 as int, index[oid].1 + 1))
            == local_object_triangle(index, v, oid, p),
{
}

/// `meta` with every slot from `start` to `end` (both included) set to `mat`.
pub open spec fn painted(meta: Seq<i32>, mat: i32, start: int, end: int) -> Seq<i32> {
    Seq::new(meta.len(), |k: int| if start <= k <= end { mat } else { meta[k] })
}

/// The object's vertex range is a valid range of material slots.
pub open spec fn range_fits(entry: (i32, i32, i32), len: int) -> bool {
    0 <= entry.0 <= entry.1 < len
}

/// Two shards agree on everything but their material slots and the flag
/// that marks those as changed.
pub open spec fn same_geometry(a: GpuMem, b: GpuMem) -> bool {
    &&& a.id == b.id
    &&& a.tot_loc_bbx == b.tot_loc_bbx
    &&& a.loc_bbxs@ == b.loc_bbxs@
    &&& a.mesh_hash@ == b.mesh_hash@
    &&& a.v@ == b.v@
    &&& a.i@ == b.i@
    &&& a.is_renderable == b.is_renderable
    &&& a.keeps_vertices == b.keeps_vertices
}

/// Shard `g` indexes object `id` with a valid range of material slots.
pub open spec fn holds_object(g: GpuMem, id: i32) -> bool {
    g.mesh_hash@.contains_key(id) && range_fits(g.mesh_hash@[id], g.metadata@.len() as int)
}

/// The material object `id` is painted with: its default one in `g` when
/// `restore` holds, else `mat`.
pub open spec fn mat_for(g: GpuMem, id: i32, restore: bool, mat: i32) -> i32 {
    if restore {
        g.spec_default_material(id)
    } else {
        mat
    }
}


/// The squared distance from an in-range vertex to a captured point.
fn sample_dist2(v: Point, p: Point) -> (r: u128)
    requires
        within(v, COORD_LIMIT as int),
        within(p, SAMPLE_LIMIT as int),
    ensures
        r as int == dist2(v, p),
{
    let dv: (i128, i128, i128) = sub_wide(v, p);
    proof {
        lemma_square_nonneg(dv.0 as int);
        lemma_square_nonneg(dv.1 as int);
        lemma_square_nonneg(dv.2 as int);
    }
    dot_wide(dv, dv) as u128
}

/// `object_triangle_in` over the object's vertices `vs[lo..hi]`, of which
/// `vs[lo]` is vertex `start` of the shard.
fn object_triangle_from(oid: i32, vs: &Vec<MeshVertex>, lo: usize, hi: usize, start: usize, p: Point) -> (r: Option<
    (i32, Triangle),
>)
    requires
        lo < hi <= vs@.len(),
        start + (hi - lo) <= usize::MAX,
        within(p, SAMPLE_LIMIT as int),
    ensures
        tri_view(r) == object_triangle_in(oid, start as int, vs@.subrange(lo as int, hi as int), p),
        tri_wf(r),
{
    let ghost w: Seq<MeshVertex> = vs@.subrange(lo as int, hi as int);
    let mut best: Option<usize> = None;
    let mut best_d: u128 = 0;
    let mut j: usize = lo;
    while j < hi
        invariant
            lo <= j <= hi,
            hi <= vs@.len(),
            within(p, SAMPLE_LIMIT as int),
            w == vs@.subrange(lo as int, hi as int),
            match best {
                None => nearest_in_range(w, p, j - lo) is None,
                Some(b) => lo <= b < j && nearest_in_range(w, p, j - lo) == Some(b - lo)
                    && best_d as int == dist2(vs@[b as int].position, p) && within(vs@[b as int].position, COORD_LIMIT as int),
            },
        decreases hi - j,
    {
        let q: Point = vs[j].position;
        if in_coord_range(q) {
            let d: u128 = sample_dist2(q, p);
            match best {
                None => {
                    best = Some(j);
                    best_d = d;
                },
                Some(_) => {
                    if d < best_d {
                        best = Some(j);
                        best_d = d;
                    }
                },
            }
        }
        j = j + 1;
    }
    match best {
        None => None,
        Some(b) => {
            assert(w.len() == hi - lo);
            let i: usize = start + (b - lo);
            match triangle_span(i) {
                None => None,
                Some((s0, s1, s2)) => {
                    if s0 < start || s2 >= start + (hi - lo) {
                        return None;
                    }
                    let t: usize = lo + (s0 - start);
                    let (a, bb, c): (Point, Point, Point) = (vs[t].position, vs[t + 1].position, vs[t + 2].position);
                    if !(in_coord_range(a) && in_coord_range(bb) && in_coord_range(c)) {
                        return None;
                    }
                    Some((oid, Triangle::new(a, bb, c)))
                },
            }
        },
    }
}

/// One of the mesh shards: geometry, the index from object id to
/// `(first vertex, last vertex, bounding-box slot)`, and per-vertex material
/// slots.
pub struct GpuMem {
    pub id: u32,
    pub tot_loc_bbx: BoundingBox,
    pub loc_bbxs: Vec<BoundingBox>,
    pub mesh_hash: HashMap<i32, (i32, i32, i32)>,
    pub v: Vec<MeshVertex>,
    pub i: Vec<i32>,
    pub metadata: Vec<i32>,
    pub is_metadata_dirty: bool,
    pub is_renderable: bool,
    /// Whether vertices stay in host memory after upload; when not, they
    /// are fetched from the device one at a time.
    pub keeps_vertices: bool,
}

impl GpuMem {
    /// An empty shard.
    pub fn new(id: u32, keeps_vertices: bool) -> (r: GpuMem)
        ensures
            r.id == id,
            r.keeps_vertices == keeps_vertices,
            r.mesh_hash@ == Map::<i32, (i32, i32, i32)>::empty(),
            r.v@.len() == 0,
            r.i@.len() == 0,
            r.metadata@.len() == 0,
            r.loc_bbxs@.len() == 0,
            !r.is_metadata_dirty,
            !r.is_renderable,
    {
        let lim: i64 = 1_000_000;
        GpuMem {
            id,
            tot_loc_bbx: BoundingBox {
                min: Point { x: -lim, y: -lim, z: -lim },
                max: Point { x: lim, y: lim, z: lim },
            },
            loc_bbxs: Vec::new(),
            mesh_hash: HashMap::new(),
            v: Vec::new(),
            i: Vec::new(),
            metadata: Vec::new(),
            is_metadata_dirty: false,
            is_renderable: false,
            keeps_vertices,
        }
    }

    /// Marks the geometry as uploaded and ready to draw.
    pub fn resize_buffers(&mut self)
        ensures
            final(self).is_renderable,
            final(self).v@ == old(self).v@,
            final(self).i@ == old(self).i@,
            final(self).metadata@ == old(self).metadata@,
            final(self).mesh_hash@ == old(self).mesh_hash@,
            final(self).loc_bbxs@ == old(self).loc_bbxs@,
            final(self).keeps_vertices == old(self).keeps_vertices,
            final(self).is_metadata_dirty == old(self).is_metadata_dirty,
            final(self).id == old(self).id,
            final(self).tot_loc_bbx == old(self).tot_loc_bbx,
    {
        self.is_renderable = true;
    }

    /// Replaces the shard's whole content. A shard that does not keep its
    /// vertices drops the vertex and index lists once they are uploaded.
    pub fn set_data(
        &mut self,
        v: Vec<MeshVertex>,
        i: Vec<i32>,
        metadata: Vec<i32>,
        tot_loc_bbx: BoundingBox,
        mesh_hash: HashMap<i32, (i32, i32, i32)>,
        loc_bbxs: Vec<BoundingBox>,
    )
        ensures
            final(self).v@ == (if old(self).keeps_vertices { v@ } else { Seq::<MeshVertex>::empty() }),
            final(self).i@ == (if old(self).keeps_vertices { i@ } else { Seq::<i32>::empty() }),
            final(self).metadata@ == metadata@,
            final(self).tot_loc_bbx == tot_loc_bbx,
            final(self).mesh_hash@ == mesh_hash@,
            final(self).loc_bbxs@ == loc_bbxs@,
            final(self).is_renderable,
            final(self).is_metadata_dirty,
            final(self).keeps_vertices == old(self).keeps_vertices,
            final(self).id == old(self).id,
    {
        self.v = v;
        self.i = i;
        self.metadata = metadata;
        self.loc_bbxs = loc_bbxs;
        self.tot_loc_bbx = tot_loc_bbx;
        self.mesh_hash = mesh_hash;
        self.resize_buffers();
        self.is_metadata_dirty = true;
        if !self.keeps_vertices {
            self.i = Vec::new();
            self.v = Vec::new();
        }
    }

    /// The triangle `a b c` with the object id of the vertex at `pos`.
    fn window_triangle(&self, pos: usize, a: MeshVertex, b: MeshVertex, c: MeshVertex) -> (r: Option<(i32, Triangle)>)
        requires
            pos < 3,
        ensures
            tri_view(r) == window_result(self.mesh_hash@, pos as int, a, b, c),
            tri_wf(r),
    {
        let base: MeshVertex = if pos == 0 {
            a
        } else if pos == 1 {
            b
        } else {
            c
        };
        if !self.mesh_hash.contains_key(&base.id) {
            return None;
        }
        if !(in_coord_range(a.position) && in_coord_range(b.position) && in_coord_range(c.position)) {
            return None;
        }
        Some((base.id, Triangle::new(a.position, b.position, c.position)))
    }

    /// The object id and the triangle under vertex `vertex_index`, read
    /// from the vertices held in host memory.
    pub fn get_triangle_by_vertex_index(&self, vertex_index: usize) -> (r: Option<(i32, Triangle)>)
        ensures
            tri_view(r) == local_triangle(self.mesh_hash@, self.v@, vertex_index as int),
            tri_wf(r),
    {
        let n: usize = self.v.len();
        match triangle_span(vertex_index) {
            None => None,
            Some((s0, s1, s2)) => {
                if s2 >= n {
                    None
                } else {
                    assert(s0 as int == span_start(vertex_index as int));
                    assert(0 <= vertex_index - s0 < 3);
                    self.window_triangle(vertex_index - s0, self.v[s0], self.v[s1], self.v[s2])
                }
            },
        }
    }

    /// The object id and the triangle under vertex `vertex_index`, from the
    /// three vertices of its run (see `triangle_span`) as fetched from the
    /// device; a fetch that did not give all three gives nothing.
    pub fn get_triangle_by_fetched(&self, vertex_index: usize, fetched: &Vec<MeshVertex>) -> (r: Option<(i32, Triangle)>)
        ensures
            tri_view(r) == fetched_triangle(self.mesh_hash@, vertex_index as int, fetched@),
            tri_wf(r),
    {
        let rem: usize = vertex_index % 3;
        let pos: usize = if rem == 2 {
            0
        } else if rem == 0 {
            1
        } else {
            2
        };
        if vertex_index < pos || fetched.len() != 3 {
            return None;
        }
        self.window_triangle(pos, fetched[0], fetched[1], fetched[2])
    }

    /// The vertex range of object `oid`, for fetching its vertices from the
    /// device.
    pub fn object_vertex_range(&self, oid: i32) -> (r: Option<(usize, usize)>)
        ensures
            r == (if self.mesh_hash@.contains_key(oid) && 0 <= self.mesh_hash@[oid].0 <= self.mesh_hash@[oid].1 {
                Some((self.mesh_hash@[oid].0 as usize, self.mesh_hash@[oid].1 as usize))
            } else {
                None
            }),
    {
        match self.mesh_hash.get(&oid) {
            None => None,
            Some(m) => if 0 <= m.0 && m.0 <= m.1 {
                Some((m.0 as usize, m.1 as usize))
            } else {
                None
            },
        }
    }

    /// The triangle of object `oid` under the captured point `p`, read from
    /// the vertices held in host memory.
    pub fn get_triangle_by_object(&self, oid: i32, p: Point) -> (r: Option<(i32, Triangle)>)
        requires
            within(p, SAMPLE_LIMIT as int),
        ensures
            tri_view(r) == local_object_triangle(self.mesh_hash@, self.v@, oid, p),
            tri_wf(r),
    {
        match self.mesh_hash.get(&oid) {
            None => None,
            Some(m) => {
                let (start, end): (i32, i32) = (m.0, m.1);
                if start < 0 || start > end || end as usize >= self.v.len() {
                    None
                } else {
                    object_triangle_from(oid, &self.v, start as usize, end as usize + 1, start as usize, p)
                }
            },
        }
    }

    /// The triangle of object `oid` under the captured point `p`, from the
    /// object's vertices (see `object_vertex_range`) as fetched from the
    /// device; a fetch that did not give them all gives nothing.
    pub fn get_triangle_by_object_fetched(&self, oid: i32, p: Point, fetched: &Vec<MeshVertex>) -> (r: Option<(i32, Triangle)>)
        requires
            within(p, SAMPLE_LIMIT as int),
        ensures
            tri_view(r) == fetched_object_triangle(self.mesh_hash@, oid, p, fetched@),
            tri_wf(r),
    {
        match self.mesh_hash.get(&oid) {
            None => None,
            Some(m) => {
                let (start, end): (i32, i32) = (m.0, m.1);
                if start < 0 || start > end || fetched.len() != (end - start) as usize + 1 {
                    None
                } else {
                    assert(fetched@.subrange(0, fetched@.len() as int) =~= fetched@);
                    object_triangle_from(oid, fetched, 0, fetched.len(), start as usize, p)
                }
            },
        }
    }

    /// The bounding box of an object, through its slot in the object index.
    pub fn get_bbx_by_oid(&self, oid: i32) -> (r: Option<BoundingBox>)
        ensures
            r == (if self.mesh_hash@.contains_key(oid) && 0 <= self.mesh_hash@[oid].2 < self.loc_bbxs@.len() {
                Some(self.loc_bbxs@[self.mesh_hash@[oid].2 as int])
            } else {
                None
            }),
    {
        match self.mesh_hash.get(&oid) {
            None => None,
            Some(mesh) => {
                let indx: i32 = mesh.2;
                if indx < 0 || indx as usize >= self.loc_bbxs.len() {
                    None
                } else {
                    Some(self.loc_bbxs[indx as usize])
                }
            },
        }
    }

    /// Sets the material slots `start..=end`; a range outside the slots
    /// changes nothing.
    fn change_material(&mut self, mat_indx: i32, start: i32, end: i32) -> (r: bool)
        ensures
            r == range_fits((start, end, 0), old(self).metadata@.len() as int),
            final(self).metadata@ == (if r {
                painted(old(self).metadata@, mat_indx, start as int, end as int)
            } else {
                old(self).metadata@
            }),
            final(self).is_metadata_dirty == (r || old(self).is_metadata_dirty),
            same_geometry(*final(self), *old(self)),
    {
        if start < 0 || start > end || end as usize >= self.metadata.len() {
            return false;
        }
        let ghost before: Seq<i32> = self.metadata@;
        let e: usize = end as usize;
        let mut k: usize = start as usize;
        while k <= e
            invariant
                0 <= start <= k <= e + 1,
                e == end,
                e < self.metadata@.len(),
                self.metadata@.len() == before.len(),
                forall|j: int|
                    0 <= j < before.len() ==> #[trigger] self.metadata@[j] == (if start <= j < k {
                        mat_indx
                    } else {
                        before[j]
                    }),
                same_geometry(*self, *old(self)),
                self.is_metadata_dirty == old(self).is_metadata_dirty,
                before == old(self).metadata@,
            decreases e + 1 - k,
        {
            self.metadata.set(k, mat_indx);
            k = k + 1;
        }
        assert(self.metadata@ =~= painted(before, mat_indx, start as int, end as int));
        self.is_metadata_dirty = true;
        true
    }

    /// Paints an object with the selection material. Gives whether the
    /// object is indexed here with a valid vertex range.
    pub fn select_by_id(&mut self, oid: i32) -> (r: bool)
        ensures
            r == (old(self).mesh_hash@.contains_key(oid) && range_fits(
                old(self).mesh_hash@[oid],
                old(self).metadata@.len() as int,
            )),
            final(self).metadata@ == (if r {
                painted(
                    old(self).metadata@,
                    SELECTION_HULL_MAT,
                    old(self).mesh_hash@[oid].0 as int,
                    old(self).mesh_hash@[oid].1 as int,
                )
            } else {
                old(self).metadata@
            }),
            final(self).is_metadata_dirty == (r || old(self).is_metadata_dirty),
            same_geometry(*final(self), *old(self)),
    {
        match self.mesh_hash.get(&oid) {
            None => false,
            Some(mesh) => {
                let (start, end): (i32, i32) = (mesh.0, mesh.1);
                self.change_material(SELECTION_HULL_MAT, start, end)
            },
        }
    }

    /// Paints an object with the hidden material. Gives whether the object
    /// is indexed here with a valid vertex range.
    pub fn hide_by_id(&mut self, oid: i32) -> (r: bool)
        ensures
            r == (old(self).mesh_hash@.contains_key(oid) && range_fits(
                old(self).mesh_hash@[oid],
                old(self).metadata@.len() as int,
            )),
            final(self).metadata@ == (if r {
                painted(
                    old(self).metadata@,
                    HIDDEN_HULL_MAT,
                    old(self).mesh_hash@[oid].0 as int,
                    old(self).mesh_hash@[oid].1 as int,
                )
            } else {
                old(self).metadata@
            }),
            final(self).is_metadata_dirty == (r || old(self).is_metadata_dirty),
            same_geometry(*final(self), *old(self)),
    {
        match self.mesh_hash.get(&oid) {
            None => false,
            Some(mesh) => {
                let (start, end): (i32, i32) = (mesh.0, mesh.1);
                self.change_material(HIDDEN_HULL_MAT, start, end)
            },
        }
    }

    /// The default material of an object: that of its part type, read from
    /// the packed type of its first vertex. Without that vertex in host
    /// memory it is slot 0.
    pub open spec fn spec_default_material(self, oid: i32) -> i32 {
        if self.mesh_hash@.contains_key(oid) && 0 <= self.mesh_hash@[oid].0 < self.v@.len() {
            spec_type_to_color(
                spec_unpack_id(self.v@[self.mesh_hash@[oid].0 as int].material_index as u32 as nat) as int,
            )
        } else {
            0
        }
    }

    pub fn get_default_material_by_id(&self, oid: i32) -> (r: i32)
        ensures
            r == self.spec_default_material(oid),
    {
        match self.mesh_hash.get(&oid) {
            None => 0,
            Some(m) => {
                let start_index: i32 = m.0;
                if start_index < 0 || start_index as usize >= self.v.len() {
                    0
                } else {
                    let mesh_v: MeshVertex = self.v[start_index as usize];
                    type_to_color(unpack_id(mesh_v.material_index as u32) as i32)
                }
            },
        }
    }

    /// Paints an object with its default material. Gives whether the object
    /// is indexed here with a valid vertex range.
    pub fn set_default_by_id(&mut self, oid: i32) -> (r: bool)
        ensures
            r == (old(self).mesh_hash@.contains_key(oid) && range_fits(
                old(self).mesh_hash@[oid],
                old(self).metadata@.len() as int,
            )),
            final(self).metadata@ == (if r {
                painted(
                    old(self).metadata@,
                    old(self).spec_default_material(oid),
                    old(self).mesh_hash@[oid].0 as int,
                    old(self).mesh_hash@[oid].1 as int,
                )
            } else {
                old(self).metadata@
            }),
            final(self).is_metadata_dirty == (r || old(self).is_metadata_dirty),
            same_geometry(*final(self), *old(self)),
    {
        let mat: i32 = self.get_default_material_by_id(oid);
        match self.mesh_hash.get(&oid) {
            None => false,
            Some(mesh) => {
                let (start, end): (i32, i32) = (mesh.0, mesh.1);
                self.change_material(mat, start, end)
            },
        }
    }

    /// Paints object `id` with its default material when `restore` holds,
    /// else with `mat`. Gives whether the shard holds the object with a
    /// valid vertex range.
    pub fn paint_object(&mut self, id: i32, restore: bool, mat: i32) -> (r: bool)
        ensures
            r == holds_object(*old(self), id),
            final(self).metadata@ == (if r {
                painted(
                    old(self).metadata@,
                    mat_for(*old(self), id, restore, mat),
                    old(self).mesh_hash@[id].0 as int,
                    old(self).mesh_hash@[id].1 as int,
                )
            } else {
                old(self).metadata@
            }),
            final(self).is_metadata_dirty == (r || old(self).is_metadata_dirty),
            same_geometry(*final(self), *old(self)),
    {
        let m: i32 = if restore {
            self.get_default_material_by_id(id)
        } else {
            mat
        };
        match self.mesh_hash.get(&id) {
            None => false,
            Some(mesh) => {
                let (start, end): (i32, i32) = (mesh.0, mesh.1);
                self.change_material(m, start, end)
            },
        }
    }

    pub fn reset_dirty_metadata(&mut self)
        ensures
            !final(self).is_metadata_dirty,
            final(self).metadata@ == old(self).metadata@,
            same_geometry(*final(self), *old(self)),
    {
        self.is_metadata_dirty = false;
    }
}

} // verus!
