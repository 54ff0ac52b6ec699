//! The set of mesh shards that picking resolves against, and the object
//! selection and hiding that act on it.
use vstd::prelude::*;
use std::collections::HashSet;
use crate::geometry::{within, Point, Triangle, SAMPLE_LIMIT};
use crate::shard::{fetched_object_triangle, local_object_triangle, local_triangle, tri_view, tri_wf, GpuMem, MeshVertex};

verus! {

broadcast use vstd::std_specs::hash::group_hash_axioms;

/// The shards of a scene, indexed by shard id.
pub struct SceneState {
    pub gpu_mems: Vec<GpuMem>,
    pub selected_hull_ids: HashSet<i32>,
    pub hidden_hull_ids: HashSet<i32>,
}

impl SceneState {
    /// The triangle under vertex `index` of shard `pack_id`. Vertices 0 and
    /// 1 never start a lookup, and neither does an unknown shard.
    pub open spec fn spec_triangle(&self, index: int, pack_id: int) -> Option<(i32, Point, Point, Point)> {
        if index < 2 || pack_id < 0 || pack_id >= self.gpu_mems@.len() {
            None
        } else {
            local_triangle(self.gpu_mems@[pack_id].mesh_hash@, self.gpu_mems@[pack_id].v@, index)
        }
    }

    /// A scene of `count` empty shards with ids `0..count`.
    pub fn new(count: u32, keeps_vertices: bool) -> (r: SceneState)
        ensures
            r.gpu_mems@.len() == count,
            forall|k: int| 0 <= k < count ==> (#[trigger] r.gpu_mems@[k]).id == k && r.gpu_mems@[k].v@.len() == 0
                && r.gpu_mems@[k].keeps_vertices == keeps_vertices,
            r.selected_hull_ids@ == Set::<i32>::empty(),
            r.hidden_hull_ids@ == Set::<i32>::empty(),
    {
        let mut gpu_mems: Vec<GpuMem> = Vec::new();
        let mut k: u32 = 0;
        while k < count
            invariant
                k <= count,
                gpu_mems@.len() == k,
                forall|j: int| 0 <= j < k ==> (#[trigger] gpu_mems@[j]).id == j && gpu_mems@[j].v@.len() == 0
                    && gpu_mems@[j].keeps_vertices == keeps_vertices,
            decreases count - k,
        {
            gpu_mems.push(GpuMem::new(k, keeps_vertices));
            k = k + 1;
        }
        SceneState { gpu_mems, selected_hull_ids: HashSet::new(), hidden_hull_ids: HashSet::new() }
    }

    pub fn get_triangle_by_index(&self, index: usize, pack_id: usize) -> (r: Option<(i32, Triangle)>)
        ensures
            tri_view(r) == self.spec_triangle(index as int, pack_id as int),
            tri_wf(r),
    {
        if index < 2 || pack_id >= self.gpu_mems.len() {
            None
        } else {
            self.gpu_mems[pack_id].get_triangle_by_vertex_index(index)
        }
    }

    /// Whether a texel names an object of a known shard: not the background
    /// (packed value 0), a shard of this scene, and an id that fits.
    pub open spec fn names_object(&self, id: int, pack_id: int) -> bool {
        !(id == 0 && pack_id == 0) && 0 <= pack_id < self.gpu_mems@.len() && 0 <= id <= i32::MAX
    }

    /// The triangle of object `id` of shard `pack_id` under the captured
    /// point `p`.
    pub open spec fn spec_object_triangle(&self, id: int, pack_id: int, p: Point) -> Option<(i32, Point, Point, Point)> {
        if self.names_object(id, pack_id) {
            local_object_triangle(self.gpu_mems@[pack_id].mesh_hash@, self.gpu_mems@[pack_id].v@, id as i32, p)
        } else {
            None
        }
    }

    /// The same, from the object's vertices as fetched from the device.
    pub open spec fn spec_object_triangle_fetched(&self, id: int, pack_id: int, p: Point, w: Seq<MeshVertex>) -> Option<
        (i32, Point, Point, Point),
    > {
        if self.names_object(id, pack_id) {
            fetched_object_triangle(self.gpu_mems@[pack_id].mesh_hash@, id as i32, p, w)
        } else {
            None
        }
    }

    /// The triangle under a texel that decodes to object `object_id` of
    /// shard `pack_id` at the captured point `p`.
    pub fn get_triangle_by_object(&self, object_id: u32, pack_id: u32, p: Point) -> (r: Option<(i32, Triangle)>)
        requires
            within(p, SAMPLE_LIMIT as int),
        ensures
            tri_view(r) == self.spec_object_triangle(object_id as int, pack_id as int, p),
            tri_wf(r),
    {
        if (object_id == 0 && pack_id == 0) || pack_id as usize >= self.gpu_mems.len() || object_id > i32::MAX as u32 {
            None
        } else {
            self.gpu_mems[pack_id as usize].get_triangle_by_object(object_id as i32, p)
        }
    }

    /// The vertex range to fetch from the device for a texel that decodes
    /// to object `object_id` of shard `pack_id`.
    pub fn texel_vertex_range(&self, object_id: u32, pack_id: u32) -> (r: Option<(usize, usize)>)
        ensures
            r is Some ==> self.names_object(object_id as int, pack_id as int),
            r matches Some((s, e)) ==> self.gpu_mems@[pack_id as int].mesh_hash@.contains_key(object_id as i32)
                && s == self.gpu_mems@[pack_id as int].mesh_hash@[object_id as i32].0
                && e == self.gpu_mems@[pack_id as int].mesh_hash@[object_id as i32].1 && s <= e,
    {
        if (object_id == 0 && pack_id == 0) || pack_id as usize >= self.gpu_mems.len() || object_id > i32::MAX as u32 {
            None
        } else {
            self.gpu_mems[pack_id as usize].object_vertex_range(object_id as i32)
        }
    }

    /// The triangle under a texel from the object's vertices as fetched
    /// from the device.
    pub fn get_triangle_by_object_fetched(&self, object_id: u32, pack_id: u32, p: Point, fetched: &Vec<MeshVertex>) -> (r: Option<
        (i32, Triangle),
    >)
        requires
            within(p, SAMPLE_LIMIT as int),
        ensures
            tri_view(r) == self.spec_object_triangle_fetched(object_id as int, pack_id as int, p, fetched@),
            tri_wf(r),
    {
        if (object_id == 0 && pack_id == 0) || pack_id as usize >= self.gpu_mems.len() || object_id > i32::MAX as u32 {
            None
        } else {
            self.gpu_mems[pack_id as usize].get_triangle_by_object_fetched(object_id as i32, p, fetched)
        }
    }
}

} // verus!
