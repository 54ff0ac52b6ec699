//! Selecting and hiding objects across the shards of a scene.
use vstd::prelude::*;
use std::collections::HashSet;
use crate::materials::{HIDDEN_HULL_MAT, SELECTION_HULL_MAT};
use crate::modes::ActionType;
use crate::scene::SceneState;
use crate::shard::{holds_object, mat_for, painted, same_geometry, GpuMem};

verus! {

broadcast use vstd::std_specs::hash::group_hash_axioms;

/// Some shard holds object `id`.
pub open spec fn scene_holds(shards: Seq<GpuMem>, id: i32) -> bool {
    exists|k: int| 0 <= k < shards.len() && holds_object(#[trigger] shards[k], id)
}

/// `meta` after painting, in order, each object of `ids` that `g` holds.
pub open spec fn paint_sequence(g: GpuMem, meta: Seq<i32>, ids: Seq<i32>, restore: bool, mat: i32) -> Seq<i32>
    decreases ids.len(),
{
    if ids.len() == 0 {
        meta
    } else {
        let m = paint_sequence(g, meta, ids.drop_last(), restore, mat);
        let id = ids.last();
        if holds_object(g, id) {
            painted(m, mat_for(g, id, restore, mat), g.mesh_hash@[id].0 as int, g.mesh_hash@[id].1 as int)
        } else {
            m
        }
    }
}

/// `after` is `before` with, in every shard, the objects of `ids` painted
/// in order.
pub open spec fn shards_painted(before: Seq<GpuMem>, after: Seq<GpuMem>, ids: Seq<i32>, restore: bool, mat: i32) -> bool {
    &&& after.len() == before.len()
    &&& forall|k: int|
        0 <= k < before.len() ==> same_geometry(#[trigger] after[k], before[k]) && after[k].metadata@
            == paint_sequence(before[k], before[k].metadata@, ids, restore, mat)
}

/// `after` is `before` with, in every shard, the objects of `ids` restored
/// in order and then, in shard `pack` only, object `oid` painted with
/// `mat` when that shard holds it.
pub open spec fn restored_then_painted(
    before: Seq<GpuMem>,
    after: Seq<GpuMem>,
    ids: Seq<i32>,
    pack: int,
    oid: i32,
    mat: i32,
) -> bool {
    &&& after.len() == before.len()
    &&& forall|k: int|
        0 <= k < before.len() ==> same_geometry(#[trigger] after[k], before[k]) && after[k].metadata@ == (if k
            == pack && holds_object(before[k], oid) {
            painted(
                paint_sequence(before[k], before[k].metadata@, ids, true, 0),
                mat,
                before[k].mesh_hash@[oid].0 as int,
                before[k].mesh_hash@[oid].1 as int,
            )
        } else {
            paint_sequence(before[k], before[k].metadata@, ids, true, 0)
        })
}

/// Shard `pack` of the scene holds object `oid`.
pub open spec fn pack_holds(s: SceneState, pack: int, oid: i32) -> bool {
    0 <= pack < s.gpu_mems@.len() && holds_object(s.gpu_mems@[pack], oid)
}

/// Selecting `oid` in shard `pack` took `before` to `after`: the former
/// selection was cleared, then the object painted and selected when that
/// shard holds it.
pub open spec fn select_effect(before: SceneState, after: SceneState, oid: i32, pack: int) -> bool {
    &&& exists|ids: Seq<i32>|
        ids.to_set() == before.selected_hull_ids@ && ids.no_duplicates() && restored_then_painted(
            before.gpu_mems@,
            after.gpu_mems@,
            ids,
            pack,
            oid,
            SELECTION_HULL_MAT,
        )
    &&& after.selected_hull_ids@ == (if pack_holds(before, pack, oid) {
        before.selected_hull_ids@.filter(|id: i32| !scene_holds(before.gpu_mems@, id)).insert(oid)
    } else {
        before.selected_hull_ids@.filter(|id: i32| !scene_holds(before.gpu_mems@, id))
    })
    &&& after.hidden_hull_ids@ == before.hidden_hull_ids@
}

/// Hiding `oid` in shard `pack` took `before` to `after`: the object was
/// painted hidden and added to the hidden set when that shard holds it.
pub open spec fn hide_effect(before: SceneState, after: SceneState, oid: i32, pack: int) -> bool {
    &&& restored_then_painted(before.gpu_mems@, after.gpu_mems@, Seq::<i32>::empty(), pack, oid, HIDDEN_HULL_MAT)
    &&& after.hidden_hull_ids@ == (if pack_holds(before, pack, oid) {
        before.hidden_hull_ids@.insert(oid)
    } else {
        before.hidden_hull_ids@
    })
    &&& after.selected_hull_ids@ == before.selected_hull_ids@
}

proof fn lemma_paint_len(g: GpuMem, meta: Seq<i32>, ids: Seq<i32>, restore: bool, mat: i32)
    ensures
        paint_sequence(g, meta, ids, restore, mat).len() == meta.len(),
    decreases ids.len(),
{
    if ids.len() > 0 {
        lemma_paint_len(g, meta, ids.drop_last(), restore, mat);
    }
}

proof fn lemma_paint_single(g: GpuMem, meta: Seq<i32>, id: i32, restore: bool, mat: i32)
    ensures
        paint_sequence(g, meta, seq![id], restore, mat) == (if holds_object(g, id) {
            painted(meta, mat_for(g, id, restore, mat), g.mesh_hash@[id].0 as int, g.mesh_hash@[id].1 as int)
        } else {
            meta
        }),
{
    assert(seq![id].drop_last() =~= Seq::<i32>::empty());
    assert(paint_sequence(g, meta, Seq::<i32>::empty(), restore, mat) == meta);
}

/// Painting one more object after a sequence.
proof fn lemma_paint_extend(
    before: GpuMem,
    cur: GpuMem,
    after: GpuMem,
    ids: Seq<i32>,
    id: i32,
    restore: bool,
    mat: i32,
)
    requires
        same_geometry(cur, before),
        cur.metadata@ == paint_sequence(before, before.metadata@, ids, restore, mat),
        same_geometry(after, cur),
        after.metadata@ == (if holds_object(cur, id) {
            painted(cur.metadata@, mat_for(cur, id, restore, mat), cur.mesh_hash@[id].0 as int, cur.mesh_hash@[id].1 as int)
        } else {
            cur.metadata@
        }),
    ensures
        same_geometry(after, before),
        after.metadata@ == paint_sequence(before, before.metadata@, ids.push(id), restore, mat),
        holds_object(cur, id) == holds_object(before, id),
{
    lemma_paint_len(before, before.metadata@, ids, restore, mat);
    assert(ids.push(id).drop_last() =~= ids);
}

proof fn lemma_holds_stable(before: Seq<GpuMem>, cur: Seq<GpuMem>, ids: Seq<i32>, restore: bool, mat: i32, id: i32)
    requires
        shards_painted(before, cur, ids, restore, mat),
    ensures
        scene_holds(cur, id) == scene_holds(before, id),
{
    assert forall|k: int| 0 <= k < before.len() implies holds_object(#[trigger] cur[k], id) == holds_object(before[k], id) by {
        lemma_paint_len(before[k], before[k].metadata@, ids, restore, mat);
    }
    if scene_holds(cur, id) {
        let k = choose|k: int| 0 <= k < cur.len() && holds_object(#[trigger] cur[k], id);
        assert(holds_object(before[k], id));
    }
    if scene_holds(before, id) {
        let k = choose|k: int| 0 <= k < before.len() && holds_object(#[trigger] before[k], id);
        assert(holds_object(cur[k], id));
    }
}

/// The ids of a set, each once, in the set's iteration order.
fn snapshot(s: &HashSet<i32>) -> (r: Vec<i32>)
    ensures
        r@.to_set() == s@,
        r@.no_duplicates(),
{
    let mut r: Vec<i32> = Vec::new();
    for x in it: s.iter()
        invariant
            r@ == it.seq().take(it.index() as int).unref(),
            it.seq().unref().to_set() == s@,
            it.seq().unref().no_duplicates(),
            it.index() == it.seq().len() ==> r@ == it.seq().unref(),
    {
        r.push(*x);
        assert(r@ =~= it.seq().take(it.index() as int + 1).unref());
    }
    r
}

impl SceneState {
    /// Paints object `id` in every shard that holds it: with its default
    /// material when `restore` holds, else with `mat`. Gives whether some
    /// shard holds it.
    fn paint_everywhere(&mut self, id: i32, restore: bool, mat: i32) -> (r: bool)
        ensures
            r == scene_holds(old(self).gpu_mems@, id),
            shards_painted(old(self).gpu_mems@, final(self).gpu_mems@, seq![id], restore, mat),
            final(self).selected_hull_ids@ == old(self).selected_hull_ids@,
            final(self).hidden_hull_ids@ == old(self).hidden_hull_ids@,
    {
        let n: usize = self.gpu_mems.len();
        let mut any: bool = false;
        let mut k: usize = 0;
        assert(seq![id].drop_last() =~= Seq::<i32>::empty());
        while k < n
            invariant
                n == self.gpu_mems@.len(),
                n == old(self).gpu_mems@.len(),
                k <= n,
                any == exists|j: int| 0 <= j < k && holds_object(#[trigger] old(self).gpu_mems@[j], id),
                forall|j: int|
                    0 <= j < n ==> same_geometry(#[trigger] self.gpu_mems@[j], old(self).gpu_mems@[j])
                        && self.gpu_mems@[j].metadata@ == (if j < k {
                        paint_sequence(old(self).gpu_mems@[j], old(self).gpu_mems@[j].metadata@, seq![id], restore, mat)
                    } else {
                        old(self).gpu_mems@[j].metadata@
                    }),
                self.selected_hull_ids@ == old(self).selected_hull_ids@,
                self.hidden_hull_ids@ == old(self).hidden_hull_ids@,
                seq![id].drop_last() =~= Seq::<i32>::empty(),
            decreases n - k,
        {
            let ghost prev: GpuMem = self.gpu_mems@[k as int];
            let ok: bool = self.gpu_mems[k].paint_object(id, restore, mat);
            proof {
                lemma_paint_single(old(self).gpu_mems@[k as int], old(self).gpu_mems@[k as int].metadata@, id, restore, mat);
                assert(holds_object(prev, id) == holds_object(old(self).gpu_mems@[k as int], id));
                assert(mat_for(prev, id, restore, mat) == mat_for(old(self).gpu_mems@[k as int], id, restore, mat));
            }
            if ok {
                any = true;
            }
            k = k + 1;
        }
        any
    }

    /// Restores object `id` to its default material in every shard, and
    /// takes it out of the selection when some shard holds it.
    pub fn unselect_by_id(&mut self, id: i32)
        ensures
            shards_painted(old(self).gpu_mems@, final(self).gpu_mems@, seq![id], true, 0),
            final(self).selected_hull_ids@ == (if scene_holds(old(self).gpu_mems@, id) {
                old(self).selected_hull_ids@.remove(id)
            } else {
                old(self).selected_hull_ids@
            }),
            final(self).hidden_hull_ids@ == old(self).hidden_hull_ids@,
    {
        if self.paint_everywhere(id, true, 0) {
            self.selected_hull_ids.remove(&id);
        }
    }

    /// Restores object `id` to its default material in every shard, and
    /// takes it out of the hidden set when some shard holds it.
    pub fn unhide_by_id(&mut self, id: i32)
        ensures
            shards_painted(old(self).gpu_mems@, final(self).gpu_mems@, seq![id], true, 0),
            final(self).hidden_hull_ids@ == (if scene_holds(old(self).gpu_mems@, id) {
                old(self).hidden_hull_ids@.remove(id)
            } else {
                old(self).hidden_hull_ids@
            }),
            final(self).selected_hull_ids@ == old(self).selected_hull_ids@,
    {
        if self.paint_everywhere(id, true, 0) {
            self.hidden_hull_ids.remove(&id);
        }
    }

    /// Restores every object of the selection (`hidden` false) or of the
    /// hidden set (`hidden` true) to its default material, and drops from
    /// that set the objects some shard holds.
    fn restore_set(&mut self, hidden: bool)
        ensures
            exists|ids: Seq<i32>|
                ids.to_set() == (if hidden {
                    old(self).hidden_hull_ids@
                } else {
                    old(self).selected_hull_ids@
                }) && ids.no_duplicates() && shards_painted(old(self).gpu_mems@, final(self).gpu_mems@, ids, true, 0),
            hidden ==> final(self).hidden_hull_ids@ == old(self).hidden_hull_ids@.filter(
                |id: i32| !scene_holds(old(self).gpu_mems@, id),
            ),
            hidden ==> final(self).selected_hull_ids@ == old(self).selected_hull_ids@,
            !hidden ==> final(self).selected_hull_ids@ == old(self).selected_hull_ids@.filter(
                |id: i32| !scene_holds(old(self).gpu_mems@, id),
            ),
            !hidden ==> final(self).hidden_hull_ids@ == old(self).hidden_hull_ids@,
    {
        let ids: Vec<i32> = if hidden {
            snapshot(&self.hidden_hull_ids)
        } else {
            snapshot(&self.selected_hull_ids)
        };
        let ghost before: Seq<GpuMem> = self.gpu_mems@;
        let ghost set0: Set<i32> = if hidden {
            self.hidden_hull_ids@
        } else {
            self.selected_hull_ids@
        };
        let ghost other: Set<i32> = if hidden {
            self.selected_hull_ids@
        } else {
            self.hidden_hull_ids@
        };
        proof {
            assert forall|k: int| 0 <= k < before.len() implies same_geometry(#[trigger] before[k], before[k])
                && before[k].metadata@ == paint_sequence(before[k], before[k].metadata@, ids@.take(0), true, 0) by {
                assert(ids@.take(0).len() == 0);
            }
            assert(set0.filter(|x: i32| !(ids@.take(0).contains(x) && scene_holds(before, x))) =~= set0);
        }
        let mut i: usize = 0;
        while i < ids.len()
            invariant
                i <= ids@.len(),
                ids@.to_set() == set0,
                ids@.no_duplicates(),
                before == old(self).gpu_mems@,
                set0 == (if hidden { old(self).hidden_hull_ids@ } else { old(self).selected_hull_ids@ }),
                other == (if hidden { old(self).selected_hull_ids@ } else { old(self).hidden_hull_ids@ }),
                shards_painted(before, self.gpu_mems@, ids@.take(i as int), true, 0),
                (if hidden { self.hidden_hull_ids@ } else { self.selected_hull_ids@ }) == set0.filter(
                    |x: i32| !(ids@.take(i as int).contains(x) && scene_holds(before, x)),
                ),
                (if hidden { self.selected_hull_ids@ } else { self.hidden_hull_ids@ }) == other,
            decreases ids@.len() - i,
        {
            let id: i32 = ids[i];
            let ghost cur: Seq<GpuMem> = self.gpu_mems@;
            proof {
                lemma_holds_stable(before, cur, ids@.take(i as int), true, 0, id);
            }
            let held: bool = self.paint_everywhere(id, true, 0);
            if held {
                if hidden {
                    self.hidden_hull_ids.remove(&id);
                } else {
                    self.selected_hull_ids.remove(&id);
                }
            }
            proof {
                let after: Seq<GpuMem> = self.gpu_mems@;
                assert(ids@.take(i as int + 1) =~= ids@.take(i as int).push(id));
                assert forall|k: int| 0 <= k < before.len() implies same_geometry(#[trigger] after[k], before[k])
                    && after[k].metadata@ == paint_sequence(before[k], before[k].metadata@, ids@.take(i as int + 1), true, 0) by {
                    lemma_paint_single(cur[k], cur[k].metadata@, id, true, 0);
                    lemma_paint_extend(before[k], cur[k], after[k], ids@.take(i as int), id, true, 0);
                }
                let cur_set = if hidden { self.hidden_hull_ids@ } else { self.selected_hull_ids@ };
                assert forall|x: i32| #[trigger] ids@.take(i as int + 1).contains(x) == (ids@.take(i as int).contains(x) || x == id) by {
                    if ids@.take(i as int + 1).contains(x) {
                        let j = choose|j: int| 0 <= j < i + 1 && #[trigger] ids@.take(i as int + 1)[j] == x;
                        if j < i {
                            assert(ids@.take(i as int)[j] == x);
                        }
                    }
                    if ids@.take(i as int).contains(x) {
                        let j = choose|j: int| 0 <= j < i && #[trigger] ids@.take(i as int)[j] == x;
                        assert(ids@.take(i as int + 1)[j] == x);
                    }
                    if x == id {
                        assert(ids@.take(i as int + 1)[i as int] == x);
                    }
                }
                assert(cur_set =~= set0.filter(|x: i32| !(ids@.take(i as int + 1).contains(x) && scene_holds(before, x))));
            }
            i = i + 1;
        }
        proof {
            assert(ids@.take(ids@.len() as int) =~= ids@);
            let final_set = if hidden { self.hidden_hull_ids@ } else { self.selected_hull_ids@ };
            assert forall|x: i32| set0.contains(x) implies #[trigger] ids@.contains(x) by {
                assert(ids@.to_set().contains(x));
            }
            assert(final_set =~= set0.filter(|x: i32| !scene_holds(before, x)));
        }
    }

    /// Restores every selected object to its default material and drops
    /// from the selection the objects some shard holds.
    pub fn unselect_all(&mut self)
        ensures
            exists|ids: Seq<i32>|
                ids.to_set() == old(self).selected_hull_ids@ && ids.no_duplicates() && shards_painted(
                    old(self).gpu_mems@,
                    final(self).gpu_mems@,
                    ids,
                    true,
                    0,
                ),
            final(self).selected_hull_ids@ == old(self).selected_hull_ids@.filter(
                |id: i32| !scene_holds(old(self).gpu_mems@, id),
            ),
            final(self).hidden_hull_ids@ == old(self).hidden_hull_ids@,
    {
        self.restore_set(false);
    }

    /// Restores every hidden object to its default material and drops from
    /// the hidden set the objects some shard holds.
    pub fn unhide_all(&mut self)
        ensures
            exists|ids: Seq<i32>|
                ids.to_set() == old(self).hidden_hull_ids@ && ids.no_duplicates() && shards_painted(
                    old(self).gpu_mems@,
                    final(self).gpu_mems@,
                    ids,
                    true,
                    0,
                ),
            final(self).hidden_hull_ids@ == old(self).hidden_hull_ids@.filter(
                |id: i32| !scene_holds(old(self).gpu_mems@, id),
            ),
            final(self).selected_hull_ids@ == old(self).selected_hull_ids@,
    {
        self.restore_set(true);
    }

    /// Clears the selection, then paints object `oid` of shard `pack_id`
    /// with the selection material and selects it, when that shard holds
    /// it.
    pub fn select_by_id(&mut self, oid: i32, pack_id: u32)
        ensures
            select_effect(*old(self), *final(self), oid, pack_id as int),
    {
        self.unselect_all();
        let ghost mid: Seq<GpuMem> = self.gpu_mems@;
        let ghost ids: Seq<i32> = choose|ids: Seq<i32>|
            ids.to_set() == old(self).selected_hull_ids@ && ids.no_duplicates() && shards_painted(
                old(self).gpu_mems@,
                mid,
                ids,
                true,
                0,
            );
        let p: usize = pack_id as usize;
        if p < self.gpu_mems.len() {
            if self.gpu_mems[p].select_by_id(oid) {
                self.selected_hull_ids.insert(oid);
            }
        }
        proof {
            let before = old(self).gpu_mems@;
            let after = self.gpu_mems@;
            assert forall|k: int| 0 <= k < before.len() implies same_geometry(#[trigger] after[k], before[k])
                && after[k].metadata@ == (if k == p && holds_object(before[k], oid) {
                painted(
                    paint_sequence(before[k], before[k].metadata@, ids, true, 0),
                    SELECTION_HULL_MAT,
                    before[k].mesh_hash@[oid].0 as int,
                    before[k].mesh_hash@[oid].1 as int,
                )
            } else {
                paint_sequence(before[k], before[k].metadata@, ids, true, 0)
            }) by {
                lemma_paint_len(before[k], before[k].metadata@, ids, true, 0);
            }
            assert(pack_holds(*old(self), pack_id as int, oid) == (p < mid.len() && holds_object(mid[p as int], oid))) by {
                if p < mid.len() {
                    lemma_paint_len(before[p as int], before[p as int].metadata@, ids, true, 0);
                }
            }
        }
    }

    /// Paints object `oid` of shard `pack_id` with the hidden material and
    /// adds it to the hidden set, when that shard holds it.
    pub fn hide_by_id(&mut self, oid: i32, pack_id: u32)
        ensures
            hide_effect(*old(self), *final(self), oid, pack_id as int),
    {
        let p: usize = pack_id as usize;
        if p < self.gpu_mems.len() {
            if self.gpu_mems[p].hide_by_id(oid) {
                self.hidden_hull_ids.insert(oid);
            }
        }
        proof {
            let before = old(self).gpu_mems@;
            assert forall|k: int| 0 <= k < before.len() implies paint_sequence(
                before[k],
                before[k].metadata@,
                Seq::<i32>::empty(),
                true,
                0,
            ) == before[k].metadata@ by {}
        }
    }

    /// Carries out a click action on object `object_id` of shard `pack_id`.
    /// Gives whether the scene's visible content changed (only hiding does).
    pub fn apply_action(&mut self, action: ActionType, object_id: i32, pack_id: u32) -> (r: bool)
        ensures
            r == (action == ActionType::Hide),
            action == ActionType::Select ==> select_effect(*old(self), *final(self), object_id, pack_id as int),
            action == ActionType::Hide ==> hide_effect(*old(self), *final(self), object_id, pack_id as int),
            action == ActionType::Evaluate ==> *final(self) == *old(self),
    {
        match action {
            ActionType::Select => {
                self.select_by_id(object_id, pack_id);
                false
            },
            ActionType::Hide => {
                self.hide_by_id(object_id, pack_id);
                true
            },
            ActionType::Evaluate => false,
        }
    }

    /// Carries out a click action on the object picked under the cursor:
    /// object `id` of shard `pack_id`, where id 0 means nothing was picked.
    /// Gives whether the scene's visible content changed.
    pub fn screen_oid(&mut self, action: ActionType, id: i32, pack_id: u32) -> (r: bool)
        ensures
            id == 0 ==> !r && *final(self) == *old(self),
            id != 0 ==> {
                &&& r == (action == ActionType::Hide)
                &&& action == ActionType::Select ==> select_effect(*old(self), *final(self), id, pack_id as int)
                &&& action == ActionType::Hide ==> hide_effect(*old(self), *final(self), id, pack_id as int)
                &&& action == ActionType::Evaluate ==> *final(self) == *old(self)
            },
    {
        if id == 0 {
            return false;
        }
        self.apply_action(action, id, pack_id)
    }

    /// Paints every object of `ids` that some shard holds with the hidden
    /// material (`hide`) or the selection material, and adds it to the
    /// hidden set or the selection.
    fn paint_set(&mut self, ids: &HashSet<i32>, hide: bool)
        ensures
            exists|order: Seq<i32>|
                order.to_set() == ids@ && order.no_duplicates() && shards_painted(
                    old(self).gpu_mems@,
                    final(self).gpu_mems@,
                    order,
                    false,
                    if hide { HIDDEN_HULL_MAT } else { SELECTION_HULL_MAT },
                ),
            hide ==> final(self).hidden_hull_ids@ == old(self).hidden_hull_ids@.union(
                ids@.filter(|id: i32| scene_holds(old(self).gpu_mems@, id)),
            ),
            hide ==> final(self).selected_hull_ids@ == old(self).selected_hull_ids@,
            !hide ==> final(self).selected_hull_ids@ == old(self).selected_hull_ids@.union(
                ids@.filter(|id: i32| scene_holds(old(self).gpu_mems@, id)),
            ),
            !hide ==> final(self).hidden_hull_ids@ == old(self).hidden_hull_ids@,
    {
        let order: Vec<i32> = snapshot(ids);
        let mat: i32 = if hide { HIDDEN_HULL_MAT } else { SELECTION_HULL_MAT };
        let ghost before: Seq<GpuMem> = self.gpu_mems@;
        let ghost set0: Set<i32> = if hide { self.hidden_hull_ids@ } else { self.selected_hull_ids@ };
        let ghost other: Set<i32> = if hide { self.selected_hull_ids@ } else { self.hidden_hull_ids@ };
        proof {
            assert forall|k: int| 0 <= k < before.len() implies same_geometry(#[trigger] before[k], before[k])
                && before[k].metadata@ == paint_sequence(before[k], before[k].metadata@, order@.take(0), false, mat) by {
                assert(order@.take(0).len() == 0);
            }
            assert(set0.union(order@.take(0).to_set().filter(|x: i32| scene_holds(before, x))) =~= set0);
        }
        let mut i: usize = 0;
        while i < order.len()
            invariant
                i <= order@.len(),
                order@.to_set() == ids@,
                order@.no_duplicates(),
                mat == (if hide { HIDDEN_HULL_MAT } else { SELECTION_HULL_MAT }),
                before == old(self).gpu_mems@,
                set0 == (if hide { old(self).hidden_hull_ids@ } else { old(self).selected_hull_ids@ }),
                other == (if hide { old(self).selected_hull_ids@ } else { old(self).hidden_hull_ids@ }),
                shards_painted(before, self.gpu_mems@, order@.take(i as int), false, mat),
                (if hide { self.hidden_hull_ids@ } else { self.selected_hull_ids@ }) == set0.union(
                    order@.take(i as int).to_set().filter(|x: i32| scene_holds(before, x)),
                ),
                (if hide { self.selected_hull_ids@ } else { self.hidden_hull_ids@ }) == other,
            decreases order@.len() - i,
        {
            let id: i32 = order[i];
            let ghost cur: Seq<GpuMem> = self.gpu_mems@;
            proof {
                lemma_holds_stable(before, cur, order@.take(i as int), false, mat, id);
            }
            let held: bool = self.paint_everywhere(id, false, mat);
            if held {
                if hide {
                    self.hidden_hull_ids.insert(id);
                } else {
                    self.selected_hull_ids.insert(id);
                }
            }
            proof {
                let after: Seq<GpuMem> = self.gpu_mems@;
                assert(order@.take(i as int + 1) =~= order@.take(i as int).push(id));
                assert forall|k: int| 0 <= k < before.len() implies same_geometry(#[trigger] after[k], before[k])
                    && after[k].metadata@ == paint_sequence(before[k], before[k].metadata@, order@.take(i as int + 1), false, mat) by {
                    lemma_paint_single(cur[k], cur[k].metadata@, id, false, mat);
                    lemma_paint_extend(before[k], cur[k], after[k], order@.take(i as int), id, false, mat);
                }
                let cur_set = if hide { self.hidden_hull_ids@ } else { self.selected_hull_ids@ };
                assert(order@.take(i as int + 1).to_set() =~= order@.take(i as int).to_set().insert(id)) by {
                    assert forall|x: i32| #[trigger] order@.take(i as int + 1).contains(x) == (order@.take(i as int).contains(x) || x == id) by {
                        if order@.take(i as int + 1).contains(x) {
                            let j = choose|j: int| 0 <= j < i + 1 && #[trigger] order@.take(i as int + 1)[j] == x;
                            if j < i {
                                assert(order@.take(i as int)[j] == x);
                            }
                        }
                        if order@.take(i as int).contains(x) {
                            let j = choose|j: int| 0 <= j < i && #[trigger] order@.take(i as int)[j] == x;
                            assert(order@.take(i as int + 1)[j] == x);
                        }
                        if x == id {
                            assert(order@.take(i as int + 1)[i as int] == x);
                        }
                    }
                }
                assert(cur_set =~= set0.union(order@.take(i as int + 1).to_set().filter(|x: i32| scene_holds(before, x))));
            }
            i = i + 1;
        }
        proof {
            assert(order@.take(order@.len() as int) =~= order@);
            let final_set = if hide { self.hidden_hull_ids@ } else { self.selected_hull_ids@ };
            assert(final_set =~= set0.union(ids@.filter(|x: i32| scene_holds(before, x))));
        }
    }

    /// Clears the selection, then selects every object of `ids` that some
    /// shard holds.
    pub fn select_by_ids(&mut self, ids: HashSet<i32>)
        ensures
            exists|mid: Seq<GpuMem>, cleared: Seq<i32>, order: Seq<i32>|
                cleared.to_set() == old(self).selected_hull_ids@ && cleared.no_duplicates() && shards_painted(
                    old(self).gpu_mems@,
                    mid,
                    cleared,
                    true,
                    0,
                ) && order.to_set() == ids@ && order.no_duplicates() && shards_painted(
                    mid,
                    final(self).gpu_mems@,
                    order,
                    false,
                    SELECTION_HULL_MAT,
                ),
            final(self).selected_hull_ids@ == old(self).selected_hull_ids@.filter(
                |id: i32| !scene_holds(old(self).gpu_mems@, id),
            ).union(ids@.filter(|id: i32| scene_holds(old(self).gpu_mems@, id))),
            final(self).hidden_hull_ids@ == old(self).hidden_hull_ids@,
    {
        self.unselect_all();
        let ghost mid: Seq<GpuMem> = self.gpu_mems@;
        proof {
            let cleared = choose|c: Seq<i32>|
                c.to_set() == old(self).selected_hull_ids@ && c.no_duplicates() && shards_painted(
                    old(self).gpu_mems@,
                    mid,
                    c,
                    true,
                    0,
                );
            assert forall|id: i32| scene_holds(mid, id) == scene_holds(old(self).gpu_mems@, id) by {
                lemma_holds_stable(old(self).gpu_mems@, mid, cleared, true, 0, id);
            }
            assert(ids@.filter(|id: i32| scene_holds(mid, id)) =~= ids@.filter(
                |id: i32| scene_holds(old(self).gpu_mems@, id),
            ));
        }
        self.paint_set(&ids, false);
    }

    /// Clears the hidden set, then hides every object of `ids` that some
    /// shard holds.
    pub fn hide_by_ids(&mut self, ids: HashSet<i32>)
        ensures
            exists|mid: Seq<GpuMem>, cleared: Seq<i32>, order: Seq<i32>|
                cleared.to_set() == old(self).hidden_hull_ids@ && cleared.no_duplicates() && shards_painted(
                    old(self).gpu_mems@,
                    mid,
                    cleared,
                    true,
                    0,
                ) && order.to_set() == ids@ && order.no_duplicates() && shards_painted(
                    mid,
                    final(self).gpu_mems@,
                    order,
                    false,
                    HIDDEN_HULL_MAT,
                ),
            final(self).hidden_hull_ids@ == old(self).hidden_hull_ids@.filter(
                |id: i32| !scene_holds(old(self).gpu_mems@, id),
            ).union(ids@.filter(|id: i32| scene_holds(old(self).gpu_mems@, id))),
            final(self).selected_hull_ids@ == old(self).selected_hull_ids@,
    {
        self.unhide_all();
        let ghost mid: Seq<GpuMem> = self.gpu_mems@;
        proof {
            let cleared = choose|c: Seq<i32>|
                c.to_set() == old(self).hidden_hull_ids@ && c.no_duplicates() && shards_painted(
                    old(self).gpu_mems@,
                    mid,
                    c,
                    true,
                    0,
                );
            assert forall|id: i32| scene_holds(mid, id) == scene_holds(old(self).gpu_mems@, id) by {
                lemma_holds_stable(old(self).gpu_mems@, mid, cleared, true, 0, id);
            }
            assert(ids@.filter(|id: i32| scene_holds(mid, id)) =~= ids@.filter(
                |id: i32| scene_holds(old(self).gpu_mems@, id),
            ));
        }
        self.paint_set(&ids, true);
    }
}

} // verus!
