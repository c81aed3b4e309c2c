//! Instanced batching: instances are grouped by mesh in the order meshes are
//! first batched, and each mesh gets its GPU buffer once.

use vstd::prelude::*;

use std::collections::HashMap;

verus! {

broadcast use vstd::std_specs::hash::group_hash_axioms;

/// Bytes taken by one instance in the instance buffer (a 4x4 matrix of f32).
pub const INSTANCE_BYTES: u64 = 64;

/// The instances pending per mesh, as sequences.
pub open spec fn pending_of<I>(m: Map<u32, Vec<I>>) -> Map<u32, Seq<I>> {
    Map::new(|k: u32| m.contains_key(k), |k: u32| m[k]@)
}

/// Byte offset in the instance buffer where the instances of the `i`-th mesh
/// of `order` start, when the meshes are laid out one after another.
pub open spec fn offset_of<I>(order: Seq<u32>, pending: Map<u32, Seq<I>>, i: int) -> int
    decreases i,
{
    if i <= 0 {
        0
    } else {
        offset_of(order, pending, i - 1) + INSTANCE_BYTES * pending[order[i - 1]].len()
    }
}

/// Offsets never decrease along the order.
pub proof fn lemma_offset_monotonic<I>(order: Seq<u32>, pending: Map<u32, Seq<I>>, i: int, j: int)
    requires
        0 <= i <= j,
    ensures
        offset_of(order, pending, i) <= offset_of(order, pending, j),
    decreases j - i,
{
    if i < j {
        lemma_offset_monotonic(order, pending, i, j - 1);
    }
}

/// One mesh to draw: its instances and the byte range they occupy in the
/// instance buffer.
pub struct DrawCall<I> {
    pub mesh_id: u32,
    pub instances: Vec<I>,
    pub start: u64,
    pub end: u64,
}

/// Pending instances grouped by mesh, with one buffer `B` per mesh ever
/// batched.
pub struct Batch<B, I> {
    mesh_buffers: HashMap<u32, B>,
    to_draw: Vec<u32>,
    instances: HashMap<u32, Vec<I>>,
    last_mesh_id: Option<u32>,
}

impl<B, I> Batch<B, I> {
    /// Buffers kept per mesh id.
    pub closed spec fn buffers(&self) -> Map<u32, B> {
        self.mesh_buffers@
    }

    /// Mesh ids with pending instances, in the order they were first batched.
    pub closed spec fn order(&self) -> Seq<u32> {
        self.to_draw@
    }

    /// Pending instances per mesh id.
    pub closed spec fn pending(&self) -> Map<u32, Seq<I>> {
        pending_of(self.instances@)
    }

    /// The mesh batched last, if any.
    pub closed spec fn last(&self) -> Option<u32> {
        self.last_mesh_id
    }

    /// The order lists each mesh with pending instances exactly once, every
    /// such mesh has at least one instance and a buffer, and the mesh batched
    /// last has a buffer.
    pub open spec fn wf(&self) -> bool {
        &&& self.order().no_duplicates()
        &&& forall|k: u32| #[trigger] self.pending().contains_key(k) <==> self.order().contains(k)
        &&& forall|k: u32| #[trigger] self.pending().contains_key(k) ==> self.pending()[k].len() > 0
        &&& forall|k: u32| #[trigger] self.pending().contains_key(k) ==> self.buffers().contains_key(k)
        &&& self.last() matches Some(l) ==> self.buffers().contains_key(l)
    }

    /// Total bytes the pending instances take in the instance buffer.
    pub open spec fn pending_bytes(&self) -> int {
        offset_of(self.order(), self.pending(), self.order().len() as int)
    }

    /// An empty batch with no buffers.
    pub fn new() -> (r: Self)
        ensures
            r.wf(),
            r.buffers() == Map::<u32, B>::empty(),
            r.order() == Seq::<u32>::empty(),
            r.pending() == Map::<u32, Seq<I>>::empty(),
            r.last() is None,
    {
        let r = Self {
            mesh_buffers: HashMap::new(),
            to_draw: Vec::new(),
            instances: HashMap::new(),
            last_mesh_id: None,
        };
        assert(r.pending() =~= Map::<u32, Seq<I>>::empty());
        r
    }

    /// The buffer kept for `mesh_id`, if any.
    pub fn mesh_buffer(&self, mesh_id: u32) -> (r: Option<&B>)
        ensures
            match r {
                Some(b) => self.buffers().contains_key(mesh_id) && *b == self.buffers()[mesh_id],
                None => !self.buffers().contains_key(mesh_id),
            },
    {
        self.mesh_buffers.get(&mesh_id)
    }

    /// Adds `instance` of mesh `mesh_id`. A mesh other than the last one
    /// batched and without a buffer gets one from `make_buffer`. A mesh with
    /// no pending instance is appended to the draw order.
    pub fn batch<F: FnOnce() -> B>(&mut self, mesh_id: u32, instance: I, make_buffer: F)
        requires
            old(self).wf(),
            call_requires(make_buffer, ()),
        ensures
            final(self).wf(),
            final(self).last() == Some(mesh_id),
            old(self).buffers().contains_key(mesh_id) ==> final(self).buffers() == old(self).buffers(),
            !old(self).buffers().contains_key(mesh_id) ==> final(self).buffers().dom() == old(
                self,
            ).buffers().dom().insert(mesh_id) && final(self).buffers().remove(mesh_id) == old(
                self,
            ).buffers() && call_ensures(make_buffer, (), final(self).buffers()[mesh_id]),
            final(self).pending() == old(self).pending().insert(
                mesh_id,
                if old(self).pending().contains_key(mesh_id) {
                    old(self).pending()[mesh_id].push(instance)
                } else {
                    seq![instance]
                },
            ),
            final(self).order() == if old(self).pending().contains_key(mesh_id) {
                old(self).order()
            } else {
                old(self).order().push(mesh_id)
            },
    {
        let same_as_last = match self.last_mesh_id {
            Some(last) => last == mesh_id,
            None => false,
        };
        if !same_as_last {
            if !self.mesh_buffers.contains_key(&mesh_id) {
                let buffer = make_buffer();
                self.mesh_buffers.insert(mesh_id, buffer);
                assert(self.mesh_buffers@.remove(mesh_id) =~= old(self).mesh_buffers@);
            }
        }
        let ghost pending0 = self.pending();
        match self.instances.remove(&mesh_id) {
            Some(mut list) => {
                list.push(instance);
                self.instances.insert(mesh_id, list);
            },
            None => {
                let mut list = Vec::new();
                list.push(instance);
                self.instances.insert(mesh_id, list);
                assert(!pending0.contains_key(mesh_id));
                assert(!old(self).pending().contains_key(mesh_id));
                assert(!old(self).to_draw@.contains(mesh_id));
                self.to_draw.push(mesh_id);
            },
        }
        self.last_mesh_id = Some(mesh_id);
        assert(self.pending() =~= pending0.insert(
            mesh_id,
            if pending0.contains_key(mesh_id) {
                pending0[mesh_id].push(instance)
            } else {
                seq![instance]
            },
        ));
        assert forall|k: u32| #[trigger] self.pending().contains_key(k) <==> self.order().contains(k) by {
            assert(old(self).pending().contains_key(k) <==> old(self).order().contains(k));
            assert(self.pending().contains_key(k) == (k == mesh_id || pending0.contains_key(k)));
            if pending0.contains_key(mesh_id) {
                assert(self.order() == old(self).order());
                if k == mesh_id {
                    assert(old(self).pending().contains_key(k));
                }
            } else {
                assert(self.order() == old(self).order().push(mesh_id));
                if old(self).order().contains(k) {
                    let j = choose|j: int| 0 <= j < old(self).order().len() && old(self).order()[j] == k;
                    assert(self.order()[j] == k);
                }
                if self.order().contains(k) && k != mesh_id {
                    let j = choose|j: int| 0 <= j < self.order().len() && self.order()[j] == k;
                    assert(old(self).order()[j] == k);
                }
                if k == mesh_id {
                    assert(self.order()[self.order().len() - 1] == k);
                }
            }
        }
    }

    /// Hands out every pending mesh in draw order with its instances and
    /// their byte range in the instance buffer, laid out back to back from
    /// offset 0; afterwards nothing is pending.
    pub fn take_draws(&mut self) -> (r: Vec<DrawCall<I>>)
        requires
            old(self).wf(),
            old(self).pending_bytes() <= u64::MAX,
        ensures
            final(self).wf(),
            final(self).buffers() == old(self).buffers(),
            final(self).last() == old(self).last(),
            final(self).order() == Seq::<u32>::empty(),
            final(self).pending() == Map::<u32, Seq<I>>::empty(),
            r@.len() == old(self).order().len(),
            forall|i: int|
                0 <= i < r@.len() ==> {
                    let call = #[trigger] r@[i];
                    let id = old(self).order()[i];
                    &&& call.mesh_id == id
                    &&& call.instances@ == old(self).pending()[id]
                    &&& call.start == offset_of(old(self).order(), old(self).pending(), i)
                    &&& call.end == offset_of(old(self).order(), old(self).pending(), i + 1)
                    &&& final(self).buffers().contains_key(id)
                },
    {
        let ghost order = self.order();
        let ghost pending = self.pending();
        let mut draws: Vec<DrawCall<I>> = Vec::new();
        let n = self.to_draw.len();
        let mut start: u64 = 0;
        let mut i: usize = 0;
        while i < n
            invariant
                n == order.len(),
                0 <= i <= n,
                self.to_draw@ == order,
                order.no_duplicates(),
                forall|k: u32| #[trigger] pending.contains_key(k) <==> order.contains(k),
                forall|k: u32| #[trigger] pending.contains_key(k) ==> self.mesh_buffers@.contains_key(k),
                self.mesh_buffers@ == old(self).mesh_buffers@,
                self.last_mesh_id == old(self).last_mesh_id,
                offset_of(order, pending, n as int) <= u64::MAX,
                start == offset_of(order, pending, i as int),
                self.pending() == pending.remove_keys(order.take(i as int).to_set()),
                draws@.len() == i,
                forall|j: int|
                    0 <= j < i ==> {
                        let call = #[trigger] draws@[j];
                        &&& call.mesh_id == order[j]
                        &&& call.instances@ == pending[order[j]]
                        &&& call.start == offset_of(order, pending, j)
                        &&& call.end == offset_of(order, pending, j + 1)
                    },
            decreases n - i,
        {
            let mesh_id = self.to_draw[i];
            proof {
                assert(order.contains(mesh_id)) by { assert(order[i as int] == mesh_id); }
                assert(!order.take(i as int).to_set().contains(mesh_id)) by {
                    if order.take(i as int).contains(mesh_id) {
                        let j = choose|j: int| 0 <= j < i && order.take(i as int)[j] == mesh_id;
                        assert(order[j] == order[i as int]);
                    }
                }
                lemma_offset_monotonic(order, pending, i + 1, n as int);
            }
            let ghost before = self.pending();
            let ghost before_map = self.instances@;
            proof {
                assert(pending.contains_key(mesh_id));
                assert(before.contains_key(mesh_id));
                assert(before[mesh_id] == pending[mesh_id]);
                assert(before_map.contains_key(mesh_id));
            }
            let list = match self.instances.remove(&mesh_id) {
                Some(list) => list,
                None => {
                    proof {
                        assert(false);
                    }
                    Vec::new()
                },
            };
            assert(list == before_map[mesh_id]);
            assert(list@ == pending[mesh_id]);
            let len = list.len() as u64;
            let end = start + len * INSTANCE_BYTES;
            draws.push(DrawCall { mesh_id, instances: list, start, end });
            proof {
                assert(order.take(i + 1).to_set() =~= order.take(i as int).to_set().insert(mesh_id)) by {
                    assert forall|k: u32| order.take(i + 1).to_set().contains(k) <==> order.take(i as int).to_set().insert(mesh_id).contains(k) by {
                        if order.take(i + 1).contains(k) {
                            let j = choose|j: int| 0 <= j < i + 1 && #[trigger] order.take(i + 1)[j] == k;
                            if j < i { assert(order.take(i as int)[j] == k); }
                        }
                        if order.take(i as int).contains(k) {
                            let j = choose|j: int| 0 <= j < i && #[trigger] order.take(i as int)[j] == k;
                            assert(order.take(i + 1)[j] == k);
                        }
                        if k == mesh_id { assert(order.take(i + 1)[i as int] == k); }
                    }
                }
                assert(self.pending() =~= before.remove(mesh_id));
                assert(before.remove(mesh_id) =~= pending.remove_keys(order.take(i + 1).to_set()));
            }
            start = end;
            i = i + 1;
        }
        self.to_draw.clear();
        proof {
            assert forall|j: int| 0 <= j < n implies self.mesh_buffers@.contains_key(#[trigger] order[j]) by {
                assert(order.contains(order[j]));
                assert(pending.contains_key(order[j]));
            }
            assert(order.take(n as int) =~= order);
            assert forall|k: u32| !#[trigger] self.pending().contains_key(k) by {
                if pending.contains_key(k) {
                    assert(order.to_set().contains(k));
                }
            }
            assert(self.pending() =~= Map::<u32, Seq<I>>::empty());
        }
        draws
    }
}

/// The byte ranges handed out by [`Batch::take_draws`] tile the instance
/// buffer from offset 0: each starts where the previous one ends, is as long
/// as its instances need, and ranges of different meshes do not overlap.
pub proof fn law_draw_ranges_tile<I>(order: Seq<u32>, pending: Map<u32, Seq<I>>, i: int, j: int)
    requires
        0 <= i < j,
    ensures
        offset_of(order, pending, 0) == 0,
        offset_of(order, pending, i + 1) - offset_of(order, pending, i) == INSTANCE_BYTES
            * pending[order[i]].len(),
        offset_of(order, pending, i + 1) <= offset_of(order, pending, j),
{
    lemma_offset_monotonic(order, pending, i + 1, j);
}

} // verus!
