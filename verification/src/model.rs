//! The handle-indexed drawable-instance table with visibility partitioning.
//!
//! A `Model` owns the geometry shared by all of its instances (`vertexdata`,
//! `indexdata`) and a dense, partition-ordered collection of per-instance
//! payloads. Each payload is addressed by an opaque, monotonically increasing
//! handle. Instances at indices `[0, first_invisible)` are visible and are
//! what the renderer submits as one contiguous GPU range; instances at
//! `[first_invisible, len)` are retained but not drawn. `handle_to_index` is
//! at all times the exact inverse of `handles`.
use crate::buffer::{Buffer, BufferUpdate, BufferUsage, MemoryLocation, fill_capacity, fill_grows};
use crate::InvalidHandle;
use std::collections::HashMap;
use vstd::prelude::*;

verus! {

broadcast use vstd::std_specs::hash::group_hash_axioms;

/// A sequence with the elements at positions `i` and `j` exchanged.
pub open spec fn swapped<A>(s: Seq<A>, i: int, j: int) -> Seq<A> {
    s.update(i, s[j]).update(j, s[i])
}

/// The handle-indexed drawable-instance table, generic over the vertex
/// payload `V` and the per-instance payload `I`.
pub struct Model<V, I> {
    pub vertexdata: Vec<V>,
    pub indexdata: Vec<u32>,
    pub handle_to_index: HashMap<usize, usize>,
    pub handles: Vec<usize>,
    pub instances: Vec<I>,
    pub first_invisible: usize,
    pub next_handle: usize,
    pub vertexbuffer: Option<Buffer>,
    pub indexbuffer: Option<Buffer>,
    pub instancebuffer: Option<Buffer>,
}

impl<V, I> Model<V, I> {
    /// Well-formedness: `handles` and `instances` are index-aligned, the
    /// partition point is in range, every issued handle is below
    /// `next_handle`, and `handle_to_index` is the exact inverse of
    /// `handles`.
    pub open spec fn wf(self) -> bool {
        &&& self.handles@.len() == self.instances@.len()
        &&& self.first_invisible <= self.instances@.len()
        &&& forall|i: int|
            0 <= i < self.handles@.len() ==> {
                let h = #[trigger] self.handles@[i];
                &&& self.handle_to_index@.contains_key(h)
                &&& self.handle_to_index@[h] == i
                &&& h < self.next_handle
            }
        &&& forall|h: usize|
            #[trigger] self.handle_to_index@.contains_key(h) ==> {
                &&& self.handle_to_index@[h] < self.handles@.len()
                &&& self.handles@[self.handle_to_index@[h] as int] == h
            }
    }

    /// The handle is currently present in the table.
    pub open spec fn contains_handle(self, handle: usize) -> bool {
        self.handle_to_index@.contains_key(handle)
    }

    /// The index currently holding the handle's instance.
    pub open spec fn index_of(self, handle: usize) -> usize {
        self.handle_to_index@[handle]
    }

    /// The instance payload currently owned by the handle.
    pub open spec fn payload_of(self, handle: usize) -> I {
        self.instances@[self.index_of(handle) as int]
    }

    /// The handle's instance lies in the visible prefix.
    pub open spec fn spec_visible(self, handle: usize) -> bool {
        self.index_of(handle) < self.first_invisible
    }

    /// The parts of the table that no table operation (insert, remove,
    /// visibility change, swap) touches: the shared geometry and the GPU
    /// buffer states.
    pub open spec fn same_geometry(pre: Self, post: Self) -> bool {
        &&& post.vertexdata == pre.vertexdata
        &&& post.indexdata == pre.indexdata
        &&& post.vertexbuffer == pre.vertexbuffer
        &&& post.indexbuffer == pre.indexbuffer
        &&& post.instancebuffer == pre.instancebuffer
    }

    /// An empty table over the given shared geometry: no instances, no
    /// issued handles, and no GPU buffers yet.
    pub fn new(vertexdata: Vec<V>, indexdata: Vec<u32>) -> (m: Model<V, I>)
        ensures
            m.wf(),
            m.vertexdata == vertexdata,
            m.indexdata == indexdata,
            m.handles@.len() == 0,
            m.instances@.len() == 0,
            m.handle_to_index@ == Map::<usize, usize>::empty(),
            m.first_invisible == 0,
            m.next_handle == 0,
            m.vertexbuffer is None,
            m.indexbuffer is None,
            m.instancebuffer is None,
    {
        Model {
            vertexdata,
            indexdata,
            handle_to_index: HashMap::new(),
            handles: Vec::new(),
            instances: Vec::new(),
            first_invisible: 0,
            next_handle: 0,
            vertexbuffer: None,
            indexbuffer: None,
            instancebuffer: None,
        }
    }

    /// Look the handle up; `None` exactly when it is not present.
    pub fn get(&self, handle: usize) -> (r: Option<&I>)
        requires
            self.wf(),
        ensures
            match r {
                Some(payload) => self.contains_handle(handle) && *payload == self.payload_of(
                    handle,
                ),
                None => !self.contains_handle(handle),
            },
    {
        match self.handle_to_index.get(&handle) {
            Some(index) => Some(&self.instances[*index]),
            None => None,
        }
    }

    /// Whether the handle's instance is currently eligible for submission;
    /// `InvalidHandle` exactly when the handle is not present.
    pub fn is_visible(&self, handle: usize) -> (r: Result<bool, InvalidHandle>)
        requires
            self.wf(),
        ensures
            match r {
                Ok(v) => self.contains_handle(handle) && v == self.spec_visible(handle),
                Err(_) => !self.contains_handle(handle),
            },
    {
        match self.handle_to_index.get(&handle) {
            Some(index) => Ok(*index < self.first_invisible),
            None => Err(InvalidHandle),
        }
    }

    /// Append a new instance, invisible, under a fresh handle.
    pub fn insert(&mut self, element: I) -> (handle: usize)
        requires
            old(self).wf(),
            old(self).next_handle < usize::MAX,
        ensures
            final(self).wf(),
            handle == old(self).next_handle,
            !old(self).contains_handle(handle),
            final(self).next_handle == old(self).next_handle + 1,
            final(self).handles@ == old(self).handles@.push(handle),
            final(self).instances@ == old(self).instances@.push(element),
            final(self).handle_to_index@ == old(self).handle_to_index@.insert(
                handle,
                old(self).handles@.len() as usize,
            ),
            final(self).first_invisible == old(self).first_invisible,
            final(self).contains_handle(handle),
            final(self).payload_of(handle) == element,
            final(self).spec_visible(handle) == (old(self).first_invisible
                > old(self).handles@.len()),
            forall|h2: usize|
                old(self).contains_handle(h2) ==> #[trigger] final(self).contains_handle(h2)
                    && final(self).payload_of(h2) == old(self).payload_of(h2)
                    && final(self).spec_visible(h2) == old(self).spec_visible(h2),
            Self::same_geometry(*old(self), *final(self)),
    {
        let handle = self.next_handle;
        self.next_handle = self.next_handle + 1;
        let index = self.instances.len();
        self.instances.push(element);
        self.handles.push(handle);
        self.handle_to_index.insert(handle, index);
        proof {
            assert(!old(self).handle_to_index@.contains_key(handle)) by {
                if old(self).handle_to_index@.contains_key(handle) {
                    let i = old(self).handle_to_index@[handle];
                    assert(old(self).handles@[i as int] == handle);
                }
            }
            assert forall|h2: usize| old(self).contains_handle(h2) implies #[trigger] self.contains_handle(h2)
                && self.payload_of(h2) == old(self).payload_of(h2) && self.spec_visible(h2) == old(
                self,
            ).spec_visible(h2) by {
                let i = old(self).handle_to_index@[h2];
                assert(old(self).handles@[i as int] == h2);
            }
        }
        handle
    }

    /// The single primitive every reordering operation builds on: exchange
    /// the instances (and their handles) at the two indices and rewrite the
    /// two affected `handle_to_index` entries. A no-op when the indices are
    /// equal. Payload ownership follows the handles: every handle keeps its
    /// payload; only the indices (and so possibly the visibility) of the two
    /// affected handles change.
    pub fn swap_by_index(&mut self, index1: usize, index2: usize)
        requires
            old(self).wf(),
            index1 < old(self).handles@.len(),
            index2 < old(self).handles@.len(),
        ensures
            final(self).wf(),
            final(self).handles@ == swapped(old(self).handles@, index1 as int, index2 as int),
            final(self).instances@ == swapped(old(self).instances@, index1 as int, index2 as int),
            final(self).handle_to_index@ == old(self).handle_to_index@.insert(
                old(self).handles@[index2 as int],
                index1,
            ).insert(old(self).handles@[index1 as int], index2),
            final(self).handle_to_index@.dom() == old(self).handle_to_index@.dom(),
            final(self).first_invisible == old(self).first_invisible,
            final(self).next_handle == old(self).next_handle,
            forall|h: usize|
                old(self).contains_handle(h) ==> #[trigger] final(self).payload_of(h) == old(
                    self,
                ).payload_of(h),
            forall|h: usize|
                old(self).contains_handle(h) && old(self).index_of(h) != index1 && old(
                    self,
                ).index_of(h) != index2 ==> #[trigger] final(self).index_of(h) == old(
                    self,
                ).index_of(h),
            final(self).index_of(old(self).handles@[index1 as int]) == index2,
            final(self).index_of(old(self).handles@[index2 as int]) == index1,
            Self::same_geometry(*old(self), *final(self)),
    {
        let ghost pre = *old(self);
        if index1 == index2 {
            proof {
                assert(swapped(pre.handles@, index1 as int, index2 as int) =~= pre.handles@);
                assert(swapped(pre.instances@, index1 as int, index2 as int) =~= pre.instances@);
                let h = pre.handles@[index1 as int];
                assert(pre.handle_to_index@.insert(h, index1).insert(h, index2)
                    =~= pre.handle_to_index@);
            }
            return ;
        }
        let handle1 = self.handles[index1];
        let handle2 = self.handles[index2];
        vec_swap(&mut self.handles, index1, index2);
        vec_swap(&mut self.instances, index1, index2);
        self.handle_to_index.insert(handle2, index1);
        self.handle_to_index.insert(handle1, index2);
        proof {
            let post = *self;
            let i1 = index1 as int;
            let i2 = index2 as int;
            // The two handles differ, because the index map inverts `handles`.
            assert(handle1 != handle2) by {
                if handle1 == handle2 {
                    assert(pre.handle_to_index@[handle1] == index1);
                }
            }
            assert(post.handle_to_index@.dom() =~= pre.handle_to_index@.dom());
            assert forall|i: int| 0 <= i < post.handles@.len() implies {
                let h = #[trigger] post.handles@[i];
                &&& post.handle_to_index@.contains_key(h)
                &&& post.handle_to_index@[h] == i
                &&& h < post.next_handle
            } by {
                let h = post.handles@[i];
                if i == i1 {
                } else if i == i2 {
                } else {
                    assert(pre.handles@[i] == h);
                    assert(h != handle1 && h != handle2) by {
                        if h == handle1 {
                            assert(pre.handle_to_index@[h] == i && pre.handle_to_index@[h]
                                == index1);
                        }
                        if h == handle2 {
                            assert(pre.handle_to_index@[h] == i && pre.handle_to_index@[h]
                                == index2);
                        }
                    }
                }
            }
            assert forall|h: usize| #[trigger]
                post.handle_to_index@.contains_key(h) implies {
                &&& post.handle_to_index@[h] < post.handles@.len()
                &&& post.handles@[post.handle_to_index@[h] as int] == h
            } by {
                if h == handle1 {
                } else if h == handle2 {
                } else {
                    let k = pre.handle_to_index@[h];
                    assert(pre.handles@[k as int] == h);
                    assert(k != index1 && k != index2);
                }
            }
            assert forall|h: usize| pre.contains_handle(h) implies #[trigger] post.payload_of(h)
                == pre.payload_of(h) by {
                let k = pre.handle_to_index@[h];
                assert(pre.handles@[k as int] == h);
                if h == handle1 {
                } else if h == handle2 {
                } else {
                    assert(k != index1 && k != index2);
                }
            }
            assert forall|h: usize|
                pre.contains_handle(h) && pre.index_of(h) != index1 && pre.index_of(h)
                    != index2 implies #[trigger] post.index_of(h) == pre.index_of(h) by {
                let k = pre.handle_to_index@[h];
                assert(pre.handles@[k as int] == h);
            }
        }
    }
    /// Effect of promoting a present, currently invisible handle: its
    /// instance is exchanged with the instance at the partition point and
    /// the visible prefix grows by one.
    pub open spec fn promoted(pre: Self, post: Self, handle: usize) -> bool {
        let idx = pre.index_of(handle) as int;
        let fi = pre.first_invisible as int;
        &&& post.handles@ == swapped(pre.handles@, idx, fi)
        &&& post.instances@ == swapped(pre.instances@, idx, fi)
        &&& post.handle_to_index@ == pre.handle_to_index@.insert(
            pre.handles@[fi],
            pre.index_of(handle),
        ).insert(handle, pre.first_invisible)
        &&& post.first_invisible == pre.first_invisible + 1
        &&& post.next_handle == pre.next_handle
        &&& Self::same_geometry(pre, post)
    }

    /// Effect of demoting a present, currently visible handle: its instance
    /// is exchanged with the last visible instance and the visible prefix
    /// shrinks by one.
    pub open spec fn demoted(pre: Self, post: Self, handle: usize) -> bool {
        let idx = pre.index_of(handle) as int;
        let fi = pre.first_invisible as int;
        &&& post.handles@ == swapped(pre.handles@, idx, fi - 1)
        &&& post.instances@ == swapped(pre.instances@, idx, fi - 1)
        &&& post.handle_to_index@ == pre.handle_to_index@.insert(
            pre.handles@[fi - 1],
            pre.index_of(handle),
        ).insert(handle, (pre.first_invisible - 1) as usize)
        &&& post.first_invisible == pre.first_invisible - 1
        &&& post.next_handle == pre.next_handle
        &&& Self::same_geometry(pre, post)
    }

    /// Promotion keeps the table well formed, keeps every handle's payload,
    /// and changes no visibility but the promoted handle's.
    pub proof fn lemma_promote(pre: Self, post: Self, handle: usize)
        requires
            pre.wf(),
            pre.contains_handle(handle),
            !pre.spec_visible(handle),
            Self::promoted(pre, post, handle),
        ensures
            post.wf(),
            post.handle_to_index@.dom() == pre.handle_to_index@.dom(),
            post.contains_handle(handle),
            post.spec_visible(handle),
            forall|h2: usize|
                pre.contains_handle(h2) ==> #[trigger] post.payload_of(h2) == pre.payload_of(h2),
            forall|h2: usize|
                pre.contains_handle(h2) && h2 != handle ==> #[trigger] post.spec_visible(h2)
                    == pre.spec_visible(h2),
    {
        let idx = pre.index_of(handle);
        let fi = pre.first_invisible;
        let other = pre.handles@[fi as int];
        Self::lemma_swap_shape(pre, post.handles@, post.instances@, post.handle_to_index@, idx, fi);
        assert forall|h2: usize|
            pre.contains_handle(h2) && h2 != handle implies #[trigger] post.spec_visible(h2)
            == pre.spec_visible(h2) by {
            let k = pre.handle_to_index@[h2];
            assert(pre.handles@[k as int] == h2);
            if h2 == other {
            } else {
                assert(k != idx && k != fi);
            }
        }
    }

    /// Demotion keeps the table well formed, keeps every handle's payload,
    /// and changes no visibility but the demoted handle's.
    pub proof fn lemma_demote(pre: Self, post: Self, handle: usize)
        requires
            pre.wf(),
            pre.contains_handle(handle),
            pre.spec_visible(handle),
            Self::demoted(pre, post, handle),
        ensures
            post.wf(),
            post.handle_to_index@.dom() == pre.handle_to_index@.dom(),
            post.contains_handle(handle),
            !post.spec_visible(handle),
            forall|h2: usize|
                pre.contains_handle(h2) ==> #[trigger] post.payload_of(h2) == pre.payload_of(h2),
            forall|h2: usize|
                pre.contains_handle(h2) && h2 != handle ==> #[trigger] post.spec_visible(h2)
                    == pre.spec_visible(h2),
    {
        let idx = pre.index_of(handle);
        let fi = pre.first_invisible;
        let last_visible = (fi - 1) as usize;
        let other = pre.handles@[last_visible as int];
        Self::lemma_swap_shape(
            pre,
            post.handles@,
            post.instances@,
            post.handle_to_index@,
            idx,
            last_visible,
        );
        assert forall|h2: usize|
            pre.contains_handle(h2) && h2 != handle implies #[trigger] post.spec_visible(h2)
            == pre.spec_visible(h2) by {
            let k = pre.handle_to_index@[h2];
            assert(pre.handles@[k as int] == h2);
            if h2 == other {
            } else {
                assert(k != idx && k != last_visible);
            }
        }
    }

    /// Exchanging positions `i` and `j` (handles, instances, and the two
    /// index-map entries together) preserves the inverse-map discipline and
    /// every handle's payload, whatever the partition point then is.
    proof fn lemma_swap_shape(
        pre: Self,
        handles: Seq<usize>,
        instances: Seq<I>,
        map: Map<usize, usize>,
        i: usize,
        j: usize,
    )
        requires
            pre.wf(),
            i < pre.handles@.len(),
            j < pre.handles@.len(),
            handles == swapped(pre.handles@, i as int, j as int),
            instances == swapped(pre.instances@, i as int, j as int),
            map == pre.handle_to_index@.insert(pre.handles@[j as int], i).insert(
                pre.handles@[i as int],
                j,
            ),
        ensures
            map.dom() == pre.handle_to_index@.dom(),
            handles.len() == pre.handles@.len(),
            instances.len() == pre.instances@.len(),
            forall|k: int|
                0 <= k < handles.len() ==> {
                    let h = #[trigger] handles[k];
                    &&& map.contains_key(h)
                    &&& map[h] == k
                    &&& h < pre.next_handle
                },
            forall|h: usize|
                #[trigger] map.contains_key(h) ==> map[h] < handles.len() && handles[map[h] as int]
                    == h,
            forall|h: usize|
                pre.contains_handle(h) ==> #[trigger] instances[map[h] as int]
                    == pre.payload_of(h),
    {
        let a = pre.handles@[i as int];
        let b = pre.handles@[j as int];
        assert(map.dom() =~= pre.handle_to_index@.dom());
        if i == j {
            assert(handles =~= pre.handles@);
            assert(instances =~= pre.instances@);
            assert(map =~= pre.handle_to_index@);
        } else {
            assert(a != b) by {
                if a == b {
                    assert(pre.handle_to_index@[a] == i && pre.handle_to_index@[a] == j);
                }
            }
            assert forall|k: int| 0 <= k < handles.len() implies {
                let h = #[trigger] handles[k];
                &&& map.contains_key(h)
                &&& map[h] == k
                &&& h < pre.next_handle
            } by {
                let h = handles[k];
                if k == i as int {
                } else if k == j as int {
                } else {
                    assert(pre.handles@[k] == h);
                    assert(h != a && h != b) by {
                        if h == a {
                            assert(pre.handle_to_index@[h] == k && pre.handle_to_index@[h] == i);
                        }
                        if h == b {
                            assert(pre.handle_to_index@[h] == k && pre.handle_to_index@[h] == j);
                        }
                    }
                }
            }
            assert forall|h: usize| #[trigger] map.contains_key(h) implies map[h] < handles.len()
                && handles[map[h] as int] == h by {
                if h == a {
                } else if h == b {
                } else {
                    let k = pre.handle_to_index@[h];
                    assert(pre.handles@[k as int] == h);
                    assert(k != i && k != j);
                }
            }
            assert forall|h: usize| pre.contains_handle(h) implies #[trigger] instances[map[h] as int]
                == pre.payload_of(h) by {
                let k = pre.handle_to_index@[h];
                assert(pre.handles@[k as int] == h);
                if h == a {
                } else if h == b {
                } else {
                    assert(k != i && k != j);
                }
            }
        }
    }

    /// Make the handle's instance eligible for submission. A no-op when it
    /// already is; otherwise its instance is exchanged with the first
    /// invisible one and the partition point moves up, keeping the visible
    /// instances packed at the front. `InvalidHandle` exactly when the
    /// handle is not present.
    pub fn make_visible(&mut self, handle: usize) -> (r: Result<(), InvalidHandle>)
        requires
            old(self).wf(),
        ensures
            final(self).wf(),
            r is Ok <==> old(self).contains_handle(handle),
            !old(self).contains_handle(handle) ==> *final(self) == *old(self),
            old(self).contains_handle(handle) && old(self).spec_visible(handle) ==> *final(self)
                == *old(self),
            old(self).contains_handle(handle) && !old(self).spec_visible(handle)
                ==> Self::promoted(*old(self), *final(self), handle),
            old(self).contains_handle(handle) ==> final(self).contains_handle(handle) && final(self).spec_visible(handle),
            final(self).handle_to_index@.dom() == old(self).handle_to_index@.dom(),
            final(self).first_invisible == if old(self).contains_handle(handle) && !old(
                self,
            ).spec_visible(handle) {
                old(self).first_invisible + 1
            } else {
                old(self).first_invisible as int
            },
            final(self).next_handle == old(self).next_handle,
            forall|h2: usize|
                old(self).contains_handle(h2) ==> #[trigger] final(self).payload_of(h2) == old(
                    self,
                ).payload_of(h2),
            forall|h2: usize|
                old(self).contains_handle(h2) && h2 != handle ==> #[trigger] final(self).spec_visible(h2) == old(self).spec_visible(h2),
            Self::same_geometry(*old(self), *final(self)),
    {
        let index_opt = self.handle_to_index.get(&handle);
        let index: usize = match index_opt {
            Some(i) => *i,
            None => {
                return Err(InvalidHandle);
            },
        };
        if index < self.first_invisible {
            return Ok(());
        }
        let len = self.handles.len();
        let fi = self.first_invisible;
        proof {
            assert(index < len);
        }
        self.swap_by_index(index, fi);
        self.first_invisible = fi + 1;
        proof {
            Self::lemma_promote(*old(self), *self, handle);
        }
        Ok(())
    }

    /// Withdraw the handle's instance from submission. A no-op when it is
    /// already invisible; otherwise its instance is exchanged with the last
    /// visible one and the partition point moves down. `InvalidHandle`
    /// exactly when the handle is not present.
    pub fn make_invisible(&mut self, handle: usize) -> (r: Result<(), InvalidHandle>)
        requires
            old(self).wf(),
        ensures
            final(self).wf(),
            r is Ok <==> old(self).contains_handle(handle),
            !old(self).contains_handle(handle) ==> *final(self) == *old(self),
            old(self).contains_handle(handle) && !old(self).spec_visible(handle) ==> *final(self)
                == *old(self),
            old(self).contains_handle(handle) && old(self).spec_visible(handle)
                ==> Self::demoted(*old(self), *final(self), handle),
            old(self).contains_handle(handle) ==> final(self).contains_handle(handle) && !final(self).spec_visible(handle),
            final(self).handle_to_index@.dom() == old(self).handle_to_index@.dom(),
            final(self).first_invisible == if old(self).contains_handle(handle) && old(
                self,
            ).spec_visible(handle) {
                old(self).first_invisible - 1
            } else {
                old(self).first_invisible as int
            },
            final(self).next_handle == old(self).next_handle,
            forall|h2: usize|
                old(self).contains_handle(h2) ==> #[trigger] final(self).payload_of(h2) == old(
                    self,
                ).payload_of(h2),
            forall|h2: usize|
                old(self).contains_handle(h2) && h2 != handle ==> #[trigger] final(self).spec_visible(h2) == old(self).spec_visible(h2),
            Self::same_geometry(*old(self), *final(self)),
    {
        let index_opt = self.handle_to_index.get(&handle);
        let index: usize = match index_opt {
            Some(i) => *i,
            None => {
                return Err(InvalidHandle);
            },
        };
        if index >= self.first_invisible {
            return Ok(());
        }
        let fi = self.first_invisible;
        self.swap_by_index(index, fi - 1);
        self.first_invisible = fi - 1;
        proof {
            Self::lemma_demote(*old(self), *self, handle);
        }
        Ok(())
    }

    /// Append a new instance under a fresh handle and promote it at once,
    /// so it joins the visible prefix. Cannot fail: the handle it promotes
    /// was just issued.
    pub fn insert_visibly(&mut self, element: I) -> (handle: usize)
        requires
            old(self).wf(),
            old(self).next_handle < usize::MAX,
        ensures
            final(self).wf(),
            handle == old(self).next_handle,
            !old(self).contains_handle(handle),
            final(self).next_handle == old(self).next_handle + 1,
            final(self).handles@.len() == old(self).handles@.len() + 1,
            final(self).instances@.len() == old(self).instances@.len() + 1,
            final(self).handle_to_index@.dom() == old(self).handle_to_index@.dom().insert(handle),
            final(self).first_invisible == old(self).first_invisible + 1,
            final(self).contains_handle(handle),
            final(self).payload_of(handle) == element,
            final(self).spec_visible(handle),
            forall|h2: usize|
                old(self).contains_handle(h2) ==> #[trigger] final(self).contains_handle(h2)
                    && final(self).payload_of(h2) == old(self).payload_of(h2)
                    && final(self).spec_visible(h2) == old(self).spec_visible(h2),
            Self::same_geometry(*old(self), *final(self)),
    {
        let new_handle = self.insert(element);
        let ghost mid = *self;
        let r = self.make_visible(new_handle);
        proof {
            assert(mid.handle_to_index@.dom() =~= old(
                self,
            ).handle_to_index@.dom().insert(new_handle));
            assert forall|h2: usize| old(self).contains_handle(h2) implies #[trigger] self.contains_handle(
                h2,
            ) && self.payload_of(h2) == old(self).payload_of(h2) && self.spec_visible(h2) == old(
                self,
            ).spec_visible(h2) by {
                assert(mid.contains_handle(h2));
                assert(mid.payload_of(h2) == old(self).payload_of(h2));
            }
        }
        new_handle
    }

    /// Effect of evicting a present handle: demoted first when visible,
    /// then exchanged into the last position and popped. `post`'s index map
    /// is pinned by `post.wf()` together with the exact sequences here and
    /// the domain clause of `remove`.
    pub open spec fn removed(pre: Self, post: Self, handle: usize) -> bool {
        let idx = pre.index_of(handle) as int;
        let fi = pre.first_invisible as int;
        let len = pre.handles@.len() as int;
        let vis = pre.spec_visible(handle);
        let demoted_handles = if vis {
            swapped(pre.handles@, idx, fi - 1)
        } else {
            pre.handles@
        };
        let demoted_instances = if vis {
            swapped(pre.instances@, idx, fi - 1)
        } else {
            pre.instances@
        };
        let cur = if vis {
            fi - 1
        } else {
            idx
        };
        &&& post.handles@ == swapped(demoted_handles, cur, len - 1).drop_last()
        &&& post.instances@ == swapped(demoted_instances, cur, len - 1).drop_last()
        &&& post.first_invisible == if vis {
            fi - 1
        } else {
            fi
        }
        &&& post.next_handle == pre.next_handle
        &&& Self::same_geometry(pre, post)
    }

    /// Evict the handle and return its payload, compacting the dense
    /// storage. Every other handle stays present with its payload and its
    /// visibility unchanged. `InvalidHandle` exactly when the handle is not
    /// present.
    pub fn remove(&mut self, handle: usize) -> (r: Result<I, InvalidHandle>)
        requires
            old(self).wf(),
        ensures
            final(self).wf(),
            r is Ok <==> old(self).contains_handle(handle),
            !old(self).contains_handle(handle) ==> *final(self) == *old(self),
            old(self).contains_handle(handle) ==> {
                &&& Self::removed(*old(self), *final(self), handle)
                &&& r matches Ok(payload) && payload == old(self).payload_of(handle)
                &&& final(self).handle_to_index@.dom() == old(self).handle_to_index@.dom().remove(
                    handle,
                )
                &&& !final(self).contains_handle(handle)
                &&& final(self).handles@.len() == old(self).handles@.len() - 1
            },
            forall|h2: usize|
                old(self).contains_handle(h2) && h2 != handle ==> #[trigger] final(self).contains_handle(h2) && final(self).payload_of(h2) == old(self).payload_of(h2)
                    && final(self).spec_visible(h2) == old(self).spec_visible(h2),
            final(self).next_handle == old(self).next_handle,
            Self::same_geometry(*old(self), *final(self)),
    {
        let index_opt = self.handle_to_index.get(&handle);
        let index: usize = match index_opt {
            Some(i) => *i,
            None => {
                return Err(InvalidHandle);
            },
        };
        let ghost pre = *old(self);
        let mut cur = index;
        if index < self.first_invisible {
            let fi = self.first_invisible;
            self.swap_by_index(index, fi - 1);
            self.first_invisible = fi - 1;
            cur = fi - 1;
            proof {
                Self::lemma_demote(pre, *self, handle);
            }
        }
        let ghost mid1 = *self;
        let last = self.handles.len() - 1;
        proof {
            assert(mid1.index_of(handle) == cur);
            assert(cur >= mid1.first_invisible);
            assert(last >= mid1.first_invisible);
        }
        self.swap_by_index(cur, last);
        let ghost mid2 = *self;
        self.handles.pop();
        self.handle_to_index.remove(&handle);
        let payload_opt = self.instances.pop();
        let payload = match payload_opt {
            Some(p) => p,
            None => {
                proof {
                    assert(false);
                }
                return Err(InvalidHandle);
            },
        };
        proof {
            let post = *self;
            assert(mid2.handles@[last as int] == handle);
            assert(post.handles@ =~= mid2.handles@.drop_last());
            assert(post.instances@ =~= mid2.instances@.drop_last());
            assert(post.handle_to_index@ =~= mid2.handle_to_index@.remove(handle));
            assert(post.handle_to_index@.dom() =~= pre.handle_to_index@.dom().remove(handle));
            assert(payload == pre.payload_of(handle));
            // Well-formedness of the shrunk table.
            assert forall|i: int| 0 <= i < post.handles@.len() implies {
                let h = #[trigger] post.handles@[i];
                &&& post.handle_to_index@.contains_key(h)
                &&& post.handle_to_index@[h] == i
                &&& h < post.next_handle
            } by {
                let h = post.handles@[i];
                assert(mid2.handles@[i] == h);
                assert(mid2.handle_to_index@[h] == i);
                assert(h != handle) by {
                    if h == handle {
                        assert(mid2.handle_to_index@[handle] == last);
                    }
                }
            }
            assert forall|h: usize| #[trigger]
                post.handle_to_index@.contains_key(h) implies {
                &&& post.handle_to_index@[h] < post.handles@.len()
                &&& post.handles@[post.handle_to_index@[h] as int] == h
            } by {
                let k = mid2.handle_to_index@[h];
                assert(mid2.handles@[k as int] == h);
                assert(k != last) by {
                    if k == last {
                        assert(mid2.handles@[last as int] == handle);
                    }
                }
            }
            // Every other handle keeps its payload and its visibility.
            assert forall|h2: usize|
                pre.contains_handle(h2) && h2 != handle implies #[trigger] post.contains_handle(h2)
                && post.payload_of(h2) == pre.payload_of(h2) && post.spec_visible(h2)
                == pre.spec_visible(h2) by {
                let k = mid2.handle_to_index@[h2];
                assert(mid2.handles@[k as int] == h2);
                assert(k != last) by {
                    if k == last {
                        assert(mid2.handles@[last as int] == handle);
                    }
                }
                assert(post.payload_of(h2) == mid2.payload_of(h2));
                assert(mid2.payload_of(h2) == mid1.payload_of(h2));
                assert(mid1.payload_of(h2) == pre.payload_of(h2));
                // Visibility: the final exchange moves only instances that
                // lie at or beyond the partition point.
                assert(mid2.spec_visible(h2) == mid1.spec_visible(h2)) by {
                    let k1 = mid1.handle_to_index@[h2];
                    assert(mid1.handles@[k1 as int] == h2);
                    if k1 == cur || k1 == last {
                    } else {
                        assert(mid2.index_of(h2) == k1);
                    }
                }
                assert(mid1.spec_visible(h2) == pre.spec_visible(h2));
                assert(post.spec_visible(h2) == mid2.spec_visible(h2));
            }
        }
        Ok(payload)
    }

    /// Exchange two instances by their handles. Succeeds trivially when the
    /// handles are equal (even when absent, matching the table's historical
    /// behaviour); otherwise both must be present.
    pub fn swap_by_handle(&mut self, handle1: usize, handle2: usize) -> (r: Result<
        (),
        InvalidHandle,
    >)
        requires
            old(self).wf(),
        ensures
            final(self).wf(),
            r is Ok <==> (handle1 == handle2 || (old(self).contains_handle(handle1) && old(
                self,
            ).contains_handle(handle2))),
            r is Err ==> *final(self) == *old(self),
            handle1 == handle2 ==> *final(self) == *old(self),
            handle1 != handle2 && old(self).contains_handle(handle1) && old(self).contains_handle(
                handle2,
            ) ==> {
                &&& final(self).handles@ == swapped(
                    old(self).handles@,
                    old(self).index_of(handle1) as int,
                    old(self).index_of(handle2) as int,
                )
                &&& final(self).instances@ == swapped(
                    old(self).instances@,
                    old(self).index_of(handle1) as int,
                    old(self).index_of(handle2) as int,
                )
                &&& final(self).index_of(handle1) == old(self).index_of(handle2)
                &&& final(self).index_of(handle2) == old(self).index_of(handle1)
            },
            final(self).handle_to_index@.dom() == old(self).handle_to_index@.dom(),
            final(self).first_invisible == old(self).first_invisible,
            final(self).next_handle == old(self).next_handle,
            forall|h: usize|
                old(self).contains_handle(h) ==> #[trigger] final(self).payload_of(h) == old(
                    self,
                ).payload_of(h),
            Self::same_geometry(*old(self), *final(self)),
    {
        if handle1 == handle2 {
            return Ok(());
        }
        let index1_opt = self.handle_to_index.get(&handle1);
        let index1: usize = match index1_opt {
            Some(i) => *i,
            None => {
                return Err(InvalidHandle);
            },
        };
        let index2_opt = self.handle_to_index.get(&handle2);
        let index2: usize = match index2_opt {
            Some(i) => *i,
            None => {
                return Err(InvalidHandle);
            },
        };
        self.swap_by_index(index1, index2);
        Ok(())
    }

    /// Borrow the handle's payload mutably; `None` exactly when the handle
    /// is not present. Whatever the caller writes through the borrow becomes
    /// the handle's payload; nothing else about the table changes.
    pub fn get_mut(&mut self, handle: usize) -> (r: Option<&mut I>)
        requires
            old(self).wf(),
        ensures
            final(self).wf(),
            r is Some <==> old(self).contains_handle(handle),
            r is None ==> *final(self) == *old(self),
            r matches Some(payload) ==> {
                &&& *payload == old(self).payload_of(handle)
                &&& final(self).instances@ == old(self).instances@.update(
                    old(self).index_of(handle) as int,
                    *final(payload),
                )
                &&& final(self).payload_of(handle) == *final(payload)
                &&& final(self).handles == old(self).handles
                &&& final(self).handle_to_index == old(self).handle_to_index
                &&& final(self).first_invisible == old(self).first_invisible
                &&& final(self).next_handle == old(self).next_handle
                &&& Self::same_geometry(*old(self), *final(self))
            },
    {
        let index_opt = self.handle_to_index.get(&handle);
        let index: usize = match index_opt {
            Some(i) => *i,
            None => {
                return None;
            },
        };
        Some(vstd::std_specs::vec::vec_index_mut(&mut self.instances, index))
    }

    /// Materialize the shared vertex payloads into this table's vertex
    /// buffer, creating it lazily on first use, and report what the owner
    /// of the GPU objects must now allocate and copy.
    pub fn update_vertexbuffer(&mut self) -> (u: BufferUpdate)
        requires
            old(self).wf(),
            old(self).vertexdata@.len() * vstd::layout::size_of::<V>() <= u64::MAX,
        ensures
            final(self).wf(),
            u.bytes == old(self).vertexdata@.len() * vstd::layout::size_of::<V>(),
            u.created == (old(self).vertexbuffer is None),
            u.reallocated == match old(self).vertexbuffer {
                Some(b) => fill_grows(b.size_in_bytes, u.bytes),
                None => false,
            },
            final(self).vertexbuffer matches Some(b) && b == (match old(self).vertexbuffer {
                Some(ob) => Buffer {
                    size_in_bytes: fill_capacity(ob.size_in_bytes, u.bytes),
                    ..ob
                },
                None => Buffer {
                    size_in_bytes: u.bytes,
                    usage: BufferUsage::Vertex,
                    memory_usage: MemoryLocation::CpuToGpu,
                },
            }),
            *final(self) == (Model {
                vertexbuffer: final(self).vertexbuffer,
                ..*old(self)
            }),
    {
        let bytes: u64 = (self.vertexdata.len() as u64) * (core::mem::size_of::<V>() as u64);
        match &mut self.vertexbuffer {
            Some(buffer) => {
                let grew = buffer.fill(self.vertexdata.as_slice());
                BufferUpdate { created: false, reallocated: grew, bytes }
            },
            None => {
                let mut buffer = Buffer::new(bytes, BufferUsage::Vertex, MemoryLocation::CpuToGpu);
                let _grew = buffer.fill(self.vertexdata.as_slice());
                self.vertexbuffer = Some(buffer);
                BufferUpdate { created: true, reallocated: false, bytes }
            },
        }
    }

    /// Materialize the shared triangle indices into this table's index
    /// buffer, creating it lazily on first use, and report what the owner
    /// of the GPU objects must now allocate and copy.
    pub fn update_indexbuffer(&mut self) -> (u: BufferUpdate)
        requires
            old(self).wf(),
            old(self).indexdata@.len() * vstd::layout::size_of::<u32>() <= u64::MAX,
        ensures
            final(self).wf(),
            u.bytes == old(self).indexdata@.len() * vstd::layout::size_of::<u32>(),
            u.created == (old(self).indexbuffer is None),
            u.reallocated == match old(self).indexbuffer {
                Some(b) => fill_grows(b.size_in_bytes, u.bytes),
                None => false,
            },
            final(self).indexbuffer matches Some(b) && b == (match old(self).indexbuffer {
                Some(ob) => Buffer {
                    size_in_bytes: fill_capacity(ob.size_in_bytes, u.bytes),
                    ..ob
                },
                None => Buffer {
                    size_in_bytes: u.bytes,
                    usage: BufferUsage::Index,
                    memory_usage: MemoryLocation::CpuToGpu,
                },
            }),
            *final(self) == (Model {
                indexbuffer: final(self).indexbuffer,
                ..*old(self)
            }),
    {
        let bytes: u64 = (self.indexdata.len() as u64) * (core::mem::size_of::<u32>() as u64);
        match &mut self.indexbuffer {
            Some(buffer) => {
                let grew = buffer.fill(self.indexdata.as_slice());
                BufferUpdate { created: false, reallocated: grew, bytes }
            },
            None => {
                let mut buffer = Buffer::new(bytes, BufferUsage::Index, MemoryLocation::CpuToGpu);
                let _grew = buffer.fill(self.indexdata.as_slice());
                self.indexbuffer = Some(buffer);
                BufferUpdate { created: true, reallocated: false, bytes }
            },
        }
    }

    /// Materialize only the visible prefix `[0, first_invisible)` of the
    /// instance payloads into this table's instance buffer — the renderer
    /// submits exactly that contiguous range. The buffer is created lazily,
    /// and only once there is something visible to upload.
    pub fn update_instancebuffer(&mut self) -> (u: BufferUpdate)
        requires
            old(self).wf(),
            old(self).first_invisible * vstd::layout::size_of::<I>() <= u64::MAX,
        ensures
            final(self).wf(),
            u.bytes == old(self).first_invisible * vstd::layout::size_of::<I>(),
            u.created == (old(self).instancebuffer is None && u.bytes > 0),
            u.reallocated == match old(self).instancebuffer {
                Some(b) => fill_grows(b.size_in_bytes, u.bytes),
                None => false,
            },
            final(self).instancebuffer == (match old(self).instancebuffer {
                Some(ob) => Some(
                    Buffer {
                        size_in_bytes: fill_capacity(ob.size_in_bytes, u.bytes),
                        ..ob
                    },
                ),
                None => if u.bytes > 0 {
                    Some(
                        Buffer {
                            size_in_bytes: u.bytes,
                            usage: BufferUsage::Vertex,
                            memory_usage: MemoryLocation::CpuToGpu,
                        },
                    )
                } else {
                    None
                },
            }),
            *final(self) == (Model {
                instancebuffer: final(self).instancebuffer,
                ..*old(self)
            }),
    {
        let count = self.first_invisible;
        let bytes: u64 = (count as u64) * (core::mem::size_of::<I>() as u64);
        let visible = vstd::slice::slice_subrange(self.instances.as_slice(), 0, count);
        match &mut self.instancebuffer {
            Some(buffer) => {
                let grew = buffer.fill(visible);
                BufferUpdate { created: false, reallocated: grew, bytes }
            },
            None => {
                if bytes > 0 {
                    let mut buffer = Buffer::new(
                        bytes,
                        BufferUsage::Vertex,
                        MemoryLocation::CpuToGpu,
                    );
                    let _grew = buffer.fill(visible);
                    self.instancebuffer = Some(buffer);
                    BufferUpdate { created: true, reallocated: false, bytes }
                } else {
                    BufferUpdate { created: false, reallocated: false, bytes }
                }
            },
        }
    }

    /// The indexed draw this table contributes to a command buffer, if any:
    /// all three buffers must exist and there must be at least one visible
    /// instance. The draw covers the whole index list and exactly the
    /// visible instances.
    pub fn draw(&self) -> (r: Option<DrawCall>)
        requires
            self.wf(),
            self.indexdata@.len() <= u32::MAX,
            self.first_invisible <= u32::MAX,
        ensures
            match r {
                Some(call) => {
                    &&& self.vertexbuffer is Some
                    &&& self.indexbuffer is Some
                    &&& self.instancebuffer is Some
                    &&& self.first_invisible > 0
                    &&& call.index_count == self.indexdata@.len()
                    &&& call.instance_count == self.first_invisible
                },
                None => !(self.vertexbuffer is Some && self.indexbuffer is Some
                    && self.instancebuffer is Some && self.first_invisible > 0),
            },
    {
        if self.vertexbuffer.is_some() && self.indexbuffer.is_some()
            && self.instancebuffer.is_some() && self.first_invisible > 0 {
            Some(
                DrawCall {
                    index_count: self.indexdata.len() as u32,
                    instance_count: self.first_invisible as u32,
                },
            )
        } else {
            None
        }
    }
}

impl<V, I> Model<V, I> {
    /// Law: promoting a currently invisible handle and then demoting it
    /// leaves the table's contents as they were — the handle set, every
    /// handle's payload, every handle's visibility, and the partition point
    /// are all restored, though indices within each partition may differ.
    pub proof fn law_round_trip_promote_demote(t0: Self, t1: Self, t2: Self, handle: usize)
        requires
            t0.wf(),
            t0.contains_handle(handle),
            !t0.spec_visible(handle),
            Self::promoted(t0, t1, handle),
            Self::demoted(t1, t2, handle),
        ensures
            t2.wf(),
            t2.handle_to_index@.dom() == t0.handle_to_index@.dom(),
            t2.first_invisible == t0.first_invisible,
            forall|h2: usize|
                t0.contains_handle(h2) ==> #[trigger] t2.payload_of(h2) == t0.payload_of(h2),
            forall|h2: usize|
                t0.contains_handle(h2) ==> #[trigger] t2.spec_visible(h2) == t0.spec_visible(h2),
            Self::same_geometry(t0, t2),
    {
        Self::lemma_promote(t0, t1, handle);
        Self::lemma_demote(t1, t2, handle);
    }

    /// Law: demoting a currently visible handle and then promoting it
    /// restores the table's contents in the same sense.
    pub proof fn law_round_trip_demote_promote(t0: Self, t1: Self, t2: Self, handle: usize)
        requires
            t0.wf(),
            t0.contains_handle(handle),
            t0.spec_visible(handle),
            Self::demoted(t0, t1, handle),
            Self::promoted(t1, t2, handle),
        ensures
            t2.wf(),
            t2.handle_to_index@.dom() == t0.handle_to_index@.dom(),
            t2.first_invisible == t0.first_invisible,
            forall|h2: usize|
                t0.contains_handle(h2) ==> #[trigger] t2.payload_of(h2) == t0.payload_of(h2),
            forall|h2: usize|
                t0.contains_handle(h2) ==> #[trigger] t2.spec_visible(h2) == t0.spec_visible(h2),
            Self::same_geometry(t0, t2),
    {
        Self::lemma_demote(t0, t1, handle);
        Self::lemma_promote(t1, t2, handle);
    }

    /// Law: after a handle is removed, looking it up finds nothing, while
    /// every other previously present handle is still there with its
    /// payload and its visibility unchanged. The hypotheses are exactly
    /// what `remove` guarantees on success.
    pub proof fn law_remove_spares_others(t0: Self, t1: Self, handle: usize)
        requires
            t0.wf(),
            t1.wf(),
            t0.contains_handle(handle),
            t1.handle_to_index@.dom() == t0.handle_to_index@.dom().remove(handle),
            forall|h2: usize|
                t0.contains_handle(h2) && h2 != handle ==> #[trigger] t1.contains_handle(h2)
                    && t1.payload_of(h2) == t0.payload_of(h2) && t1.spec_visible(h2)
                    == t0.spec_visible(h2),
        ensures
            !t1.contains_handle(handle),
            forall|h2: usize|
                t1.contains_handle(h2) ==> #[trigger] t0.contains_handle(h2) && t1.payload_of(h2)
                    == t0.payload_of(h2) && t1.spec_visible(h2) == t0.spec_visible(h2),
    {
        assert(!t1.handle_to_index@.dom().contains(handle));
    }
}

/// One indexed, instanced draw: the whole index list, drawn once per
/// visible instance.
#[derive(Clone, Copy, Debug, PartialEq, Eq, Structural)]
pub struct DrawCall {
    pub index_count: u32,
    pub instance_count: u32,
}

/// Relies on `<[T]>::swap` from std: exchanges the elements at the two
/// indices and touches nothing else.
#[verifier::external_body]
fn vec_swap<T>(v: &mut Vec<T>, i: usize, j: usize)
    requires
        i < old(v).len(),
        j < old(v).len(),
    ensures
        final(v)@ == swapped(old(v)@, i as int, j as int),
{
    v.swap(i, j);
}

} // verus!
