//! What holds of every transition of the cache model.
//!
//! The first part shows that each transition keeps the invariant and says how
//! it moves the byte totals. The second part states the laws of the cache as
//! a whole.

use vstd::prelude::*;
use crate::cache_model::{
    is_idle, lemma_total_size_frame, lemma_total_size_insert, lemma_total_size_remove, CacheEvent,
    CacheModel, Decision, TextureLocation, TextureMetadata,
};
use crate::str_map::{
    lemma_pruned, lemma_pruned_one, lemma_pruned_twice, lemma_without, pruned, without,
};
use crate::types::LoadPriority;

verus! {

impl<T> CacheModel<T> {
    /// A texture is never in both tiers.
    pub proof fn lemma_tiers_exclusive(self, id: Seq<char>)
        requires
            self.wf(),
        ensures
            !(self.gpu.dom().contains(id) && self.ram.dom().contains(id)),
    {
    }

    /// The empty cache satisfies the invariant and accounts for no bytes.
    pub proof fn lemma_empty_wf(max_gpu: nat, max_ram: nat)
        ensures
            Self::empty(max_gpu, max_ram).wf(),
            Self::empty(max_gpu, max_ram).gpu_bytes() == 0,
            Self::empty(max_gpu, max_ram).ram_bytes() == 0,
    {
    }

    /// Replacing a record by one with the same tier and size, and no load in
    /// flight unless the texture is in neither tier, keeps the invariant and
    /// the totals.
    pub proof fn lemma_with_record(self, id: Seq<char>, record: TextureMetadata)
        requires
            self.wf(),
            self.metadata.dom().contains(id) ==> record.location == self.metadata[id].location
                && record.size == self.metadata[id].size,
            !self.metadata.dom().contains(id) ==> record.location == TextureLocation::Storage,
            record.loading ==> record.location == TextureLocation::Storage,
        ensures
            self.with_record(id, record).wf(),
            self.with_record(id, record).gpu_bytes() == self.gpu_bytes(),
            self.with_record(id, record).ram_bytes() == self.ram_bytes(),
    {
        let after = self.with_record(id, record);
        lemma_total_size_frame(self.gpu.dom(), self.metadata, after.metadata);
        lemma_total_size_frame(self.ram.dom(), self.metadata, after.metadata);
    }

    /// Refreshing a record keeps the invariant and the totals.
    pub proof fn lemma_touch(self, id: Seq<char>, now: u64)
        requires
            self.wf(),
        ensures
            self.touch(id, now).wf(),
            self.touch(id, now).gpu_bytes() == self.gpu_bytes(),
            self.touch(id, now).ram_bytes() == self.ram_bytes(),
    {
        if self.metadata.dom().contains(id) {
            self.lemma_with_record(id, TextureMetadata { last_used: now, ..self.metadata[id] });
        }
    }

    /// Ranking a texture that is not in the host tier keeps the invariant.
    pub proof fn lemma_rank(self, id: Seq<char>, front: bool)
        requires
            self.wf(),
            !self.ram.dom().contains(id),
        ensures
            self.rank(id, front).wf(),
            self.rank(id, front).queue.contains(id),
    {
        let rest = without(self.queue, id);
        lemma_without(self.queue, id);
        let q = self.rank(id, front).queue;
        if front {
            assert(q[0] == id);
        } else {
            assert(q[rest.len() as int] == id);
        }
    }

    /// An eviction moves one definite texture: the position that holds it is
    /// the only one that qualifies.
    pub proof fn lemma_victim_unique(self, k: int)
        requires
            self.is_victim(k),
        ensures
            self.has_victim(),
            self.victim_index() == k,
            self.victim() == self.queue[k],
    {
    }

    /// The search for a victim from the back of the ordering succeeds if
    /// some position before `n` holds a texture on the device and none from
    /// `n` on does.
    proof fn lemma_victim_search(self, n: int)
        requires
            0 <= n <= self.queue.len(),
            forall|j: int| n <= j < self.queue.len() ==> !self.gpu.dom().contains(#[trigger] self.queue[j]),
            exists|i: int| 0 <= i < n && self.gpu.dom().contains(#[trigger] self.queue[i]),
        ensures
            self.has_victim(),
        decreases n,
    {
        if self.gpu.dom().contains(self.queue[n - 1]) {
            assert(self.is_victim(n - 1));
        } else {
            self.lemma_victim_search(n - 1);
        }
    }

    /// An eviction finds a texture to move exactly when some texture on the
    /// device is ranked in the ordering.
    pub proof fn lemma_victim_exists(self)
        ensures
            self.has_victim() <==> exists|i: int|
                0 <= i < self.queue.len() && self.gpu.dom().contains(#[trigger] self.queue[i]),
    {
        if exists|i: int| 0 <= i < self.queue.len() && self.gpu.dom().contains(#[trigger] self.queue[i]) {
            self.lemma_victim_search(self.queue.len() as int);
        }
    }

    /// What an eviction does to the tiers, the totals and the invariant.
    pub proof fn lemma_evict(self, data: Seq<u8>)
        requires
            self.wf(),
        ensures
            self.evict(data).wf(),
            self.evict(data).max_gpu == self.max_gpu,
            self.evict(data).max_ram == self.max_ram,
            !self.has_victim() ==> self.evict(data).gpu == self.gpu && self.evict(data).ram
                == self.ram && self.evict(data).metadata == self.metadata && self.evict(
                data,
            ).ram_order == self.ram_order,
            self.has_victim() ==> {
                &&& self.gpu.dom().contains(self.victim())
                &&& self.evict(data).gpu == self.gpu.remove(self.victim())
                &&& self.evict(data).gpu.dom().len() == self.gpu.dom().len() - 1
                &&& self.evict(data).gpu_bytes() == self.gpu_bytes()
                    - self.metadata[self.victim()].size
                &&& self.evict(data).ram_bytes() == self.ram_bytes() + (if self.retains_victim() {
                    self.metadata[self.victim()].size as int
                } else {
                    0int
                }) - (match self.displaced() {
                    Some(oldest) => self.metadata[oldest].size as int,
                    None => 0int,
                })
            },
            self.ram_full() && self.ram_order.len() == 0 <==> self.max_ram == 0,
            self.displaced() is Some ==> self.ram.dom().contains(self.displaced()->0)
                && self.displaced()->0 != self.victim(),
    {
        let after = self.evict(data);
        assert(self.ram_order.len() == 0 <==> self.ram.dom().len() == 0) by {
            if self.ram_order.len() > 0 {
                assert(self.ram_order.contains(self.ram_order[0]));
            } else if self.ram.dom().len() > 0 {
                let x = self.ram.dom().choose();
                assert(self.ram_order.contains(x));
            }
        }
        if self.has_victim() {
            let k = self.victim_index();
            let id = self.queue[k];
            assert(!self.ram_order.contains(id));
            lemma_total_size_remove(self.gpu.dom(), self.metadata, id);
            lemma_total_size_frame(self.gpu.dom().remove(id), self.metadata, after.metadata);
            if !self.ram_full() {
                lemma_total_size_insert(self.ram.dom(), after.metadata, id);
                lemma_total_size_frame(self.ram.dom(), self.metadata, after.metadata);
                let order = after.ram_order;
                assert forall|x: Seq<char>| #[trigger]
                    order.contains(x) <==> after.ram.dom().contains(x) by {
                    if self.ram_order.contains(x) {
                        let i = choose|i: int|
                            0 <= i < self.ram_order.len() && self.ram_order[i] == x;
                        assert(order[i] == x);
                    }
                    if x == id {
                        assert(order[self.ram_order.len() as int] == x);
                    }
                }
            } else if self.ram_order.len() == 0 {
                lemma_total_size_frame(self.ram.dom(), self.metadata, after.metadata);
            } else {
                let oldest = self.ram_order[0];
                assert(self.ram_order.contains(oldest));
                let rest = self.ram.dom().remove(oldest);
                lemma_total_size_remove(self.ram.dom(), self.metadata, oldest);
                lemma_total_size_insert(rest, after.metadata, id);
                lemma_total_size_frame(rest, self.metadata, after.metadata);
                let order = after.ram_order;
                let n = self.ram_order.len() as int;
                assert(order[n - 1] == id);
                assert forall|x: Seq<char>| #[trigger]
                    order.contains(x) <==> after.ram.dom().contains(x) by {
                    if self.ram_order.contains(x) && x != oldest {
                        let i = choose|i: int|
                            0 <= i < self.ram_order.len() && self.ram_order[i] == x;
                        assert(order[i - 1] == x);
                    }
                }
            }
        }
    }

    /// Making room keeps the invariant, and leaves a free slot whenever a
    /// texture can be installed.
    pub proof fn lemma_make_room(self, data: Seq<u8>)
        requires
            self.wf(),
        ensures
            self.make_room(data).wf(),
            self.make_room(data).max_gpu == self.max_gpu,
            self.make_room(data).max_ram == self.max_ram,
            self.can_install() ==> !self.make_room(data).gpu_full(),
            forall|id: Seq<char>|
                !self.gpu.dom().contains(id) ==> !#[trigger] self.make_room(data).gpu.dom().contains(id),
    {
        self.lemma_evict(data);
    }

    /// What the departure of a payload from the host tier does.
    pub proof fn lemma_release(self, id: Seq<char>)
        requires
            self.wf(),
            self.ram.dom().contains(id),
        ensures
            self.release(id).wf(),
            self.release(id).gpu_bytes() == self.gpu_bytes(),
            self.release(id).ram_bytes() == self.ram_bytes() - self.metadata[id].size,
            !self.release(id).ram_full() || self.max_ram == 0,
            self.release(id).ram.dom().len() == self.ram.dom().len() - 1,
    {
        let after = self.release(id);
        lemma_without(self.ram_order, id);
        lemma_total_size_remove(self.ram.dom(), self.metadata, id);
        lemma_total_size_frame(self.ram.dom().remove(id), self.metadata, after.metadata);
        lemma_total_size_frame(self.gpu.dom(), self.metadata, after.metadata);
    }

    /// What the entry of a texture into the device tier does.
    pub proof fn lemma_place(self, id: Seq<char>, handle: T, size: usize)
        requires
            self.wf(),
            !self.gpu_full(),
            !self.gpu.dom().contains(id),
            !self.ram.dom().contains(id),
        ensures
            self.place(id, handle, size).wf(),
            self.place(id, handle, size).gpu_bytes() == self.gpu_bytes() + size,
            self.place(id, handle, size).ram_bytes() == self.ram_bytes(),
    {
        let after = self.place(id, handle, size);
        lemma_total_size_insert(self.gpu.dom(), after.metadata, id);
        lemma_total_size_frame(self.gpu.dom(), self.metadata, after.metadata);
        lemma_total_size_frame(self.ram.dom(), self.metadata, after.metadata);
    }

    /// What the entry of a texture into the device tier and into the
    /// ordering does.
    pub proof fn lemma_install(self, id: Seq<char>, handle: T, size: usize, front: bool)
        requires
            self.wf(),
            !self.gpu_full(),
            !self.gpu.dom().contains(id),
            !self.ram.dom().contains(id),
        ensures
            self.install(id, handle, size, front).wf(),
            self.install(id, handle, size, front).gpu_bytes() == self.gpu_bytes() + size,
            self.install(id, handle, size, front).ram_bytes() == self.ram_bytes(),
            self.install(id, handle, size, front).gpu == self.gpu.insert(id, handle),
    {
        self.lemma_place(id, handle, size);
        self.place(id, handle, size).lemma_rank(id, front);
    }

    /// Clearing the loading flag keeps the invariant and the totals.
    pub proof fn lemma_clear_loading(self, id: Seq<char>)
        requires
            self.wf(),
            self.metadata.dom().contains(id),
        ensures
            self.clear_loading(id).wf(),
            self.clear_loading(id).gpu_bytes() == self.gpu_bytes(),
            self.clear_loading(id).ram_bytes() == self.ram_bytes(),
    {
        self.lemma_with_record(id, TextureMetadata { loading: false, ..self.metadata[id] });
    }

    /// Starting a load of a cold texture keeps the invariant and the totals.
    pub proof fn lemma_begin_load(self, id: Seq<char>, now: u64)
        requires
            self.wf(),
            !self.gpu.dom().contains(id),
            !self.ram.dom().contains(id),
        ensures
            self.begin_load(id, now).wf(),
            self.begin_load(id, now).gpu_bytes() == self.gpu_bytes(),
            self.begin_load(id, now).ram_bytes() == self.ram_bytes(),
    {
        if self.metadata.dom().contains(id) {
            self.lemma_with_record(id, TextureMetadata { loading: true, ..self.metadata[id] });
        } else {
            self.lemma_with_record(
                id,
                TextureMetadata {
                    location: TextureLocation::Storage,
                    last_used: now,
                    loading: true,
                    size: 0,
                },
            );
        }
    }

    /// A request keeps the invariant, the tiers and the totals.
    pub proof fn lemma_request(self, id: Seq<char>, priority: LoadPriority, now: u64)
        requires
            self.wf(),
        ensures
            self.request(id, priority, now).wf(),
            self.request(id, priority, now).gpu == self.gpu,
            self.request(id, priority, now).ram == self.ram,
            self.request(id, priority, now).max_gpu == self.max_gpu,
            self.request(id, priority, now).max_ram == self.max_ram,
            self.request(id, priority, now).gpu_bytes() == self.gpu_bytes(),
            self.request(id, priority, now).ram_bytes() == self.ram_bytes(),
    {
        let touched = self.touch(id, now);
        self.lemma_touch(id, now);
        match self.decide(id, priority) {
            Decision::Hit => {
                touched.lemma_rank(id, priority == LoadPriority::Immediate);
            },
            Decision::Load => {
                touched.lemma_begin_load(id, now);
            },
            _ => {},
        }
    }

    /// A finished promotion keeps the invariant.
    pub proof fn lemma_promote(
        self,
        id: Seq<char>,
        priority: LoadPriority,
        handle: Option<T>,
        data: Seq<u8>,
    )
        requires
            self.wf(),
        ensures
            self.promote(id, priority, handle, data).wf(),
            self.promote(id, priority, handle, data).max_gpu == self.max_gpu,
            self.promote(id, priority, handle, data).max_ram == self.max_ram,
            self.promotes(id, priority, handle is Some) ==> {
                &&& self.promote(id, priority, handle, data).gpu.dom().contains(id)
                &&& self.promote(id, priority, handle, data).gpu[id] == handle->0
                &&& !self.promote(id, priority, handle, data).ram.dom().contains(id)
            },
            !self.promotes(id, priority, handle is Some) ==> {
                &&& self.promote(id, priority, handle, data).gpu == self.gpu
                &&& self.promote(id, priority, handle, data).ram == self.ram
                &&& self.promote(id, priority, handle, data).metadata == self.metadata
            },
    {
        if self.promotes(id, priority, handle is Some) {
            let released = self.release(id);
            self.lemma_release(id);
            released.lemma_make_room(data);
            let roomy = released.make_room(data);
            assert(released.can_install()) by {
                if self.has_victim() {
                    assert(released.is_victim(self.victim_index()));
                }
            }
            released.lemma_evict(data);
            roomy.lemma_install(
                id,
                handle->0,
                self.metadata[id].size,
                priority == LoadPriority::Immediate,
            );
        } else {
            self.lemma_evict(data);
        }
    }

    /// A finished load keeps the invariant.
    pub proof fn lemma_load_done(
        self,
        id: Seq<char>,
        handle: Option<T>,
        size: usize,
        data: Seq<u8>,
    )
        requires
            self.wf(),
        ensures
            self.load_done(id, handle, size, data).wf(),
            self.load_done(id, handle, size, data).max_gpu == self.max_gpu,
            self.load_done(id, handle, size, data).max_ram == self.max_ram,
            self.loads(id, handle is Some) ==> {
                &&& self.load_done(id, handle, size, data).gpu.dom().contains(id)
                &&& self.load_done(id, handle, size, data).gpu[id] == handle->0
            },
            !self.loads(id, handle is Some) ==> {
                &&& self.load_done(id, handle, size, data).gpu == self.gpu
                &&& self.load_done(id, handle, size, data).ram == self.ram
            },
    {
        if self.is_loading(id) {
            if handle is None {
                self.lemma_clear_loading(id);
            } else if !self.can_install() {
                self.lemma_evict(data);
                self.evict(data).lemma_clear_loading(id);
            } else {
                self.lemma_make_room(data);
                self.lemma_evict(data);
                let roomy = self.make_room(data);
                roomy.lemma_install(id, handle->0, size, true);
            }
        }
    }

    /// A purge keeps the invariant.
    pub proof fn lemma_purge(self, now: u64, scope: Set<Seq<char>>)
        requires
            self.wf(),
        ensures
            self.purge(now, scope).wf(),
    {
        let after = self.purge(now, scope);
        lemma_pruned(self.ram_order, self.purge_set(now, scope));
        vstd::set_lib::lemma_len_subset(after.gpu.dom(), self.gpu.dom());
        vstd::set_lib::lemma_len_subset(after.ram.dom(), self.ram.dom());
    }

    /// What purging a single texture does to the tiers and the totals.
    pub proof fn lemma_purge_one(self, now: u64, id: Seq<char>)
        requires
            self.wf(),
        ensures
            self.purge(now, set![id]).wf(),
            !self.purged(id, now, set![id]) ==> self.purge(now, set![id]) == self,
            self.purged(id, now, set![id]) ==> {
                &&& self.purge(now, set![id]).gpu == self.gpu.remove(id)
                &&& self.purge(now, set![id]).ram == self.ram.remove(id)
                &&& self.purge(now, set![id]).metadata == self.metadata.remove(id)
                &&& self.purge(now, set![id]).ram_order == without(self.ram_order, id)
                &&& self.purge(now, set![id]).gpu_bytes() == self.gpu_bytes() - (if self.gpu.dom().contains(
                    id,
                ) {
                    self.metadata[id].size as int
                } else {
                    0
                })
                &&& self.purge(now, set![id]).ram_bytes() == self.ram_bytes() - (if self.ram.dom().contains(
                    id,
                ) {
                    self.metadata[id].size as int
                } else {
                    0
                })
            },
    {
        let scope = set![id];
        let after = self.purge(now, scope);
        self.lemma_purge(now, scope);
        lemma_pruned(self.ram_order, self.purge_set(now, scope));
        if self.purged(id, now, scope) {
            assert(self.purge_set(now, scope) =~= set![id]);
            lemma_pruned_one(self.ram_order, id);
            assert(after.gpu =~= self.gpu.remove(id));
            assert(after.ram =~= self.ram.remove(id));
            if self.gpu.dom().contains(id) {
                lemma_total_size_remove(self.gpu.dom(), self.metadata, id);
            } else {
                assert(self.gpu.dom().remove(id) =~= self.gpu.dom());
            }
            if self.ram.dom().contains(id) {
                lemma_total_size_remove(self.ram.dom(), self.metadata, id);
            } else {
                assert(self.ram.dom().remove(id) =~= self.ram.dom());
            }
            lemma_total_size_frame(after.gpu.dom(), self.metadata, after.metadata);
            lemma_total_size_frame(after.ram.dom(), self.metadata, after.metadata);
        }
    }

    /// Purging a wider scope is purging the narrower one and then the
    /// texture that was added.
    pub proof fn lemma_purge_extend(self, now: u64, scope: Set<Seq<char>>, id: Seq<char>)
        ensures
            self.purge(now, scope.insert(id)) == self.purge(now, scope).purge(now, set![id]),
    {
        let narrow = self.purge(now, scope);
        lemma_pruned_twice(
            self.ram_order,
            self.purge_set(now, scope),
            narrow.purge_set(now, set![id]),
        );
        assert(self.purge_set(now, scope.insert(id)) =~= self.purge_set(now, scope).union(
            narrow.purge_set(now, set![id]),
        ));
    }

    /// A purge of any scope that covers every record is a cleanup.
    pub proof fn lemma_purge_all(self, now: u64, scope: Set<Seq<char>>)
        requires
            self.metadata.dom().subset_of(scope),
        ensures
            self.purge(now, scope) == self.cleanup(now),
    {
        assert(self.purge_set(now, scope) =~= self.purge_set(now, Set::full()));
    }

    /// A purge of nothing changes nothing.
    pub proof fn lemma_purge_none(self, now: u64)
        ensures
            self.purge(now, Set::empty()) == self,
    {
        lemma_pruned(self.ram_order, self.purge_set(now, Set::empty()));
    }

    /// One event keeps the invariant and the capacities.
    pub proof fn lemma_apply(self, event: CacheEvent<T>)
        requires
            self.wf(),
        ensures
            self.apply(event).wf(),
            self.apply(event).max_gpu == self.max_gpu,
            self.apply(event).max_ram == self.max_ram,
    {
        match event {
            CacheEvent::Request { id, priority, now } => {
                self.lemma_request(id, priority, now);
            },
            CacheEvent::Promotion { id, priority, handle, data } => {
                self.lemma_promote(id, priority, handle, data);
            },
            CacheEvent::Load { id, handle, size, data } => {
                self.lemma_load_done(id, handle, size, data);
            },
            CacheEvent::Eviction { data } => {
                self.lemma_evict(data);
            },
            CacheEvent::Cleanup { now } => {
                self.lemma_purge(now, Set::full());
            },
        }
    }

    /// Capacity. Whatever is asked of a cache, in whatever order, the device
    /// tier never holds more textures than its capacity and the host tier
    /// never more payloads than its own; and no texture is ever in both.
    pub proof fn lemma_capacities_hold(self, events: Seq<CacheEvent<T>>)
        requires
            self.wf(),
        ensures
            self.run(events).wf(),
            self.run(events).max_gpu == self.max_gpu,
            self.run(events).max_ram == self.max_ram,
            self.run(events).gpu.dom().len() <= self.max_gpu,
            self.run(events).ram.dom().len() <= self.max_ram,
            self.run(events).gpu.dom().disjoint(self.run(events).ram.dom()),
        decreases events.len(),
    {
        if events.len() > 0 {
            self.lemma_capacities_hold(events.drop_last());
            self.run(events.drop_last()).lemma_apply(events.last());
        }
        let last = self.run(events);
        assert forall|id: Seq<char>| !(last.gpu.dom().contains(id) && last.ram.dom().contains(id)) by {
            last.lemma_tiers_exclusive(id);
        }
    }

    /// Only the most urgent requests load. A request below `Immediate`
    /// priority never calls for a load from the backing store; for a cold
    /// texture it calls for nothing, and leaves both tiers and the ordering
    /// as they were.
    pub proof fn lemma_only_immediate_loads(self, id: Seq<char>, priority: LoadPriority, now: u64)
        requires
            self.wf(),
            priority != LoadPriority::Immediate,
        ensures
            self.decide(id, priority) != Decision::Load,
            !self.gpu.dom().contains(id) && !self.ram.dom().contains(id) ==> {
                &&& self.decide(id, priority) == Decision::Nothing
                &&& self.request(id, priority, now) == self.touch(id, now)
                &&& self.request(id, priority, now).gpu == self.gpu
                &&& self.request(id, priority, now).ram == self.ram
                &&& self.request(id, priority, now).queue == self.queue
                &&& !self.request(id, priority, now).is_loading(id) || self.is_loading(id)
            },
    {
    }

    /// Eviction moves a texture down one tier. When an eviction finds a
    /// texture to move and the host tier has slots at all, that texture
    /// leaves the device tier, its record names host memory, and host memory
    /// holds exactly the payload that was read back: a later request that may
    /// promote is offered those bytes for upload.
    pub proof fn lemma_eviction_keeps_payload(self, data: Seq<u8>, priority: LoadPriority)
        requires
            self.wf(),
            self.has_victim(),
            self.max_ram > 0,
        ensures
            self.gpu.dom().contains(self.victim()),
            !self.evict(data).gpu.dom().contains(self.victim()),
            self.evict(data).metadata.dom().contains(self.victim()),
            self.evict(data).metadata[self.victim()].location == TextureLocation::RAM,
            self.evict(data).ram.dom().contains(self.victim()),
            self.evict(data).ram[self.victim()] == data,
            priority != LoadPriority::Cache ==> self.evict(data).decide(self.victim(), priority)
                == Decision::Promote,
    {
        self.lemma_evict(data);
    }

    /// The host tier gives way in order of arrival. An eviction that meets a
    /// full host tier drops from it the payload that arrived first, and only
    /// that one; its record falls back to the backing store.
    pub proof fn lemma_eviction_displaces_oldest(self, data: Seq<u8>)
        requires
            self.wf(),
            self.has_victim(),
            self.ram_full(),
            self.max_ram > 0,
        ensures
            self.displaced() == Some(self.ram_order[0]),
            self.ram.dom().contains(self.ram_order[0]),
            !self.evict(data).ram.dom().contains(self.ram_order[0]),
            self.evict(data).metadata[self.ram_order[0]].location == TextureLocation::Storage,
            forall|id: Seq<char>|
                self.ram.dom().contains(id) && id != self.ram_order[0] ==> self.evict(
                    data,
                ).ram.dom().contains(id) && #[trigger] self.evict(data).ram[id] == self.ram[id],
    {
        self.lemma_evict(data);
    }

    /// A request for a texture on the device is a hit, and a hit is
    /// repeatable: asked again, at any priority and any time, the cache hands
    /// out the same handle, and no request calls for a load.
    pub proof fn lemma_hit_is_repeatable(
        self,
        id: Seq<char>,
        first: LoadPriority,
        first_time: u64,
        second: LoadPriority,
        second_time: u64,
    )
        requires
            self.wf(),
            self.gpu.dom().contains(id),
        ensures
            self.decide(id, first) == Decision::Hit,
            self.request(id, first, first_time).decide(id, second) == Decision::Hit,
            self.request(id, first, first_time).gpu[id] == self.gpu[id],
            self.request(id, first, first_time).request(id, second, second_time).gpu == self.gpu,
    {
        self.lemma_request(id, first, first_time);
        self.request(id, first, first_time).lemma_request(id, second, second_time);
    }

    /// A load that puts a texture on the device makes every later request
    /// for it a hit on the handle that the load produced.
    pub proof fn lemma_loaded_then_hit(
        self,
        id: Seq<char>,
        handle: T,
        size: usize,
        data: Seq<u8>,
        priority: LoadPriority,
    )
        requires
            self.wf(),
            self.loads(id, true),
        ensures
            self.load_done(id, Some(handle), size, data).decide(id, priority) == Decision::Hit,
            self.load_done(id, Some(handle), size, data).gpu[id] == handle,
            !self.load_done(id, Some(handle), size, data).is_loading(id),
    {
        self.lemma_load_done(id, Some(handle), size, data);
        self.lemma_make_room(data);
        self.lemma_evict(data);
    }

    /// A cleanup at a time when every record is idle empties both tiers and
    /// the record table, and leaves no byte accounted for.
    pub proof fn lemma_cleanup_of_idle_cache(self, now: u64)
        requires
            self.wf(),
            forall|id: Seq<char>|
                self.metadata.dom().contains(id) ==> is_idle(
                    (#[trigger] self.metadata[id]).last_used,
                    now,
                ),
        ensures
            self.cleanup(now).gpu == Map::<Seq<char>, T>::empty(),
            self.cleanup(now).ram == Map::<Seq<char>, Seq<u8>>::empty(),
            self.cleanup(now).metadata == Map::<Seq<char>, TextureMetadata>::empty(),
            self.cleanup(now).gpu_bytes() == 0,
            self.cleanup(now).ram_bytes() == 0,
    {
    }

    /// One load at a time. A request that calls for a load marks the texture
    /// as loading, and while it is marked no request calls for another load
    /// of it.
    pub proof fn lemma_one_load_in_flight(
        self,
        id: Seq<char>,
        priority: LoadPriority,
        now: u64,
        next: LoadPriority,
    )
        requires
            self.wf(),
        ensures
            self.is_loading(id) ==> self.decide(id, priority) != Decision::Load,
            self.decide(id, priority) == Decision::Load ==> {
                &&& self.request(id, priority, now).is_loading(id)
                &&& self.request(id, priority, now).decide(id, next) != Decision::Load
            },
    {
    }

    /// A failed load leaves the cache as it was, but for the loading flag.
    pub proof fn lemma_failed_load(self, id: Seq<char>, size: usize, data: Seq<u8>)
        requires
            self.wf(),
            self.is_loading(id),
        ensures
            self.load_done(id, None, size, data).gpu == self.gpu,
            self.load_done(id, None, size, data).ram == self.ram,
            self.load_done(id, None, size, data).ram_order == self.ram_order,
            self.load_done(id, None, size, data).queue == self.queue,
            self.load_done(id, None, size, data).metadata == self.metadata.insert(
                id,
                TextureMetadata { loading: false, ..self.metadata[id] },
            ),
            !self.load_done(id, None, size, data).is_loading(id),
    {
    }
}

} // verus!
