//! The mathematical model of the tiered texture cache.
//!
//! A cache is modelled by two finite maps (the device tier and the host
//! tier), a record table, and the priority ordering, whose front is index 0
//! and whose back is the next candidate for eviction. Every operation of the
//! texture manager is one of the transitions defined here.

use vstd::prelude::*;
use crate::config;
use crate::str_map::{pruned, without};
use crate::types::LoadPriority;

verus! {

/// Where the payload of a texture currently lives.
#[derive(Debug, Clone, Copy, PartialEq, Eq, Structural)]
pub enum TextureLocation {
    /// Resident in device memory.
    GPU,
    /// Held in host memory, ready to be uploaded.
    RAM,
    /// Only in the backing store.
    Storage,
}

/// What the cache records about one texture.
#[derive(Debug, Clone, Copy, PartialEq, Eq, Structural)]
pub struct TextureMetadata {
    /// The tier that holds the payload.
    pub location: TextureLocation,
    /// The time of the latest request for the texture.
    pub last_used: u64,
    /// Whether a load from the backing store is in flight.
    pub loading: bool,
    /// The size of the payload in bytes.
    pub size: usize,
}

/// What a request for a texture calls for.
#[derive(Debug, Clone, Copy, PartialEq, Eq, Structural)]
pub enum Decision {
    /// The texture is on the device: hand out its handle.
    Hit,
    /// The texture is in host memory and the request may promote it.
    Promote,
    /// The texture is cold and must be loaded from the backing store.
    Load,
    /// Nothing is handed out and nothing is started.
    Nothing,
}

/// The sum of the recorded sizes of the textures in `ids`.
pub open spec fn total_size(ids: Set<Seq<char>>, records: Map<Seq<char>, TextureMetadata>) -> nat
    decreases ids.len(),
    when ids.finite()
{
    if ids.len() == 0 {
        0
    } else {
        let id = ids.choose();
        records[id].size as nat + total_size(ids.remove(id), records)
    }
}

/// Taking one texture out of a set lowers the total by its size.
pub proof fn lemma_total_size_remove(
    ids: Set<Seq<char>>,
    records: Map<Seq<char>, TextureMetadata>,
    id: Seq<char>,
)
    requires
        ids.finite(),
        ids.contains(id),
    ensures
        total_size(ids, records) == total_size(ids.remove(id), records) + records[id].size,
    decreases ids.len(),
{
    let c = ids.choose();
    if c != id {
        lemma_total_size_remove(ids.remove(c), records, id);
        let rest = ids.remove(id);
        lemma_total_size_remove(rest, records, c);
        assert(ids.remove(c).remove(id) =~= rest.remove(c));
    }
}

/// Adding a texture to a set raises the total by its size.
pub proof fn lemma_total_size_insert(
    ids: Set<Seq<char>>,
    records: Map<Seq<char>, TextureMetadata>,
    id: Seq<char>,
)
    requires
        ids.finite(),
        !ids.contains(id),
    ensures
        total_size(ids.insert(id), records) == total_size(ids, records) + records[id].size,
{
    lemma_total_size_remove(ids.insert(id), records, id);
    assert(ids.insert(id).remove(id) =~= ids);
}

/// The total depends only on the sizes recorded for the textures in the set.
pub proof fn lemma_total_size_frame(
    ids: Set<Seq<char>>,
    before: Map<Seq<char>, TextureMetadata>,
    after: Map<Seq<char>, TextureMetadata>,
)
    requires
        ids.finite(),
        forall|id: Seq<char>| ids.contains(id) ==> before[id].size == after[id].size,
    ensures
        total_size(ids, before) == total_size(ids, after),
    decreases ids.len(),
{
    if ids.len() != 0 {
        let c = ids.choose();
        lemma_total_size_frame(ids.remove(c), before, after);
    }
}

/// No total exceeds the number of textures times the largest size.
pub proof fn lemma_total_size_bound(ids: Set<Seq<char>>, records: Map<Seq<char>, TextureMetadata>)
    requires
        ids.finite(),
    ensures
        total_size(ids, records) <= ids.len() * usize::MAX,
    decreases ids.len(),
{
    if ids.len() != 0 {
        let c = ids.choose();
        lemma_total_size_bound(ids.remove(c), records);
        assert(ids.len() * usize::MAX == (ids.len() - 1) * usize::MAX + usize::MAX)
            by (nonlinear_arith);
    }
}

/// Whether a record last used at `last_used` is idle at time `now`.
pub open spec fn is_idle(last_used: u64, now: u64) -> bool {
    now - last_used >= config::IDLE_TIMEOUT
}

/// One thing that can happen to a cache: a call of one of the operations of
/// the texture manager, with its arguments.
pub enum CacheEvent<T> {
    /// A request for a texture.
    Request { id: Seq<char>, priority: LoadPriority, now: u64 },
    /// The end of the upload for a promotion.
    Promotion { id: Seq<char>, priority: LoadPriority, handle: Option<T>, data: Seq<u8> },
    /// The end of a load from the backing store.
    Load { id: Seq<char>, handle: Option<T>, size: usize, data: Seq<u8> },
    /// An eviction.
    Eviction { data: Seq<u8> },
    /// A cleanup.
    Cleanup { now: u64 },
}

/// The state of a texture cache whose device handles stand for values of
/// type `T`.
#[verifier::ext_equal]
pub struct CacheModel<T> {
    /// The device tier: the handle of each resident texture.
    pub gpu: Map<Seq<char>, T>,
    /// The host tier: the raw payload of each texture held there.
    pub ram: Map<Seq<char>, Seq<u8>>,
    /// The textures of the host tier, in the order in which they entered it.
    pub ram_order: Seq<Seq<char>>,
    /// The priority ordering; index 0 is the front.
    pub queue: Seq<Seq<char>>,
    /// The record of each known texture.
    pub metadata: Map<Seq<char>, TextureMetadata>,
    /// The capacity of the device tier.
    pub max_gpu: nat,
    /// The capacity of the host tier.
    pub max_ram: nat,
}

impl<T> CacheModel<T> {
    /// The invariant of the cache.
    ///
    /// Both tiers are within their capacity; a texture is in a tier exactly
    /// when its record names that tier; a texture that is being loaded is in
    /// neither; the order of arrival lists the host tier, each texture once;
    /// no texture is ranked twice, and none that is ranked is in the host
    /// tier.
    pub open spec fn wf(self) -> bool {
        &&& self.gpu.dom().finite()
        &&& self.ram.dom().finite()
        &&& self.gpu.dom().len() <= self.max_gpu
        &&& self.ram.dom().len() <= self.max_ram
        &&& forall|id: Seq<char>| #[trigger]
            self.gpu.dom().contains(id) <==> self.metadata.dom().contains(id)
                && self.metadata[id].location == TextureLocation::GPU
        &&& forall|id: Seq<char>| #[trigger]
            self.ram.dom().contains(id) <==> self.metadata.dom().contains(id)
                && self.metadata[id].location == TextureLocation::RAM
        &&& forall|id: Seq<char>| #[trigger]
            self.metadata.dom().contains(id) && self.metadata[id].loading
                ==> self.metadata[id].location == TextureLocation::Storage
        &&& self.ram_order.no_duplicates()
        &&& forall|id: Seq<char>| #[trigger]
            self.ram_order.contains(id) <==> self.ram.dom().contains(id)
        &&& self.queue.no_duplicates()
        &&& forall|i: int|
            0 <= i < self.queue.len() ==> !self.ram.dom().contains(#[trigger] self.queue[i])
    }

    /// An empty cache with the given capacities.
    pub open spec fn empty(max_gpu: nat, max_ram: nat) -> Self {
        CacheModel {
            gpu: Map::empty(),
            ram: Map::empty(),
            ram_order: Seq::empty(),
            queue: Seq::empty(),
            metadata: Map::empty(),
            max_gpu,
            max_ram,
        }
    }

    /// The bytes accounted to the device tier.
    pub open spec fn gpu_bytes(self) -> nat {
        total_size(self.gpu.dom(), self.metadata)
    }

    /// The bytes accounted to the host tier.
    pub open spec fn ram_bytes(self) -> nat {
        total_size(self.ram.dom(), self.metadata)
    }

    /// Whether the device tier has no free slot.
    pub open spec fn gpu_full(self) -> bool {
        self.gpu.dom().len() >= self.max_gpu
    }

    /// Whether the host tier has no free slot.
    pub open spec fn ram_full(self) -> bool {
        self.ram.dom().len() >= self.max_ram
    }

    /// Whether a load of `id` from the backing store is in flight.
    pub open spec fn is_loading(self, id: Seq<char>) -> bool {
        self.metadata.dom().contains(id) && self.metadata[id].loading
    }

    /// The cache with the record of `id` replaced by `record`.
    pub open spec fn with_record(self, id: Seq<char>, record: TextureMetadata) -> Self {
        CacheModel { metadata: self.metadata.insert(id, record), ..self }
    }

    /// A request at time `now` refreshes the record of `id`, if it has one.
    pub open spec fn touch(self, id: Seq<char>, now: u64) -> Self {
        if self.metadata.dom().contains(id) {
            self.with_record(id, TextureMetadata { last_used: now, ..self.metadata[id] })
        } else {
            self
        }
    }

    /// Moves `id` to the front of the ordering, or to its back.
    pub open spec fn rank(self, id: Seq<char>, front: bool) -> Self {
        let rest = without(self.queue, id);
        CacheModel { queue: if front { seq![id] + rest } else { rest.push(id) }, ..self }
    }

    /// Whether position `k` of the ordering holds the texture that an
    /// eviction moves: the one nearest the back that is on the device.
    pub open spec fn is_victim(self, k: int) -> bool {
        &&& 0 <= k < self.queue.len()
        &&& self.gpu.dom().contains(self.queue[k])
        &&& forall|j: int| k < j < self.queue.len() ==> !self.gpu.dom().contains(#[trigger] self.queue[j])
    }

    /// Whether an eviction finds a texture to move.
    pub open spec fn has_victim(self) -> bool {
        exists|k: int| self.is_victim(k)
    }

    /// The position of the texture that an eviction moves.
    pub open spec fn victim_index(self) -> int {
        choose|k: int| self.is_victim(k)
    }

    /// The texture that an eviction moves.
    pub open spec fn victim(self) -> Seq<char> {
        self.queue[self.victim_index()]
    }

    /// The payload that an eviction drops from the host tier to make room:
    /// the one that has been there longest, if the host tier is full.
    pub open spec fn displaced(self) -> Option<Seq<char>> {
        if self.has_victim() && self.ram_full() && self.ram_order.len() > 0 {
            Some(self.ram_order[0])
        } else {
            None
        }
    }

    /// Whether an eviction leaves the texture it moves in the host tier:
    /// there is a texture to move, and the host tier has slots at all.
    pub open spec fn retains_victim(self) -> bool {
        self.has_victim() && !(self.ram_full() && self.ram_order.len() == 0)
    }

    /// One eviction, given the payload `data` read back from the victim.
    ///
    /// The ordering is unwound from its back up to and including the victim,
    /// which leaves the device tier. While the host tier is full the ordering
    /// is unwound further in search of host entries to drop; it holds none,
    /// so it ends up empty, and the payload that has been in the host tier
    /// longest makes way instead and falls back to the backing store. The
    /// victim then enters the host tier with `data`. Only a host tier without
    /// any slot cannot take it: the victim falls back to the backing store
    /// itself. Without a victim only the ordering is unwound.
    pub open spec fn evict(self, data: Seq<u8>) -> Self {
        if !self.has_victim() {
            CacheModel { queue: Seq::empty(), ..self }
        } else {
            let k = self.victim_index();
            let id = self.queue[k];
            let record = self.metadata[id];
            if !self.ram_full() {
                CacheModel {
                    gpu: self.gpu.remove(id),
                    ram: self.ram.insert(id, data),
                    ram_order: self.ram_order.push(id),
                    queue: self.queue.take(k),
                    metadata: self.metadata.insert(
                        id,
                        TextureMetadata { location: TextureLocation::RAM, ..record },
                    ),
                    ..self
                }
            } else if self.ram_order.len() == 0 {
                CacheModel {
                    gpu: self.gpu.remove(id),
                    queue: Seq::empty(),
                    metadata: self.metadata.insert(
                        id,
                        TextureMetadata { location: TextureLocation::Storage, ..record },
                    ),
                    ..self
                }
            } else {
                let oldest = self.ram_order[0];
                CacheModel {
                    gpu: self.gpu.remove(id),
                    ram: self.ram.remove(oldest).insert(id, data),
                    ram_order: self.ram_order.drop_first().push(id),
                    queue: Seq::empty(),
                    metadata: self.metadata.insert(
                        oldest,
                        TextureMetadata {
                            location: TextureLocation::Storage,
                            ..self.metadata[oldest]
                        },
                    ).insert(id, TextureMetadata { location: TextureLocation::RAM, ..record }),
                    ..self
                }
            }
        }
    }

    /// Evicts if, and only if, the device tier is full.
    pub open spec fn make_room(self, data: Seq<u8>) -> Self {
        if self.gpu_full() {
            self.evict(data)
        } else {
            self
        }
    }

    /// Whether a texture can enter the device tier, after an eviction if need be.
    pub open spec fn can_install(self) -> bool {
        !self.gpu_full() || self.has_victim()
    }

    /// The payload of `id` leaves the host tier.
    pub open spec fn release(self, id: Seq<char>) -> Self {
        CacheModel {
            ram: self.ram.remove(id),
            ram_order: without(self.ram_order, id),
            metadata: self.metadata.insert(
                id,
                TextureMetadata { location: TextureLocation::Storage, ..self.metadata[id] },
            ),
            ..self
        }
    }

    /// The texture `id` enters the device tier with `handle`.
    pub open spec fn place(self, id: Seq<char>, handle: T, size: usize) -> Self {
        CacheModel {
            gpu: self.gpu.insert(id, handle),
            metadata: self.metadata.insert(
                id,
                TextureMetadata {
                    location: TextureLocation::GPU,
                    last_used: self.metadata[id].last_used,
                    loading: false,
                    size,
                },
            ),
            ..self
        }
    }

    /// The texture `id` enters the device tier with `handle`, and is ranked.
    pub open spec fn install(self, id: Seq<char>, handle: T, size: usize, front: bool) -> Self {
        self.place(id, handle, size).rank(id, front)
    }

    /// The record of `id` no longer says that a load is in flight.
    pub open spec fn clear_loading(self, id: Seq<char>) -> Self {
        self.with_record(id, TextureMetadata { loading: false, ..self.metadata[id] })
    }

    /// A load of the cold texture `id` starts at time `now`.
    pub open spec fn begin_load(self, id: Seq<char>, now: u64) -> Self {
        if self.metadata.dom().contains(id) {
            self.with_record(id, TextureMetadata { loading: true, ..self.metadata[id] })
        } else {
            self.with_record(
                id,
                TextureMetadata {
                    location: TextureLocation::Storage,
                    last_used: now,
                    loading: true,
                    size: 0,
                },
            )
        }
    }

    /// What a request for `id` at `priority` calls for.
    ///
    /// A texture on the device is handed out at any priority. One in host
    /// memory is promoted unless the priority is `Cache`. A cold one is
    /// loaded only at `Immediate` priority, and only if no load of it is in
    /// flight.
    pub open spec fn decide(self, id: Seq<char>, priority: LoadPriority) -> Decision {
        if self.gpu.dom().contains(id) {
            Decision::Hit
        } else if self.ram.dom().contains(id) {
            if priority == LoadPriority::Cache {
                Decision::Nothing
            } else {
                Decision::Promote
            }
        } else if priority == LoadPriority::Immediate && !self.is_loading(id) {
            Decision::Load
        } else {
            Decision::Nothing
        }
    }

    /// The cache after a request for `id` at `priority`, made at time `now`.
    pub open spec fn request(self, id: Seq<char>, priority: LoadPriority, now: u64) -> Self {
        let touched = self.touch(id, now);
        match self.decide(id, priority) {
            Decision::Hit => touched.rank(id, priority == LoadPriority::Immediate),
            Decision::Promote => touched,
            Decision::Load => touched.begin_load(id, now),
            Decision::Nothing => touched,
        }
    }

    /// Whether a promotion of `id` goes through, given whether the upload
    /// produced a handle.
    pub open spec fn promotes(self, id: Seq<char>, priority: LoadPriority, uploaded: bool) -> bool {
        &&& self.ram.dom().contains(id)
        &&& priority != LoadPriority::Cache
        &&& uploaded
        &&& self.can_install()
    }

    /// The cache after the upload for a promotion of `id` has finished.
    ///
    /// `handle` is what the upload produced, `data` the payload read back
    /// from the texture that an eviction would move.
    pub open spec fn promote(
        self,
        id: Seq<char>,
        priority: LoadPriority,
        handle: Option<T>,
        data: Seq<u8>,
    ) -> Self {
        if !self.ram.dom().contains(id) || priority == LoadPriority::Cache || handle is None {
            self
        } else if !self.can_install() {
            self.evict(data)
        } else {
            self.release(id).make_room(data).install(
                id,
                handle->0,
                self.metadata[id].size,
                priority == LoadPriority::Immediate,
            )
        }
    }

    /// Whether a finished load of `id` puts it on the device.
    pub open spec fn loads(self, id: Seq<char>, loaded: bool) -> bool {
        self.is_loading(id) && loaded && self.can_install()
    }

    /// The cache after a load of `id` from the backing store has finished.
    ///
    /// `handle` is what the load produced, `size` its payload size, `data`
    /// the payload read back from the texture that an eviction would move.
    pub open spec fn load_done(
        self,
        id: Seq<char>,
        handle: Option<T>,
        size: usize,
        data: Seq<u8>,
    ) -> Self {
        if !self.is_loading(id) {
            self
        } else if handle is None {
            self.clear_loading(id)
        } else if !self.can_install() {
            self.evict(data).clear_loading(id)
        } else {
            self.make_room(data).install(id, handle->0, size, true)
        }
    }

    /// Whether a cleanup at time `now` restricted to `scope` purges `id`.
    pub open spec fn purged(self, id: Seq<char>, now: u64, scope: Set<Seq<char>>) -> bool {
        &&& scope.contains(id)
        &&& self.metadata.dom().contains(id)
        &&& is_idle(self.metadata[id].last_used, now)
    }

    /// The textures that a cleanup at time `now` restricted to `scope` purges.
    pub open spec fn purge_set(self, now: u64, scope: Set<Seq<char>>) -> Set<Seq<char>> {
        Set::new(|id: Seq<char>| self.purged(id, now, scope))
    }

    /// The cache with every idle record in `scope` purged, together with
    /// whatever a tier holds for it.
    pub open spec fn purge(self, now: u64, scope: Set<Seq<char>>) -> Self {
        let gone = self.purge_set(now, scope);
        CacheModel {
            gpu: self.gpu.remove_keys(gone),
            ram: self.ram.remove_keys(gone),
            ram_order: pruned(self.ram_order, gone),
            metadata: self.metadata.remove_keys(gone),
            ..self
        }
    }

    /// The cache after a cleanup at time `now`.
    pub open spec fn cleanup(self, now: u64) -> Self {
        self.purge(now, Set::full())
    }

    /// The cache after one event.
    pub open spec fn apply(self, event: CacheEvent<T>) -> Self {
        match event {
            CacheEvent::Request { id, priority, now } => self.request(id, priority, now),
            CacheEvent::Promotion { id, priority, handle, data } => self.promote(
                id,
                priority,
                handle,
                data,
            ),
            CacheEvent::Load { id, handle, size, data } => self.load_done(id, handle, size, data),
            CacheEvent::Eviction { data } => self.evict(data),
            CacheEvent::Cleanup { now } => self.cleanup(now),
        }
    }

    /// The cache after a sequence of events, taken in order.
    pub open spec fn run(self, events: Seq<CacheEvent<T>>) -> Self
        decreases events.len(),
    {
        if events.len() == 0 {
            self
        } else {
            self.run(events.drop_last()).apply(events.last())
        }
    }
}

} // verus!
