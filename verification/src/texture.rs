//! The texture manager: a cache over three tiers.
//!
//! Device memory holds a bounded number of textures ready for drawing, host
//! memory a bounded number of raw payloads ready for upload, and everything
//! else lives in the backing store. The manager decides; it neither uploads,
//! reads back nor loads. A request answers with the step that the caller has
//! to carry out, and the caller reports the outcome with `finish_promotion`
//! or `finish_load`.

use vstd::prelude::*;
use std::collections::VecDeque;
use std::sync::Arc;
pub use crate::cache_model::{TextureLocation, TextureMetadata};
use crate::cache_model::{CacheModel, Decision};
use crate::config;
use crate::str_map::{key_views, StrMap};
use crate::types::LoadPriority;

verus! {

/// Hands out another reference to a shared texture.
///
/// Calls `Arc::clone`, which returns a pointer to the same allocation: the
/// value behind the result is the value behind `handle`.
#[verifier::external_body]
pub(crate) fn share<T>(handle: &Arc<T>) -> (shared: Arc<T>)
    ensures
        shared == *handle,
{
    Arc::clone(handle)
}

/// The distance of `v` from zero.
pub open spec fn magnitude(v: int) -> int {
    if v < 0 {
        -v
    } else {
        v
    }
}

/// The index of the placeholder texture used for the world position `(x, y)`.
pub open spec fn placeholder_index(x: int, y: int) -> int {
    (magnitude(x) + magnitude(y)) % (config::PROCEDURAL_TEXTURES as int)
}

/// The byte size of an uncompressed texture.
pub fn estimate_texture_size(width: u32, height: u32, channels: u32) -> (size: usize)
    requires
        width * height * channels <= u32::MAX,
    ensures
        size == width * height * channels,
{
    assert(width * height <= width * height * channels || channels == 0) by (nonlinear_arith);
    if channels == 0 {
        0
    } else {
        ((width * height) * channels) as usize
    }
}

/// What the caller has to do after a request.
pub enum LoadStep<T> {
    /// The texture is on the device; this is its handle.
    Ready(Arc<T>),
    /// The texture is in host memory. Upload this payload and report the
    /// outcome with `finish_promotion`.
    Upload(Vec<u8>),
    /// The texture is cold. Load it from the backing store and report the
    /// outcome with `finish_load`.
    Fetch,
    /// Nothing is available and nothing is to be done.
    Unavailable,
}

impl<T> LoadStep<T> {
    /// Whether this step is the answer to a request for `id` at `priority`
    /// made of `cache`: it is the step that the request calls for, and it
    /// carries the handle of the texture, or its payload, as the cache holds
    /// them.
    pub open spec fn answers(self, cache: CacheModel<T>, id: Seq<char>, priority: LoadPriority) -> bool {
        match self {
            LoadStep::Ready(handle) => cache.decide(id, priority) == Decision::Hit && *handle
                == cache.gpu[id],
            LoadStep::Upload(payload) => cache.decide(id, priority) == Decision::Promote
                && payload@ == cache.ram[id],
            LoadStep::Fetch => cache.decide(id, priority) == Decision::Load,
            LoadStep::Unavailable => cache.decide(id, priority) == Decision::Nothing,
        }
    }
}

/// The texture cache. `T` is the type of a texture resident on the device.
pub struct TextureManager<T> {
    gpu_cache: StrMap<Arc<T>>,
    ram_cache: StrMap<Vec<u8>>,
    priority_queue: VecDeque<String>,
    metadata: StrMap<TextureMetadata>,
    procedural_textures: Vec<Arc<T>>,
    gpu_memory_used: u128,
    ram_memory_used: u128,
    max_gpu_textures: usize,
    max_ram_textures: usize,
}

impl<T> View for TextureManager<T> {
    type V = CacheModel<T>;

    closed spec fn view(&self) -> CacheModel<T> {
        CacheModel {
            gpu: self.gpu_cache@.map_values(|h: Arc<T>| *h),
            ram: self.ram_cache@.map_values(|d: Vec<u8>| d@),
            ram_order: self.ram_cache.order(),
            queue: key_views(self.priority_queue@),
            metadata: self.metadata@,
            max_gpu: self.max_gpu_textures as nat,
            max_ram: self.max_ram_textures as nat,
        }
    }
}

impl<T> TextureManager<T> {
    /// The placeholder textures, in the order in which they were given.
    pub closed spec fn placeholders(&self) -> Seq<T> {
        self.procedural_textures@.map_values(|h: Arc<T>| *h)
    }

    /// The three tables are sound, and there are four placeholders.
    spec fn tables_wf(&self) -> bool {
        &&& self.gpu_cache.wf()
        &&& self.ram_cache.wf()
        &&& self.metadata.wf()
        &&& self.procedural_textures@.len() == config::PROCEDURAL_TEXTURES
    }

    /// The invariant of the manager: its model satisfies the cache invariant,
    /// and the byte counters are the totals of the recorded sizes.
    pub closed spec fn wf(&self) -> bool {
        &&& self.tables_wf()
        &&& self@.wf()
        &&& self.gpu_memory_used == self@.gpu_bytes()
        &&& self.ram_memory_used == self@.ram_bytes()
    }

    /// A sound manager has a sound model: in particular, neither tier holds
    /// more than its capacity, and no texture is in both.
    pub proof fn lemma_wf_view(&self)
        requires
            self.wf(),
        ensures
            self@.wf(),
            self@.gpu.dom().len() <= self@.max_gpu,
            self@.ram.dom().len() <= self@.max_ram,
            self@.gpu.dom().disjoint(self@.ram.dom()),
            self.placeholders().len() == config::PROCEDURAL_TEXTURES,
    {
    }

    /// An empty manager with the capacities of the configuration.
    pub fn new(first: T, second: T, third: T, fourth: T) -> (manager: Self)
        ensures
            manager.wf(),
            manager@ == CacheModel::<T>::empty(
                config::MAX_GPU_TEXTURES as nat,
                config::MAX_RAM_TEXTURES as nat,
            ),
            manager.placeholders() == seq![first, second, third, fourth],
    {
        Self::with_limits(
            first,
            second,
            third,
            fourth,
            config::MAX_GPU_TEXTURES,
            config::MAX_RAM_TEXTURES,
        )
    }

    /// An empty manager with the given capacities.
    pub fn with_limits(
        first: T,
        second: T,
        third: T,
        fourth: T,
        max_gpu_textures: usize,
        max_ram_textures: usize,
    ) -> (manager: Self)
        ensures
            manager.wf(),
            manager@ == CacheModel::<T>::empty(max_gpu_textures as nat, max_ram_textures as nat),
            manager.placeholders() == seq![first, second, third, fourth],
    {
        let mut procedural_textures: Vec<Arc<T>> = Vec::new();
        procedural_textures.push(Arc::new(first));
        procedural_textures.push(Arc::new(second));
        procedural_textures.push(Arc::new(third));
        procedural_textures.push(Arc::new(fourth));
        let manager = TextureManager {
            gpu_cache: StrMap::new(),
            ram_cache: StrMap::new(),
            priority_queue: VecDeque::new(),
            metadata: StrMap::new(),
            procedural_textures,
            gpu_memory_used: 0,
            ram_memory_used: 0,
            max_gpu_textures,
            max_ram_textures,
        };
        proof {
            CacheModel::<T>::lemma_empty_wf(max_gpu_textures as nat, max_ram_textures as nat);
            assert(manager@ =~= CacheModel::<T>::empty(
                max_gpu_textures as nat,
                max_ram_textures as nat,
            ));
        }
        manager
    }

    /// The placeholder texture for the world position `(x, y)`. Nothing is
    /// loaded and the cache is not touched.
    pub fn get_texture(&self, x: i32, y: i32) -> (texture: Arc<T>)
        requires
            self.wf(),
        ensures
            *texture == self.placeholders()[placeholder_index(x as int, y as int)],
    {
        let ax: i64 = if x < 0 { -(x as i64) } else { x as i64 };
        let ay: i64 = if y < 0 { -(y as i64) } else { y as i64 };
        let index: usize = ((ax + ay) % 4) as usize;
        share(&self.procedural_textures[index])
    }

    /// The bytes accounted to the device tier and to the host tier.
    pub fn get_memory_stats(&self) -> (stats: (u128, u128))
        requires
            self.wf(),
        ensures
            stats.0 == self@.gpu_bytes(),
            stats.1 == self@.ram_bytes(),
    {
        (self.gpu_memory_used, self.ram_memory_used)
    }

    /// The number of textures on the device.
    pub fn gpu_len(&self) -> (n: usize)
        requires
            self.wf(),
        ensures
            n == self@.gpu.dom().len(),
    {
        assert(self@.gpu.dom() =~= self.gpu_cache@.dom());
        self.gpu_cache.len()
    }

    /// The number of payloads in host memory.
    pub fn ram_len(&self) -> (n: usize)
        requires
            self.wf(),
        ensures
            n == self@.ram.dom().len(),
    {
        assert(self@.ram.dom() =~= self.ram_cache@.dom());
        self.ram_cache.len()
    }

    /// The record kept for `id`, if there is one.
    pub fn record(&self, id: &str) -> (found: Option<TextureMetadata>)
        requires
            self.wf(),
        ensures
            found == (if self@.metadata.dom().contains(id@) {
                Some(self@.metadata[id@])
            } else {
                None
            }),
    {
        match self.metadata.get(id) {
            Some(record) => Some(*record),
            None => None,
        }
    }

    /// The ids in the priority ordering, front first.
    pub fn priority_order(&self) -> (ids: Vec<String>)
        requires
            self.wf(),
        ensures
            key_views(ids@) == self@.queue,
    {
        let mut ids: Vec<String> = Vec::new();
        let mut i: usize = 0;
        while i < self.priority_queue.len()
            invariant
                i <= self.priority_queue@.len(),
                ids@ == self.priority_queue@.take(i as int),
            decreases self.priority_queue@.len() - i,
        {
            ids.push(self.priority_queue[i].clone());
            i += 1;
        }
        ids
    }

    /// Replaces the record of `id`.
    fn update_metadata(&mut self, id: &str, record: TextureMetadata)
        requires
            old(self).tables_wf(),
        ensures
            final(self).tables_wf(),
            final(self)@ == old(self)@.with_record(id@, record),
            final(self).gpu_memory_used == old(self).gpu_memory_used,
            final(self).ram_memory_used == old(self).ram_memory_used,
            final(self).placeholders() == old(self).placeholders(),
    {
        self.metadata.insert(id.to_owned(), record);
    }

    /// Refreshes the record of `id`, if it has one.
    fn touch(&mut self, id: &str, now: u64)
        requires
            old(self).wf(),
        ensures
            final(self).wf(),
            final(self)@ == old(self)@.touch(id@, now),
            final(self).placeholders() == old(self).placeholders(),
    {
        let found = self.record(id);
        if let Some(record) = found {
            proof {
                self@.lemma_touch(id@, now);
            }
            self.update_metadata(
                id,
                TextureMetadata {
                    location: record.location,
                    last_used: now,
                    loading: record.loading,
                    size: record.size,
                },
            );
        }
    }

    /// Moves `id` to the front of the priority ordering, or to its back.
    fn update_priority(&mut self, id: &str, high_priority: bool)
        requires
            old(self).wf(),
            !old(self)@.ram.dom().contains(id@),
        ensures
            final(self).wf(),
            final(self)@ == old(self)@.rank(id@, high_priority),
            final(self).placeholders() == old(self).placeholders(),
    {
        let owned = id.to_owned();
        let ghost before = key_views(self.priority_queue@);
        let mut i: usize = 0;
        let mut found = false;
        while i < self.priority_queue.len() && !found
            invariant
                i <= self.priority_queue@.len(),
                self.priority_queue@ == old(self).priority_queue@,
                forall|j: int| 0 <= j < i ==> before[j] != id@,
                found ==> i < self.priority_queue@.len() && before[i as int] == id@,
                owned@ == id@,
                before == key_views(self.priority_queue@),
            decreases self.priority_queue@.len() - i + (if found { 0int } else { 1int }),
        {
            if self.priority_queue[i] == owned {
                found = true;
            } else {
                i += 1;
            }
        }
        if found {
            let _ = self.priority_queue.remove(i);
        }
        if high_priority {
            self.priority_queue.push_front(owned);
        } else {
            self.priority_queue.push_back(owned);
        }
        proof {
            old(self)@.lemma_rank(id@, high_priority);
            assert(self@ =~= old(self)@.rank(id@, high_priority));
        }
    }

    /// The position in the ordering of the texture that an eviction would
    /// move, if there is one.
    fn victim_position(&self) -> (position: Option<usize>)
        requires
            self.wf(),
        ensures
            match position {
                Some(k) => self@.is_victim(k as int),
                None => !self@.has_victim(),
            },
    {
        let mut i: usize = self.priority_queue.len();
        while i > 0
            invariant
                self.wf(),
                i <= self.priority_queue@.len(),
                forall|j: int|
                    i <= j < self.priority_queue@.len() ==> !self@.gpu.dom().contains(
                        #[trigger] self@.queue[j],
                    ),
            decreases i,
        {
            i -= 1;
            if self.gpu_cache.contains_key(self.priority_queue[i].as_str()) {
                return Some(i);
            }
        }
        None
    }

    /// The handle of the texture that an eviction would move, if it would
    /// find one.
    pub fn eviction_candidate(&self) -> (handle: Option<Arc<T>>)
        requires
            self.wf(),
        ensures
            match handle {
                Some(h) => self@.has_victim() && *h == self@.gpu[self@.victim()],
                None => !self@.has_victim(),
            },
    {
        match self.victim_position() {
            Some(k) => {
                proof {
                    self@.lemma_victim_unique(k as int);
                }
                match self.gpu_cache.get(self.priority_queue[k].as_str()) {
                    Some(h) => Some(share(h)),
                    None => None,
                }
            },
            None => None,
        }
    }

    /// The handle of the texture that has to be read back before the next
    /// texture can enter the device tier: `Some` exactly when the device tier
    /// is full and an eviction finds a texture to move.
    pub fn pending_eviction(&self) -> (handle: Option<Arc<T>>)
        requires
            self.wf(),
        ensures
            match handle {
                Some(h) => self@.gpu_full() && self@.has_victim() && *h == self@.gpu[self@.victim()],
                None => !(self@.gpu_full() && self@.has_victim()),
            },
    {
        if self.gpu_len() < self.max_gpu_textures {
            None
        } else {
            self.eviction_candidate()
        }
    }

    /// Moves the least important texture from the device tier to the host
    /// tier: the one nearest the back of the ordering that is on the device.
    /// `data` is the payload read back from it; `eviction_candidate` hands
    /// out its handle. A full host tier gives up the payload that arrived
    /// first. Says whether a texture left the device tier.
    pub fn evict_least_important(&mut self, data: Vec<u8>) -> (evicted: bool)
        requires
            old(self).wf(),
        ensures
            final(self).wf(),
            final(self)@ == old(self)@.evict(data@),
            evicted == old(self)@.has_victim(),
            final(self).placeholders() == old(self).placeholders(),
    {
        let ghost start = self@;
        let ghost queue0 = self.priority_queue@;
        proof {
            start.lemma_evict(data@);
        }
        // Unwind the ordering from its back until a texture on the device
        // comes up.
        let mut victim: Option<String> = None;
        while victim.is_none() && self.priority_queue.len() > 0
            invariant
                self.wf(),
                self@.gpu == start.gpu,
                self@.ram == start.ram,
                self@.ram_order == start.ram_order,
                self@.metadata == start.metadata,
                self@.max_gpu == start.max_gpu,
                self@.max_ram == start.max_ram,
                self.placeholders() == old(self).placeholders(),
                start == old(self)@,
                start.wf(),
                queue0 == old(self).priority_queue@,
                start.queue == key_views(queue0),
                self.priority_queue@.len() <= queue0.len(),
                self.priority_queue@ == queue0.take(self.priority_queue@.len() as int),
                match victim {
                    Some(id) => start.is_victim(self.priority_queue@.len() as int) && id@
                        == start.queue[self.priority_queue@.len() as int],
                    None => forall|j: int|
                        self.priority_queue@.len() <= j < queue0.len()
                            ==> !start.gpu.dom().contains(#[trigger] start.queue[j]),
                },
            decreases self.priority_queue@.len() + (if victim.is_none() { 1int } else { 0int }),
        {
            let ghost n = self.priority_queue@.len() as int;
            let popped = self.priority_queue.pop_back();
            proof {
                let shrunk = self@;
                assert(shrunk.queue =~= start.queue.take(n - 1));
                assert(shrunk.wf()) by {}
            }
            if let Some(id) = popped {
                if self.gpu_cache.contains_key(id.as_str()) {
                    victim = Some(id);
                }
            }
        }
        let id = match victim {
            Some(id) => id,
            None => {
                return false;
            },
        };
        let ghost k = self.priority_queue@.len() as int;
        proof {
            start.lemma_victim_unique(k);
        }
        let record = match self.record(id.as_str()) {
            Some(record) => record,
            None => TextureMetadata {
                location: TextureLocation::GPU,
                last_used: 0,
                loading: false,
                size: 0,
            },
        };
        // While host memory is full, unwind further and drop what the host
        // tier holds of each entry that comes up.
        while self.ram_cache.len() >= self.max_ram_textures && self.priority_queue.len() > 0
            invariant
                self.wf(),
                self@.gpu == start.gpu,
                self@.ram == start.ram,
                self@.ram_order == start.ram_order,
                self@.metadata == start.metadata,
                self@.max_gpu == start.max_gpu,
                self@.max_ram == start.max_ram,
                self.placeholders() == old(self).placeholders(),
                start.wf(),
                start.queue == key_views(queue0),
                self.priority_queue@.len() <= k <= queue0.len(),
                self.priority_queue@ == queue0.take(self.priority_queue@.len() as int),
                !start.ram_full() ==> self.priority_queue@.len() == k,
            decreases self.priority_queue@.len(),
        {
            let ghost n = self.priority_queue@.len() as int;
            let ghost held = self.ram_cache@;
            assert(self@.ram.dom() =~= held.dom());
            let popped = self.priority_queue.pop_back();
            if let Some(oldest) = popped {
                assert(oldest@ == start.queue[n - 1]);
                let _ = self.ram_cache.remove(oldest.as_str());
                assert(self.ram_cache@ =~= held);
            }
            proof {
                let shrunk = self@;
                assert(shrunk.queue =~= start.queue.take(n - 1));
            }
        }
        assert(self@.ram.dom() =~= self.ram_cache@.dom());
        proof {
            crate::cache_model::lemma_total_size_bound(start.gpu.dom(), start.metadata);
            crate::cache_model::lemma_total_size_bound(start.ram.dom(), start.metadata);
            let most = usize::MAX as int;
            assert(start.ram.dom().len() * most + most <= u128::MAX) by (nonlinear_arith)
                requires
                    0 <= start.ram.dom().len() <= most,
                    most <= 0xffff_ffff_ffff_ffff,
            ;
        }
        // A full host tier gives up the payload that arrived first.
        let displaced = if self.ram_cache.len() >= self.max_ram_textures {
            match self.ram_cache.oldest() {
                Some(oldest) => match self.record(oldest.as_str()) {
                    Some(dropped) => Some((oldest, dropped)),
                    None => None,
                },
                None => None,
            }
        } else {
            None
        };
        let retained = self.ram_cache.len() < self.max_ram_textures || displaced.is_some();
        proof {
            self.ram_cache.lemma_order();
            let order = start.ram_order;
            if order.len() > 0 {
                assert(order.contains(order[0]));
                crate::cache_model::lemma_total_size_remove(
                    start.ram.dom(),
                    start.metadata,
                    order[0],
                );
            }
        }
        let _ = self.gpu_cache.remove(id.as_str());
        self.gpu_memory_used = self.gpu_memory_used - record.size as u128;
        if let Some((oldest, dropped)) = displaced {
            let _ = self.ram_cache.remove(oldest.as_str());
            self.ram_memory_used = self.ram_memory_used - dropped.size as u128;
            self.metadata.insert(
                oldest,
                TextureMetadata {
                    location: TextureLocation::Storage,
                    last_used: dropped.last_used,
                    loading: dropped.loading,
                    size: dropped.size,
                },
            );
        }
        if retained {
            self.ram_cache.insert(id.clone(), data);
            self.ram_memory_used = self.ram_memory_used + record.size as u128;
            self.metadata.insert(
                id,
                TextureMetadata {
                    location: TextureLocation::RAM,
                    last_used: record.last_used,
                    loading: record.loading,
                    size: record.size,
                },
            );
        } else {
            self.metadata.insert(
                id,
                TextureMetadata {
                    location: TextureLocation::Storage,
                    last_used: record.last_used,
                    loading: record.loading,
                    size: record.size,
                },
            );
        }
        assert(self@ =~= start.evict(data@));
        true
    }

    /// Asks for the texture `id` at `priority`, at time `now`.
    ///
    /// The record of `id` is refreshed. A texture on the device is ranked
    /// again and handed out. One in host memory is offered for upload unless
    /// the priority is `Cache`. A cold one is marked as loading and asked for
    /// at `Immediate` priority only, and only while no load of it is in
    /// flight.
    pub fn ensure_loaded(&mut self, id: &str, priority: LoadPriority, now: u64) -> (step: LoadStep<
        T,
    >)
        requires
            old(self).wf(),
        ensures
            final(self).wf(),
            final(self)@ == old(self)@.request(id@, priority, now),
            final(self).placeholders() == old(self).placeholders(),
            final(self)@.gpu == old(self)@.gpu,
            final(self)@.ram == old(self)@.ram,
            step.answers(old(self)@, id@, priority),
            (step is Fetch) ==> priority == LoadPriority::Immediate,
    {
        proof {
            old(self)@.lemma_request(id@, priority, now);
        }
        self.touch(id, now);
        let ghost touched = self@;
        let hit = match self.gpu_cache.get(id) {
            Some(handle) => Some(share(handle)),
            None => None,
        };
        if let Some(handle) = hit {
            self.update_priority(id, priority == LoadPriority::Immediate);
            return LoadStep::Ready(handle);
        }
        let held = match self.ram_cache.get(id) {
            Some(payload) => Some(payload.clone()),
            None => None,
        };
        if let Some(payload) = held {
            if !priority.at_least(LoadPriority::Preload) {
                return LoadStep::Unavailable;
            }
            return LoadStep::Upload(payload);
        }
        if priority != LoadPriority::Immediate {
            return LoadStep::Unavailable;
        }
        proof {
            touched.lemma_begin_load(id@, now);
        }
        match self.record(id) {
            Some(record) => {
                if record.loading {
                    LoadStep::Unavailable
                } else {
                    self.update_metadata(
                        id,
                        TextureMetadata {
                            location: record.location,
                            last_used: record.last_used,
                            loading: true,
                            size: record.size,
                        },
                    );
                    LoadStep::Fetch
                }
            },
            None => {
                self.update_metadata(
                    id,
                    TextureMetadata {
                        location: TextureLocation::Storage,
                        last_used: now,
                        loading: true,
                        size: 0,
                    },
                );
                LoadStep::Fetch
            },
        }
    }

    /// Takes the payload of `id` out of the host tier.
    fn release(&mut self, id: &str)
        requires
            old(self).wf(),
            old(self)@.ram.dom().contains(id@),
        ensures
            final(self).wf(),
            final(self)@ == old(self)@.release(id@),
            final(self).placeholders() == old(self).placeholders(),
    {
        proof {
            self@.lemma_release(id@);
            crate::cache_model::lemma_total_size_remove(self@.ram.dom(), self@.metadata, id@);
        }
        if let Some(record) = self.record(id) {
            let _ = self.ram_cache.remove(id);
            self.ram_memory_used = self.ram_memory_used - record.size as u128;
            self.metadata.insert(
                id.to_owned(),
                TextureMetadata {
                    location: TextureLocation::Storage,
                    last_used: record.last_used,
                    loading: record.loading,
                    size: record.size,
                },
            );
            assert(self@ =~= old(self)@.release(id@));
        }
    }

    /// Puts `texture` into the device tier under `id` and ranks it.
    fn install(&mut self, id: &str, texture: T, size: usize, high_priority: bool) -> (handle: Arc<
        T,
    >)
        requires
            old(self).wf(),
            !old(self)@.gpu_full(),
            !old(self)@.gpu.dom().contains(id@),
            !old(self)@.ram.dom().contains(id@),
            old(self)@.metadata.dom().contains(id@),
        ensures
            final(self).wf(),
            final(self)@ == old(self)@.install(id@, texture, size, high_priority),
            final(self).placeholders() == old(self).placeholders(),
            *handle == texture,
    {
        let ghost start = self@;
        proof {
            start.lemma_place(id@, texture, size);
            crate::cache_model::lemma_total_size_bound(start.gpu.dom(), start.metadata);
            let most = usize::MAX as int;
            assert(start.gpu.dom().len() * most + most <= u128::MAX) by (nonlinear_arith)
                requires
                    0 <= start.gpu.dom().len() <= most,
                    most <= 0xffff_ffff_ffff_ffff,
            ;
        }
        let last_used = match self.record(id) {
            Some(record) => record.last_used,
            None => 0,
        };
        let handle = Arc::new(texture);
        self.gpu_cache.insert(id.to_owned(), share(&handle));
        self.gpu_memory_used = self.gpu_memory_used + size as u128;
        self.metadata.insert(
            id.to_owned(),
            TextureMetadata { location: TextureLocation::GPU, last_used, loading: false, size },
        );
        assert(self@ =~= start.place(id@, texture, size));
        self.update_priority(id, high_priority);
        handle
    }

    /// Reports the outcome of the upload that a request asked for.
    ///
    /// `texture` is what the upload produced, or `None` if it failed.
    /// `victim_data` is the payload read back from the texture that
    /// `pending_eviction` names; it is ignored when nothing is evicted.
    ///
    /// The promotion goes through when `id` is still in host memory, the
    /// priority is not `Cache`, the upload succeeded, and the device tier has
    /// a free slot or can be given one. The payload then leaves host memory,
    /// a full device tier evicts, and the texture enters the device tier,
    /// ranked at the front for `Immediate` priority and at the back otherwise.
    pub fn finish_promotion(
        &mut self,
        id: &str,
        priority: LoadPriority,
        texture: Option<T>,
        victim_data: Vec<u8>,
    ) -> (handle: Option<Arc<T>>)
        requires
            old(self).wf(),
        ensures
            final(self).wf(),
            final(self)@ == old(self)@.promote(id@, priority, texture, victim_data@),
            final(self).placeholders() == old(self).placeholders(),
            match handle {
                Some(h) => old(self)@.promotes(id@, priority, texture is Some) && *h == texture->0,
                None => !old(self)@.promotes(id@, priority, texture is Some),
            },
    {
        let ghost start = self@;
        proof {
            start.lemma_promote(id@, priority, texture, victim_data@);
        }
        let texture = match texture {
            Some(texture) => texture,
            None => {
                return None;
            },
        };
        if !priority.at_least(LoadPriority::Preload) || !self.ram_cache.contains_key(id) {
            return None;
        }
        let full = self.gpu_len() >= self.max_gpu_textures;
        if full && self.victim_position().is_none() {
            self.evict_least_important(victim_data);
            return None;
        }
        let size = match self.record(id) {
            Some(record) => record.size,
            None => 0,
        };
        self.release(id);
        proof {
            let released = start.release(id@);
            start.lemma_release(id@);
            released.lemma_make_room(victim_data@);
            released.lemma_evict(victim_data@);
        }
        if full {
            self.evict_least_important(victim_data);
        }
        let handle = self.install(id, texture, size, priority == LoadPriority::Immediate);
        Some(handle)
    }

    /// Reports the outcome of the load that a request asked for.
    ///
    /// `texture` is what the load produced, or `None` if it failed; `size`
    /// is the size of its payload. `victim_data` is the payload read back
    /// from the texture that `pending_eviction` names; it is ignored when
    /// nothing is evicted.
    ///
    /// Unless a load of `id` is in flight, nothing changes. A failed load
    /// only clears the loading flag. A successful one evicts if the device
    /// tier is full, and puts the texture at the front of the ordering; if no
    /// slot can be freed, the texture is dropped and the flag cleared.
    pub fn finish_load(
        &mut self,
        id: &str,
        texture: Option<T>,
        size: usize,
        victim_data: Vec<u8>,
    ) -> (handle: Option<Arc<T>>)
        requires
            old(self).wf(),
        ensures
            final(self).wf(),
            final(self)@ == old(self)@.load_done(id@, texture, size, victim_data@),
            final(self).placeholders() == old(self).placeholders(),
            match handle {
                Some(h) => old(self)@.loads(id@, texture is Some) && *h == texture->0,
                None => !old(self)@.loads(id@, texture is Some),
            },
    {
        let ghost start = self@;
        proof {
            start.lemma_load_done(id@, texture, size, victim_data@);
            start.lemma_evict(victim_data@);
            start.lemma_make_room(victim_data@);
        }
        let record = match self.record(id) {
            Some(record) => record,
            None => {
                return None;
            },
        };
        if !record.loading {
            return None;
        }
        let settled = TextureMetadata {
            location: record.location,
            last_used: record.last_used,
            loading: false,
            size: record.size,
        };
        let texture = match texture {
            Some(texture) => texture,
            None => {
                proof {
                    start.lemma_clear_loading(id@);
                }
                self.update_metadata(id, settled);
                return None;
            },
        };
        let full = self.gpu_len() >= self.max_gpu_textures;
        if full {
            let found = self.victim_position().is_some();
            self.evict_least_important(victim_data);
            if !found {
                proof {
                    start.evict(victim_data@).lemma_clear_loading(id@);
                }
                self.update_metadata(id, settled);
                return None;
            }
        }
        let handle = self.install(id, texture, size, true);
        Some(handle)
    }

    /// Purges every record that has been idle for the idle timeout at time
    /// `now`, together with what either tier holds for it. The priority
    /// ordering is left as it is.
    pub fn cleanup_unused(&mut self, now: u64)
        requires
            old(self).wf(),
        ensures
            final(self).wf(),
            final(self)@ == old(self)@.cleanup(now),
            final(self).placeholders() == old(self).placeholders(),
    {
        let ghost start = self@;
        let keys = self.metadata.keys();
        let ghost ids = key_views(keys@);
        proof {
            self.metadata.lemma_order();
            start.lemma_purge_none(now);
            assert(ids.take(0).to_set() =~= Set::empty());
        }
        let mut i: usize = 0;
        while i < keys.len()
            invariant
                i <= keys@.len(),
                ids == key_views(keys@),
                self.wf(),
                start == old(self)@,
                self@ == start.purge(now, ids.take(i as int).to_set()),
                self.placeholders() == old(self).placeholders(),
            decreases keys@.len() - i,
        {
            let key = keys[i].as_str();
            let ghost current = self@;
            proof {
                current.lemma_purge_one(now, key@);
                start.lemma_purge_extend(now, ids.take(i as int).to_set(), key@);
                assert(ids.take(i as int + 1).to_set() =~= ids.take(i as int).to_set().insert(key@))
                    by {
                    let longer = ids.take(i as int + 1);
                    assert(longer[i as int] == key@);
                }
            }
            if let Some(record) = self.record(key) {
                if now >= record.last_used && now - record.last_used >= config::IDLE_TIMEOUT {
                    match record.location {
                        TextureLocation::GPU => {
                            let _ = self.gpu_cache.remove(key);
                            self.gpu_memory_used = self.gpu_memory_used - record.size as u128;
                        },
                        TextureLocation::RAM => {
                            let _ = self.ram_cache.remove(key);
                            self.ram_memory_used = self.ram_memory_used - record.size as u128;
                        },
                        TextureLocation::Storage => {},
                    }
                    let _ = self.metadata.remove(key);
                }
            }
            assert(self@ =~= current.purge(now, set![key@]));
            i += 1;
        }
        proof {
            assert(ids.take(i as int) =~= ids);
            start.lemma_purge_all(now, ids.to_set());
        }
    }
}

} // verus!
