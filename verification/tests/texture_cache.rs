use std::sync::Arc;

use infinite_tiles::cache_model::{TextureLocation, TextureMetadata};
use infinite_tiles::texture::{estimate_texture_size, LoadStep, TextureManager};
use infinite_tiles::types::LoadPriority;

/// A device texture of the test device: it simply keeps its payload.
type Texture = Vec<u8>;

fn manager(max_gpu: usize, max_ram: usize) -> TextureManager<Texture> {
    TextureManager::with_limits(vec![0], vec![1], vec![2], vec![3], max_gpu, max_ram)
}

/// The payload that the test backing store holds for `id`.
fn stored(id: &str) -> Vec<u8> {
    id.as_bytes().to_vec()
}

fn readback(m: &TextureManager<Texture>) -> Vec<u8> {
    match m.pending_eviction() {
        Some(handle) => (*handle).clone(),
        None => Vec::new(),
    }
}

/// Carries a request through, as the program around the manager does.
/// `available` says whether the backing store has the texture.
fn drive(
    m: &mut TextureManager<Texture>,
    id: &str,
    priority: LoadPriority,
    now: u64,
    available: bool,
) -> Option<Arc<Texture>> {
    match m.ensure_loaded(id, priority, now) {
        LoadStep::Ready(handle) => Some(handle),
        LoadStep::Upload(payload) => {
            let victim = readback(m);
            m.finish_promotion(id, priority, Some(payload), victim)
        }
        LoadStep::Fetch => {
            let loaded = if available { Some(stored(id)) } else { None };
            let size = stored(id).len();
            let victim = readback(m);
            m.finish_load(id, loaded, size, victim)
        }
        LoadStep::Unavailable => None,
    }
}

fn location(m: &TextureManager<Texture>, id: &str) -> Option<TextureLocation> {
    m.record(id).map(|r| r.location)
}

fn order(m: &TextureManager<Texture>) -> Vec<String> {
    m.priority_order()
}

#[test]
fn three_immediate_loads_with_room_for_two() {
    let mut m = manager(2, 256);
    assert!(drive(&mut m, "a", LoadPriority::Immediate, 1, true).is_some());
    assert!(drive(&mut m, "b", LoadPriority::Immediate, 2, true).is_some());
    assert!(drive(&mut m, "c", LoadPriority::Immediate, 3, true).is_some());
    assert_eq!(m.gpu_len(), 2);
    assert_eq!(m.ram_len(), 1);
    assert_eq!(location(&m, "a"), Some(TextureLocation::RAM));
    assert_eq!(location(&m, "b"), Some(TextureLocation::GPU));
    assert_eq!(location(&m, "c"), Some(TextureLocation::GPU));
    assert_eq!(order(&m), vec!["c".to_string(), "b".to_string()]);
}

#[test]
fn cleanup_of_an_idle_cache_leaves_nothing() {
    let mut m = manager(2, 256);
    drive(&mut m, "a", LoadPriority::Immediate, 1, true);
    drive(&mut m, "b", LoadPriority::Immediate, 2, true);
    drive(&mut m, "c", LoadPriority::Immediate, 3, true);
    assert_ne!(m.get_memory_stats(), (0, 0));
    m.cleanup_unused(1000);
    assert_eq!(m.gpu_len(), 0);
    assert_eq!(m.ram_len(), 0);
    assert_eq!(m.record("a"), None);
    assert_eq!(m.record("b"), None);
    assert_eq!(m.record("c"), None);
    assert_eq!(m.get_memory_stats(), (0, 0));
}

#[test]
fn cleanup_purges_at_the_timeout_and_not_before() {
    let mut m = manager(4, 4);
    drive(&mut m, "early", LoadPriority::Immediate, 10, true);
    drive(&mut m, "late", LoadPriority::Immediate, 11, true);
    // "early" has been idle for 30 units, "late" for 29.
    m.cleanup_unused(40);
    assert_eq!(m.record("early"), None);
    assert_eq!(location(&m, "late"), Some(TextureLocation::GPU));
    assert_eq!(m.gpu_len(), 1);
    assert_eq!(m.get_memory_stats(), (4, 0));
    // The ordering is left alone.
    assert_eq!(order(&m), vec!["late".to_string(), "early".to_string()]);
}

#[test]
fn cleanup_keeps_a_record_touched_in_the_future() {
    let mut m = manager(4, 4);
    drive(&mut m, "a", LoadPriority::Immediate, 100, true);
    m.cleanup_unused(5);
    assert_eq!(location(&m, "a"), Some(TextureLocation::GPU));
}

#[test]
fn cleanup_purges_host_entries_too() {
    let mut m = manager(1, 4);
    drive(&mut m, "a", LoadPriority::Immediate, 1, true);
    drive(&mut m, "b", LoadPriority::Immediate, 50, true);
    assert_eq!(location(&m, "a"), Some(TextureLocation::RAM));
    m.cleanup_unused(60);
    assert_eq!(m.record("a"), None);
    assert_eq!(m.ram_len(), 0);
    assert_eq!(m.gpu_len(), 1);
    assert_eq!(m.get_memory_stats(), (1, 0));
}

#[test]
fn tiers_stay_within_their_capacities() {
    let mut m = manager(3, 2);
    for round in 0..4u64 {
        for i in 0..10u64 {
            let id = format!("t{}", i);
            drive(&mut m, &id, LoadPriority::Immediate, round * 10 + i, true);
            assert!(m.gpu_len() <= 3);
            assert!(m.ram_len() <= 2);
            drive(&mut m, &format!("t{}", (i + 5) % 10), LoadPriority::Preload, round * 10 + i, true);
            assert!(m.gpu_len() <= 3);
            assert!(m.ram_len() <= 2);
        }
    }
}

#[test]
fn no_texture_is_in_both_tiers() {
    let mut m = manager(1, 4);
    drive(&mut m, "a", LoadPriority::Immediate, 1, true);
    drive(&mut m, "b", LoadPriority::Immediate, 2, true);
    assert_eq!(location(&m, "a"), Some(TextureLocation::RAM));
    // Promoting "a" takes it out of host memory, and puts "b" there.
    let handle = drive(&mut m, "a", LoadPriority::Preload, 3, true);
    assert_eq!(handle.as_deref(), Some(&stored("a")));
    assert_eq!(location(&m, "a"), Some(TextureLocation::GPU));
    assert_eq!(location(&m, "b"), Some(TextureLocation::RAM));
    assert_eq!(m.gpu_len(), 1);
    assert_eq!(m.ram_len(), 1);
    assert!(matches!(m.ensure_loaded("a", LoadPriority::Cache, 4), LoadStep::Ready(_)));
}

#[test]
fn only_immediate_requests_load_cold_textures() {
    let mut m = manager(4, 4);
    assert!(matches!(m.ensure_loaded("x", LoadPriority::Cache, 1), LoadStep::Unavailable));
    assert!(matches!(m.ensure_loaded("x", LoadPriority::Preload, 2), LoadStep::Unavailable));
    assert_eq!(m.record("x"), None);
    assert_eq!(m.gpu_len(), 0);
    assert!(matches!(m.ensure_loaded("x", LoadPriority::Immediate, 3), LoadStep::Fetch));
    assert_eq!(
        m.record("x"),
        Some(TextureMetadata {
            location: TextureLocation::Storage,
            last_used: 3,
            loading: true,
            size: 0,
        })
    );
}

#[test]
fn a_load_in_flight_is_not_started_again() {
    let mut m = manager(4, 4);
    assert!(matches!(m.ensure_loaded("x", LoadPriority::Immediate, 1), LoadStep::Fetch));
    assert!(matches!(m.ensure_loaded("x", LoadPriority::Immediate, 2), LoadStep::Unavailable));
    let handle = m.finish_load("x", Some(vec![9, 9]), 2, Vec::new());
    assert_eq!(handle.as_deref(), Some(&vec![9, 9]));
    assert_eq!(
        m.record("x"),
        Some(TextureMetadata {
            location: TextureLocation::GPU,
            last_used: 2,
            loading: false,
            size: 2,
        })
    );
    // Nothing is in flight any more: a second report changes nothing.
    assert!(m.finish_load("x", Some(vec![7]), 1, Vec::new()).is_none());
    assert_eq!(m.get_memory_stats(), (2, 0));
}

#[test]
fn a_failed_load_only_clears_the_flag() {
    let mut m = manager(1, 4);
    drive(&mut m, "a", LoadPriority::Immediate, 1, true);
    assert!(drive(&mut m, "x", LoadPriority::Immediate, 2, false).is_none());
    assert_eq!(
        m.record("x"),
        Some(TextureMetadata {
            location: TextureLocation::Storage,
            last_used: 2,
            loading: false,
            size: 0,
        })
    );
    // Nothing was evicted for it.
    assert_eq!(location(&m, "a"), Some(TextureLocation::GPU));
    assert_eq!(order(&m), vec!["a".to_string()]);
    assert_eq!(m.get_memory_stats(), (1, 0));
    // It can be asked for again.
    assert!(matches!(m.ensure_loaded("x", LoadPriority::Immediate, 3), LoadStep::Fetch));
}

#[test]
fn eviction_moves_the_payload_to_host_memory() {
    let mut m = manager(2, 4);
    drive(&mut m, "a", LoadPriority::Immediate, 1, true);
    drive(&mut m, "b", LoadPriority::Immediate, 2, true);
    assert_eq!(m.pending_eviction().as_deref(), Some(&stored("a")));
    assert_eq!(m.eviction_candidate().as_deref(), Some(&stored("a")));
    assert!(m.evict_least_important(vec![10, 20, 30]));
    // With a free slot nothing has to be evicted, though something could.
    assert!(m.pending_eviction().is_none());
    assert_eq!(m.eviction_candidate().as_deref(), Some(&stored("b")));
    assert_eq!(location(&m, "a"), Some(TextureLocation::RAM));
    assert_eq!(m.gpu_len(), 1);
    assert_eq!(m.ram_len(), 1);
    assert_eq!(order(&m), vec!["b".to_string()]);
    assert_eq!(m.get_memory_stats(), (1, 1));
    // The bytes that were read back are the ones offered for upload.
    match m.ensure_loaded("a", LoadPriority::Preload, 3) {
        LoadStep::Upload(payload) => assert_eq!(payload, vec![10, 20, 30]),
        _ => panic!("the texture should be offered for upload"),
    }
}

#[test]
fn eviction_of_an_empty_cache_does_nothing() {
    let mut m = manager(2, 4);
    assert!(m.pending_eviction().is_none());
    assert!(m.eviction_candidate().is_none());
    assert!(!m.evict_least_important(vec![1]));
    assert_eq!(m.gpu_len(), 0);
    assert_eq!(m.ram_len(), 0);
    assert_eq!(m.get_memory_stats(), (0, 0));
}

#[test]
fn a_full_host_tier_gives_up_its_oldest_payload() {
    let mut m = manager(1, 1);
    drive(&mut m, "a", LoadPriority::Immediate, 1, true);
    drive(&mut m, "b", LoadPriority::Immediate, 2, true);
    assert_eq!(location(&m, "a"), Some(TextureLocation::RAM));
    drive(&mut m, "c", LoadPriority::Immediate, 3, true);
    // "a" made way for "b".
    assert_eq!(location(&m, "a"), Some(TextureLocation::Storage));
    assert_eq!(location(&m, "b"), Some(TextureLocation::RAM));
    assert_eq!(location(&m, "c"), Some(TextureLocation::GPU));
    assert_eq!(m.gpu_len(), 1);
    assert_eq!(m.ram_len(), 1);
    assert_eq!(order(&m), vec!["c".to_string()]);
    assert_eq!(m.get_memory_stats(), (1, 1));
    match m.ensure_loaded("b", LoadPriority::Preload, 4) {
        LoadStep::Upload(payload) => assert_eq!(payload, stored("b")),
        _ => panic!("the texture should be offered for upload"),
    }
    assert!(matches!(m.ensure_loaded("a", LoadPriority::Preload, 4), LoadStep::Unavailable));
}

#[test]
fn the_host_tier_gives_way_in_order_of_arrival() {
    let mut m = manager(1, 2);
    drive(&mut m, "a", LoadPriority::Immediate, 1, true);
    drive(&mut m, "b", LoadPriority::Immediate, 2, true);
    drive(&mut m, "c", LoadPriority::Immediate, 3, true);
    assert_eq!(location(&m, "a"), Some(TextureLocation::RAM));
    assert_eq!(location(&m, "b"), Some(TextureLocation::RAM));
    // Touching "a" does not change when it arrived.
    assert!(matches!(m.ensure_loaded("a", LoadPriority::Cache, 4), LoadStep::Unavailable));
    drive(&mut m, "d", LoadPriority::Immediate, 5, true);
    assert_eq!(location(&m, "a"), Some(TextureLocation::Storage));
    assert_eq!(location(&m, "b"), Some(TextureLocation::RAM));
    assert_eq!(location(&m, "c"), Some(TextureLocation::RAM));
    assert_eq!(location(&m, "d"), Some(TextureLocation::GPU));
    drive(&mut m, "e", LoadPriority::Immediate, 6, true);
    assert_eq!(location(&m, "b"), Some(TextureLocation::Storage));
    assert_eq!(location(&m, "c"), Some(TextureLocation::RAM));
    assert_eq!(location(&m, "d"), Some(TextureLocation::RAM));
    assert_eq!(m.ram_len(), 2);
    assert_eq!(m.get_memory_stats(), (1, 2));
}

#[test]
fn an_eviction_with_full_host_memory_unwinds_the_ordering() {
    let mut m = manager(3, 1);
    drive(&mut m, "a", LoadPriority::Immediate, 1, true);
    drive(&mut m, "b", LoadPriority::Immediate, 2, true);
    drive(&mut m, "c", LoadPriority::Immediate, 3, true);
    drive(&mut m, "d", LoadPriority::Immediate, 4, true);
    assert_eq!(location(&m, "a"), Some(TextureLocation::RAM));
    assert_eq!(order(&m), vec!["d".to_string(), "c".to_string(), "b".to_string()]);
    drive(&mut m, "e", LoadPriority::Immediate, 5, true);
    assert_eq!(location(&m, "a"), Some(TextureLocation::Storage));
    assert_eq!(location(&m, "b"), Some(TextureLocation::RAM));
    // The search for host entries went through the whole ordering.
    assert_eq!(order(&m), vec!["e".to_string()]);
    assert_eq!(m.gpu_len(), 3);
    // A texture that is asked for again is ranked again.
    drive(&mut m, "c", LoadPriority::Immediate, 6, true);
    assert_eq!(order(&m), vec!["c".to_string(), "e".to_string()]);
}

#[test]
fn a_host_tier_without_slots_takes_nothing() {
    let mut m = manager(1, 0);
    drive(&mut m, "a", LoadPriority::Immediate, 1, true);
    assert!(drive(&mut m, "b", LoadPriority::Immediate, 2, true).is_some());
    assert_eq!(location(&m, "a"), Some(TextureLocation::Storage));
    assert_eq!(location(&m, "b"), Some(TextureLocation::GPU));
    assert_eq!(m.ram_len(), 0);
    assert_eq!(m.gpu_len(), 1);
    assert_eq!(m.get_memory_stats(), (1, 0));
}

#[test]
fn a_promotion_swaps_with_the_texture_it_evicts() {
    let mut m = manager(1, 1);
    drive(&mut m, "a", LoadPriority::Immediate, 1, true);
    drive(&mut m, "b", LoadPriority::Immediate, 2, true);
    // "a" fills host memory; promoting it frees the slot that "b" takes.
    let handle = drive(&mut m, "a", LoadPriority::Immediate, 3, true);
    assert_eq!(handle.as_deref(), Some(&stored("a")));
    assert_eq!(location(&m, "a"), Some(TextureLocation::GPU));
    assert_eq!(location(&m, "b"), Some(TextureLocation::RAM));
    assert_eq!(order(&m), vec!["a".to_string()]);
    assert_eq!(m.get_memory_stats(), (1, 1));
}

#[test]
fn a_hit_is_repeatable() {
    let mut m = manager(4, 4);
    let first = drive(&mut m, "a", LoadPriority::Immediate, 1, true).unwrap();
    let second = match m.ensure_loaded("a", LoadPriority::Immediate, 2) {
        LoadStep::Ready(handle) => handle,
        _ => panic!("the texture should be on the device"),
    };
    let third = match m.ensure_loaded("a", LoadPriority::Immediate, 3) {
        LoadStep::Ready(handle) => handle,
        _ => panic!("the texture should be on the device"),
    };
    assert!(Arc::ptr_eq(&first, &second));
    assert!(Arc::ptr_eq(&second, &third));
    assert_eq!(m.record("a").map(|r| r.last_used), Some(3));
}

#[test]
fn requests_rank_at_the_front_or_at_the_back() {
    let mut m = manager(4, 4);
    drive(&mut m, "a", LoadPriority::Immediate, 1, true);
    drive(&mut m, "b", LoadPriority::Immediate, 2, true);
    drive(&mut m, "c", LoadPriority::Immediate, 3, true);
    assert_eq!(order(&m), vec!["c".to_string(), "b".to_string(), "a".to_string()]);
    drive(&mut m, "c", LoadPriority::Cache, 4, true);
    assert_eq!(order(&m), vec!["b".to_string(), "a".to_string(), "c".to_string()]);
    drive(&mut m, "a", LoadPriority::Immediate, 5, true);
    assert_eq!(order(&m), vec!["a".to_string(), "b".to_string(), "c".to_string()]);
    drive(&mut m, "b", LoadPriority::Preload, 6, true);
    assert_eq!(order(&m), vec!["a".to_string(), "c".to_string(), "b".to_string()]);
}

#[test]
fn a_texture_touched_at_low_priority_is_evicted_first() {
    let mut m = manager(2, 4);
    drive(&mut m, "a", LoadPriority::Immediate, 1, true);
    drive(&mut m, "b", LoadPriority::Immediate, 2, true);
    drive(&mut m, "b", LoadPriority::Cache, 3, true);
    drive(&mut m, "c", LoadPriority::Immediate, 4, true);
    assert_eq!(location(&m, "b"), Some(TextureLocation::RAM));
    assert_eq!(location(&m, "a"), Some(TextureLocation::GPU));
}

#[test]
fn host_memory_is_not_promoted_at_cache_priority() {
    let mut m = manager(1, 4);
    drive(&mut m, "a", LoadPriority::Immediate, 1, true);
    drive(&mut m, "b", LoadPriority::Immediate, 2, true);
    assert!(matches!(m.ensure_loaded("a", LoadPriority::Cache, 3), LoadStep::Unavailable));
    assert!(m.finish_promotion("a", LoadPriority::Cache, Some(vec![1]), Vec::new()).is_none());
    assert_eq!(location(&m, "a"), Some(TextureLocation::RAM));
    assert_eq!(m.record("a").map(|r| r.last_used), Some(3));
}

#[test]
fn a_failed_upload_leaves_the_texture_in_host_memory() {
    let mut m = manager(1, 4);
    drive(&mut m, "a", LoadPriority::Immediate, 1, true);
    drive(&mut m, "b", LoadPriority::Immediate, 2, true);
    assert!(matches!(m.ensure_loaded("a", LoadPriority::Immediate, 3), LoadStep::Upload(_)));
    assert!(m.finish_promotion("a", LoadPriority::Immediate, None, readback(&m)).is_none());
    assert_eq!(location(&m, "a"), Some(TextureLocation::RAM));
    assert_eq!(location(&m, "b"), Some(TextureLocation::GPU));
    assert_eq!(m.get_memory_stats(), (1, 1));
}

#[test]
fn promotion_ranks_by_priority() {
    let mut m = manager(2, 4);
    drive(&mut m, "a", LoadPriority::Immediate, 1, true);
    drive(&mut m, "b", LoadPriority::Immediate, 2, true);
    drive(&mut m, "c", LoadPriority::Immediate, 3, true);
    // "a" is in host memory; a preload promotes it to the back.
    drive(&mut m, "a", LoadPriority::Preload, 4, true);
    assert_eq!(order(&m), vec!["c".to_string(), "a".to_string()]);
    assert_eq!(location(&m, "b"), Some(TextureLocation::RAM));
    // An immediate request promotes to the front.
    drive(&mut m, "b", LoadPriority::Immediate, 5, true);
    assert_eq!(order(&m), vec!["b".to_string(), "c".to_string()]);
    assert_eq!(location(&m, "a"), Some(TextureLocation::RAM));
}

#[test]
fn nothing_enters_a_device_tier_without_slots() {
    let mut m = manager(0, 4);
    assert!(drive(&mut m, "a", LoadPriority::Immediate, 1, true).is_none());
    assert_eq!(m.gpu_len(), 0);
    assert_eq!(
        m.record("a"),
        Some(TextureMetadata {
            location: TextureLocation::Storage,
            last_used: 1,
            loading: false,
            size: 0,
        })
    );
}

#[test]
fn memory_stats_add_up_the_recorded_sizes() {
    let mut m = manager(2, 4);
    assert_eq!(m.get_memory_stats(), (0, 0));
    assert!(matches!(m.ensure_loaded("a", LoadPriority::Immediate, 1), LoadStep::Fetch));
    m.finish_load("a", Some(vec![1]), 16384, Vec::new());
    assert_eq!(m.get_memory_stats(), (16384, 0));
    assert!(matches!(m.ensure_loaded("b", LoadPriority::Immediate, 2), LoadStep::Fetch));
    m.finish_load("b", Some(vec![2]), 100, Vec::new());
    assert_eq!(m.get_memory_stats(), (16484, 0));
    assert!(matches!(m.ensure_loaded("c", LoadPriority::Immediate, 3), LoadStep::Fetch));
    m.finish_load("c", Some(vec![3]), 7, vec![1]);
    assert_eq!(m.get_memory_stats(), (107, 16384));
}

#[test]
fn placeholders_are_chosen_by_position() {
    let m = manager(2, 2);
    assert_eq!(*m.get_texture(0, 0), vec![0]);
    assert_eq!(*m.get_texture(1, 0), vec![1]);
    assert_eq!(*m.get_texture(-1, 0), vec![1]);
    assert_eq!(*m.get_texture(-1, -1), vec![2]);
    assert_eq!(*m.get_texture(64, 128), vec![0]);
    assert_eq!(*m.get_texture(-3, 4), vec![3]);
    assert_eq!(*m.get_texture(i32::MIN, 0), vec![0]);
    assert_eq!(*m.get_texture(i32::MIN, i32::MAX), vec![3]);
    assert_eq!(*m.get_texture(i32::MAX, i32::MAX), vec![2]);
}

#[test]
fn the_standard_manager_has_the_configured_capacities() {
    let mut m: TextureManager<Texture> = TextureManager::new(vec![0], vec![1], vec![2], vec![3]);
    for i in 0..70u64 {
        drive(&mut m, &format!("t{}", i), LoadPriority::Immediate, i, true);
    }
    assert_eq!(m.gpu_len(), 64);
    assert_eq!(m.ram_len(), 6);
}

#[test]
fn texture_size_is_the_product_of_its_dimensions() {
    assert_eq!(estimate_texture_size(64, 64, 4), 16384);
    assert_eq!(estimate_texture_size(0, 64, 4), 0);
    assert_eq!(estimate_texture_size(3, 5, 0), 0);
    assert_eq!(estimate_texture_size(65535, 65535, 1), 4294836225);
}
