use fjcpc_schedule::cache::{
    clear_cache, get_cache_stats, get_cached_schedule, set_cached_schedule, ScheduleCache,
    CACHE_TTL_SECONDS,
};
use fjcpc_schedule::schedule::DayCourse;
use std::collections::HashMap;

fn weeks(n: u32) -> HashMap<u32, Vec<DayCourse>> {
    let mut m = HashMap::new();
    m.insert(n, vec![DayCourse { weekday: 1, course: Vec::new() }]);
    m
}

#[test]
fn put_then_get_round_trips() {
    let mut cache = ScheduleCache::new();
    cache.put("user", weeks(1), 1_000);
    assert_eq!(cache.get("user", 1_000), Some(weeks(1)));
    assert_eq!(cache.get("user", 1_000 + CACHE_TTL_SECONDS - 1), Some(weeks(1)));
    assert_eq!(cache.get("other", 1_000), None);
}

#[test]
fn expired_entry_is_gone_and_removed() {
    let mut cache = ScheduleCache::new();
    cache.put("user", weeks(1), 1_000);
    assert_eq!(cache.stats(1_000 + CACHE_TTL_SECONDS), (1, 0));
    assert_eq!(cache.get("user", 1_000 + CACHE_TTL_SECONDS), None);
    assert_eq!(cache.stats(1_000), (0, 0));
    assert_eq!(cache.get("user", 1_000), None);
}

#[test]
fn later_put_replaces_earlier() {
    let mut cache = ScheduleCache::new();
    cache.put("user", weeks(1), 10);
    cache.put("user", weeks(2), 20);
    assert_eq!(cache.get("user", 20), Some(weeks(2)));
    cache.invalidate("user");
    assert_eq!(cache.get("user", 20), None);
}

#[test]
fn stats_count_valid_entries() {
    let mut cache = ScheduleCache::new();
    cache.put("a", weeks(1), 0);
    cache.put("b", weeks(2), 100_000);
    cache.put("c", weeks(3), 150_000);
    assert_eq!(cache.stats(100_000), (3, 2));
    assert_eq!(cache.stats(0), (3, 3));
}

#[test]
fn clock_driven_functions() {
    let mut cache = ScheduleCache::new();
    set_cached_schedule(&mut cache, "u", weeks(4));
    assert_eq!(get_cached_schedule(&mut cache, "u"), Some(weeks(4)));
    assert_eq!(get_cache_stats(&cache), (1, 1));
    clear_cache(&mut cache, "u");
    assert_eq!(get_cached_schedule(&mut cache, "u"), None);
    assert_eq!(get_cache_stats(&cache), (0, 0));
}
