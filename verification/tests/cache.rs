use consensus_manager::cache::HeightCache;

#[test]
fn new_cache_is_empty() {
    let cache: HeightCache<u32> = HeightCache::new(3);
    assert_eq!(cache.len(), 0);
    assert_eq!(cache.limit(), 3);
    assert_eq!(cache.count_at(0), 0);
}

#[test]
fn drain_returns_messages_in_arrival_order() {
    let mut cache: HeightCache<u32> = HeightCache::new(8);
    assert!(cache.insert(6, 1));
    assert!(cache.insert(7, 2));
    assert!(cache.insert(6, 3));
    assert!(cache.insert(6, 4));
    assert_eq!(cache.count_at(6), 3);
    assert_eq!(cache.drain_equal(6), vec![1, 3, 4]);
    assert_eq!(cache.len(), 1);
    assert_eq!(cache.count_at(6), 0);
    assert_eq!(cache.count_at(7), 1);
}

#[test]
fn drain_drops_every_height_up_to_the_current_one() {
    let mut cache: HeightCache<&str> = HeightCache::new(8);
    assert!(cache.insert(9, "nine"));
    assert!(cache.insert(3, "three"));
    assert!(cache.insert(5, "five"));
    assert!(cache.insert(4, "four"));
    assert!(cache.insert(7, "seven"));
    assert_eq!(cache.drain_equal(5), vec!["five"]);
    assert_eq!(cache.len(), 2);
    assert_eq!(cache.count_at(3), 0);
    assert_eq!(cache.count_at(4), 0);
    assert_eq!(cache.count_at(5), 0);
    assert_eq!(cache.count_at(7), 1);
    assert_eq!(cache.count_at(9), 1);
}

#[test]
fn drain_of_a_height_without_messages_is_empty() {
    let mut cache: HeightCache<u32> = HeightCache::new(8);
    assert!(cache.insert(4, 40));
    assert!(cache.insert(8, 80));
    assert_eq!(cache.drain_equal(6), Vec::<u32>::new());
    assert_eq!(cache.len(), 1);
    assert_eq!(cache.count_at(4), 0);
    assert_eq!(cache.count_at(8), 1);
}

#[test]
fn drain_below_every_height_keeps_everything() {
    let mut cache: HeightCache<u32> = HeightCache::new(8);
    assert!(cache.insert(4, 40));
    assert!(cache.insert(8, 80));
    assert_eq!(cache.drain_equal(3), Vec::<u32>::new());
    assert_eq!(cache.len(), 2);
    assert_eq!(cache.drain_equal(4), vec![40]);
    assert_eq!(cache.drain_equal(8), vec![80]);
    assert_eq!(cache.len(), 0);
}

#[test]
fn drain_of_an_empty_cache_is_empty() {
    let mut cache: HeightCache<u32> = HeightCache::new(8);
    assert_eq!(cache.drain_equal(0), Vec::<u32>::new());
    assert_eq!(cache.drain_equal(u64::MAX), Vec::<u32>::new());
    assert_eq!(cache.len(), 0);
}

#[test]
fn a_full_cache_keeps_no_more() {
    let mut cache: HeightCache<u32> = HeightCache::new(2);
    assert!(cache.insert(6, 1));
    assert!(cache.insert(7, 2));
    assert!(!cache.insert(6, 3));
    assert!(!cache.insert(8, 4));
    assert_eq!(cache.len(), 2);
    assert_eq!(cache.count_at(8), 0);
    assert_eq!(cache.drain_equal(6), vec![1]);
    assert!(cache.insert(8, 5));
    assert_eq!(cache.drain_equal(8), vec![5]);
    assert_eq!(cache.len(), 0);
}

#[test]
fn a_cache_without_room_keeps_nothing() {
    let mut cache: HeightCache<u32> = HeightCache::new(0);
    assert!(!cache.insert(1, 1));
    assert_eq!(cache.len(), 0);
    assert_eq!(cache.drain_equal(1), Vec::<u32>::new());
}

#[test]
fn the_largest_height_can_be_cached() {
    let mut cache: HeightCache<u32> = HeightCache::new(4);
    assert!(cache.insert(u64::MAX, 7));
    assert!(cache.insert(0, 1));
    assert_eq!(cache.drain_equal(u64::MAX - 1), Vec::<u32>::new());
    assert_eq!(cache.drain_equal(u64::MAX), vec![7]);
    assert_eq!(cache.len(), 0);
}
