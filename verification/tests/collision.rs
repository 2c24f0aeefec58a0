use engine::collision::collider_cache::ColliderCache;
use engine::collision::collision_detection_system::run;

/// One-dimensional intervals standing in for colliders: (center, radius).
fn overlap(a: &(i32, i32), b: &(i32, i32)) -> bool {
    (a.0 - b.0).abs() <= a.1 + b.1
}

#[test]
fn cache_insert_and_contains() {
    let mut cache = ColliderCache::new();
    assert_eq!(cache.len(), 0);
    assert!(cache.insert((1, 2)));
    assert!(!cache.insert((1, 2)));
    assert!(cache.insert((2, 1)));
    assert!(cache.contains((1, 2)));
    assert!(cache.contains((2, 1)));
    assert!(!cache.contains((1, 3)));
    assert_eq!(cache.len(), 2);
    assert_eq!(cache.pairs(), vec![(1, 2), (2, 1)]);
}

#[test]
fn cache_clear_forgets_everything() {
    let mut cache = ColliderCache::new();
    cache.insert((0, 1));
    cache.clear();
    assert_eq!(cache.len(), 0);
    assert!(!cache.contains((0, 1)));
}

#[test]
fn detection_finds_overlapping_pairs_in_order() {
    let colliders = vec![(10usize, (0, 1)), (11, (1, 1)), (12, (10, 1)), (13, (11, 1))];
    let mut cache = ColliderCache::new();
    run(&mut cache, &colliders, &overlap);
    let mut pairs = cache.pairs();
    pairs.sort();
    assert_eq!(pairs, vec![(10, 11), (12, 13)]);
}

#[test]
fn detection_keeps_cached_pairs() {
    let colliders = vec![(0usize, (0, 1)), (1, (50, 1))];
    let mut cache = ColliderCache::new();
    cache.insert((5, 6));
    run(&mut cache, &colliders, &overlap);
    assert_eq!(cache.pairs(), vec![(5, 6)]);
}

#[test]
fn detection_on_no_colliders() {
    let colliders: Vec<(usize, (i32, i32))> = Vec::new();
    let mut cache = ColliderCache::new();
    run(&mut cache, &colliders, &overlap);
    assert_eq!(cache.len(), 0);
}

#[test]
fn detection_of_all_overlapping() {
    let colliders = vec![(3usize, (0, 5)), (1, (1, 5)), (2, (2, 5))];
    let mut cache = ColliderCache::new();
    run(&mut cache, &colliders, &overlap);
    let mut pairs = cache.pairs();
    pairs.sort();
    assert_eq!(pairs, vec![(1, 2), (3, 1), (3, 2)]);
}

#[test]
fn detection_twice_adds_nothing_new() {
    let colliders = vec![(0usize, (0, 1)), (1, (1, 1)), (2, (30, 1)), (3, (31, 1))];
    let mut cache = ColliderCache::new();
    run(&mut cache, &colliders, &overlap);
    let once = cache.pairs();
    run(&mut cache, &colliders, &overlap);
    assert_eq!(cache.pairs(), once);
    assert_eq!(once, vec![(0, 1), (2, 3)]);
}

#[test]
fn cache_pairs_come_in_insertion_order() {
    let mut cache = ColliderCache::new();
    cache.insert((7, 8));
    cache.insert((0, 1));
    cache.insert((7, 8));
    cache.insert((3, 4));
    assert_eq!(cache.pairs(), vec![(7, 8), (0, 1), (3, 4)]);
}
