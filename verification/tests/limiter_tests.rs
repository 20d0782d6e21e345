use meridian::MemoryLimiter;
use meridian::TileLimiter;
use meridian::TileSignature;

fn sig(lat: i8, lon: i16) -> TileSignature {
    TileSignature::new(lat, lon)
}

#[test]
fn test_tile_limiter_add_under_capacity() {
    let mut limiter = TileLimiter::new(2);
    assert_eq!(limiter.add(&sig(1, 1)), None);
    assert_eq!(limiter.add(&sig(2, 2)), None);
}

#[test]
fn test_tile_limiter_add_evicts_oldest() {
    let mut limiter = TileLimiter::new(2);
    limiter.add(&sig(1, 1));
    limiter.add(&sig(2, 2));
    assert_eq!(limiter.add(&sig(3, 3)), Some(sig(1, 1)));
}

#[test]
fn test_tile_limiter_rearrange_changes_victim() {
    let mut limiter = TileLimiter::new(2);
    limiter.add(&sig(1, 1));
    limiter.add(&sig(2, 2));
    // Touching the oldest entry makes the other one the next victim.
    limiter.rearrange(&sig(1, 1));
    assert_eq!(limiter.add(&sig(3, 3)), Some(sig(2, 2)));
}

#[test]
fn test_memory_limiter_insert_and_evict() {
    let mut limiter = MemoryLimiter::new(2);
    assert_eq!(limiter.test(&sig(1, 1)), None);
    assert_eq!(limiter.test(&sig(2, 2)), None);
    assert_eq!(limiter.test(&sig(3, 3)), Some(sig(1, 1)));
}

#[test]
fn test_memory_limiter_touch_reorders() {
    let mut limiter = MemoryLimiter::new(2);
    limiter.test(&sig(1, 1));
    limiter.test(&sig(2, 2));
    // A hit moves the entry to the front instead of inserting it again.
    assert_eq!(limiter.test(&sig(1, 1)), None);
    assert_eq!(limiter.test(&sig(3, 3)), Some(sig(2, 2)));
}
