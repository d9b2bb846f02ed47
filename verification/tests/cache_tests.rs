use std::sync::Arc;

use engine::cache::PreviewFrameCache;
use engine::preview::{PreviewFrame, PreviewPixelFormat};

fn cache_sample_frame(value: u8) -> PreviewFrame {
    PreviewFrame {
        width: 1,
        height: 1,
        format: PreviewPixelFormat::Rgba8,
        bytes: Arc::from(vec![value; 4]),
    }
}

#[test]
fn get_hits_for_timestamps_in_the_same_bucket() {
    let mut cache = PreviewFrameCache::new(8, 33_333);
    cache.insert("demo.mp4", 1_500_000, cache_sample_frame(10));

    let frame = cache
        .get("demo.mp4", 1_500_010)
        .expect("frame should be cached");
    assert_eq!(frame.bytes[0], 10);
}

#[test]
fn insert_evicts_least_recently_used_frame_when_capacity_is_reached() {
    let mut cache = PreviewFrameCache::new(2, 33_333);
    cache.insert("demo.mp4", 1_000_000, cache_sample_frame(1));
    cache.insert("demo.mp4", 2_000_000, cache_sample_frame(2));

    let _ = cache
        .get("demo.mp4", 1_000_000)
        .expect("first frame should exist");
    cache.insert("demo.mp4", 3_000_000, cache_sample_frame(3));

    assert!(cache.get("demo.mp4", 1_000_000).is_some());
    assert!(cache.get("demo.mp4", 2_000_000).is_none());
    assert!(cache.get("demo.mp4", 3_000_000).is_some());
}

#[test]
fn inserting_one_frame_more_than_fits_evicts_the_least_recently_used() {
    for capacity in [1usize, 2, 3, 8] {
        let mut cache = PreviewFrameCache::new(capacity, 1_000);
        for bucket in 0..=capacity {
            cache.insert("demo.mp4", bucket as i64 * 1_000, cache_sample_frame(bucket as u8));
        }
        assert_eq!(cache.len(), capacity);
        assert!(!cache.contains("demo.mp4", 0));
        for bucket in 1..=capacity {
            assert!(cache.contains("demo.mp4", bucket as i64 * 1_000));
        }
    }
}

#[test]
fn get_protects_a_frame_from_the_next_eviction() {
    let mut cache = PreviewFrameCache::new(3, 1_000);
    cache.insert("demo.mp4", 0, cache_sample_frame(0));
    cache.insert("demo.mp4", 1_000, cache_sample_frame(1));
    cache.insert("demo.mp4", 2_000, cache_sample_frame(2));

    assert_eq!(cache.get("demo.mp4", 0).expect("cached").bytes[0], 0);
    cache.insert("demo.mp4", 3_000, cache_sample_frame(3));
    assert!(cache.contains("demo.mp4", 0));
    assert!(!cache.contains("demo.mp4", 1_000));
    assert!(cache.contains("demo.mp4", 2_000));
    assert!(cache.contains("demo.mp4", 3_000));

    // Now bucket 2 is the least recently used one.
    cache.insert("demo.mp4", 4_000, cache_sample_frame(4));
    assert!(!cache.contains("demo.mp4", 2_000));
    assert!(cache.contains("demo.mp4", 0));
}

#[test]
fn contains_does_not_count_as_use() {
    let mut cache = PreviewFrameCache::new(2, 1_000);
    cache.insert("demo.mp4", 0, cache_sample_frame(0));
    cache.insert("demo.mp4", 1_000, cache_sample_frame(1));
    assert!(cache.contains("demo.mp4", 0));
    cache.insert("demo.mp4", 2_000, cache_sample_frame(2));
    assert!(!cache.contains("demo.mp4", 0));
    assert!(cache.contains("demo.mp4", 1_000));
}

#[test]
fn a_miss_changes_nothing() {
    let mut cache = PreviewFrameCache::new(2, 1_000);
    cache.insert("demo.mp4", 0, cache_sample_frame(0));
    cache.insert("demo.mp4", 1_000, cache_sample_frame(1));
    assert!(cache.get("demo.mp4", 5_000).is_none());
    assert!(cache.get("other.mp4", 0).is_none());
    cache.insert("demo.mp4", 2_000, cache_sample_frame(2));
    assert!(!cache.contains("demo.mp4", 0));
}

#[test]
fn insert_replaces_the_frame_of_a_cached_bucket() {
    let mut cache = PreviewFrameCache::new(2, 1_000);
    cache.insert("demo.mp4", 0, cache_sample_frame(0));
    cache.insert("demo.mp4", 1_000, cache_sample_frame(1));
    cache.insert("demo.mp4", 999, cache_sample_frame(7));
    assert_eq!(cache.len(), 2);
    assert_eq!(cache.get("demo.mp4", 1_500).expect("cached").bytes[0], 1);
    assert_eq!(cache.get("demo.mp4", 0).expect("cached").bytes[0], 7);
    // Storing bucket 0 again made bucket 1 the older one before the reads.
    cache.insert("demo.mp4", 2_000, cache_sample_frame(2));
    assert!(!cache.contains("demo.mp4", 1_000));
}

#[test]
fn buckets_are_floors_and_negative_positions_fall_in_the_first() {
    let mut cache = PreviewFrameCache::new(4, 33_333);
    cache.insert("demo.mp4", -5, cache_sample_frame(9));
    assert!(cache.contains("demo.mp4", 0));
    assert!(cache.contains("demo.mp4", i64::MIN));
    assert!(cache.contains("demo.mp4", 33_332));
    assert!(!cache.contains("demo.mp4", 33_333));
    cache.insert("demo.mp4", 66_665, cache_sample_frame(1));
    assert!(cache.contains("demo.mp4", 33_333));
    assert!(!cache.contains("demo.mp4", 66_666));
    assert_eq!(cache.bucket_size_tl(), 33_333);
}

#[test]
fn frames_of_different_paths_do_not_mix() {
    let mut cache = PreviewFrameCache::new(4, 1_000);
    cache.insert("a.mp4", 10, cache_sample_frame(1));
    cache.insert("b.mp4", 10, cache_sample_frame(2));
    assert_eq!(cache.get("a.mp4", 10).expect("cached").bytes[0], 1);
    assert_eq!(cache.get("b.mp4", 10).expect("cached").bytes[0], 2);
    assert!(!cache.contains("c.mp4", 10));
}

#[test]
fn clear_and_reconfigure_drop_every_frame() {
    let mut cache = PreviewFrameCache::new(4, 1_000);
    cache.insert("a.mp4", 10, cache_sample_frame(1));
    cache.clear();
    assert_eq!(cache.len(), 0);
    assert!(!cache.contains("a.mp4", 10));
    assert_eq!(cache.bucket_size_tl(), 1_000);

    cache.insert("a.mp4", 10, cache_sample_frame(1));
    cache.reconfigure_bucket_size(500);
    assert_eq!(cache.len(), 0);
    assert_eq!(cache.bucket_size_tl(), 500);
    cache.insert("a.mp4", 499, cache_sample_frame(1));
    assert!(!cache.contains("a.mp4", 500));
}

#[test]
fn a_cached_frame_shares_its_bytes() {
    let frame = cache_sample_frame(3);
    let mut cache = PreviewFrameCache::new(1, 1_000);
    cache.insert("a.mp4", 0, frame.clone());
    let first = cache.get("a.mp4", 0).expect("cached");
    let second = cache.get("a.mp4", 0).expect("cached");
    assert_eq!(first, frame);
    assert!(Arc::ptr_eq(&first.bytes, &second.bytes));
    assert!(Arc::ptr_eq(&first.bytes, &frame.bytes));
}
