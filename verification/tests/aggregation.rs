use audio_bars::math::isqrt;
use audio_bars::render::{bar_brightness, bar_height};
use audio_bars::rms::{SampleBuffer, SCALE};
use audio_bars::store::BucketStore;

#[test]
fn silent_buffer_gives_zero_buckets() {
    // buffer [0,0,0,0] over 2 buckets: chunk size 2, both RMS 0
    let buf = SampleBuffer::new(vec![0, 0, 0, 0]).unwrap();
    let mut store = BucketStore::with_count(2);
    store.aggregate(&buf);
    assert_eq!(store.values, vec![0, 0]);
}

#[test]
fn full_scale_buffer_clamps_to_one() {
    // buffer [1,-1,1,-1] (full scale) over 2 buckets: each chunk RMS is 1.0,
    // the x10 gain pushes it past full scale, so both clamp to 1.0
    let full = SCALE as i32;
    let buf = SampleBuffer::new(vec![full, -full, full, -full]).unwrap();
    let mut store = BucketStore::with_count(2);
    store.aggregate(&buf);
    assert_eq!(store.values, vec![SCALE, SCALE]);
}

#[test]
fn short_buffer_is_a_no_op() {
    // 3 samples over 10 buckets: chunk size 0, the store keeps its state
    let mut store = BucketStore::with_count(10);
    let prime = SampleBuffer::new(vec![500; 20]).unwrap();
    store.aggregate(&prime);
    let prior = store.values.clone();
    assert!(prior.iter().any(|&v| v != 0));

    let short = SampleBuffer::new(vec![9000, -9000, 9000]).unwrap();
    store.aggregate(&short);
    assert_eq!(store.values, prior);
}

#[test]
fn empty_buffer_is_a_no_op() {
    let mut store = BucketStore::with_count(10);
    let empty = SampleBuffer::new(vec![]).unwrap();
    store.aggregate(&empty);
    assert_eq!(store.values, vec![0; 10]);
}

#[test]
fn aggregation_is_exact_and_last_bucket_absorbs_remainder() {
    // 7 samples over 3 buckets: chunks [0,2), [2,4), [4,7)
    //   bucket 0: mean (100^2 + 200^2)/2 = 25000,  isqrt 158, x10 = 1580
    //   bucket 1: mean (300^2 + 400^2)/2 = 125000, isqrt 353, x10 = 3530
    //   bucket 2: mean (500^2 + 600^2 + 700^2)/3 = 366666, isqrt 605, x10 = 6050
    let buf = SampleBuffer::new(vec![100, 200, 300, 400, 500, 600, 700]).unwrap();
    let mut store = BucketStore::with_count(3);
    store.aggregate(&buf);
    assert_eq!(store.values, vec![1580, 3530, 6050]);
}

#[test]
fn singleton_chunk_rms_is_the_magnitude() {
    // chunk length 1: RMS degenerates to the sample's absolute value
    let buf = SampleBuffer::new(vec![-800, 600]).unwrap();
    let mut store = BucketStore::with_count(2);
    store.aggregate(&buf);
    assert_eq!(store.values, vec![8000, 6000]);
}

#[test]
fn reaggregating_the_same_buffer_changes_nothing() {
    let buf = SampleBuffer::new(vec![250, -750, 1250, -1750, 2250, -2750]).unwrap();
    let mut store = BucketStore::with_count(3);
    store.aggregate(&buf);
    let once = store.values.clone();
    store.aggregate(&buf);
    assert_eq!(store.values, once);
}

#[test]
fn out_of_range_samples_are_rejected() {
    assert!(SampleBuffer::new(vec![SCALE as i32 + 1]).is_none());
    assert!(SampleBuffer::new(vec![-(SCALE as i32) - 1]).is_none());
    assert!(SampleBuffer::new(vec![SCALE as i32, -(SCALE as i32), 0]).is_some());
}

#[test]
fn resize_preserves_prefix_and_zeroes_growth() {
    let mut store = BucketStore::with_count(4);
    let buf = SampleBuffer::new(vec![1000; 8]).unwrap();
    store.aggregate(&buf);
    assert_eq!(store.values, vec![10000, 10000, 10000, 10000]);

    store.resize(6);
    assert_eq!(store.values, vec![10000, 10000, 10000, 10000, 0, 0]);

    store.resize(2);
    assert_eq!(store.values, vec![10000, 10000]);
}

#[test]
fn isqrt_exact_values() {
    assert_eq!(isqrt(0), 0);
    assert_eq!(isqrt(1), 1);
    assert_eq!(isqrt(3), 1);
    assert_eq!(isqrt(4), 2);
    assert_eq!(isqrt(99), 9);
    assert_eq!(isqrt(100), 10);
    assert_eq!(isqrt(100_000_000), 10_000);
    assert_eq!(isqrt(u32::MAX as u64), 65_535);
}

#[test]
fn bar_height_is_proportional() {
    assert_eq!(bar_height(SCALE, 7), 7);
    assert_eq!(bar_height(SCALE / 2, 7), 3);
    assert_eq!(bar_height(0, 7), 0);
    assert_eq!(bar_height(SCALE, 0), 0);
}

#[test]
fn bar_brightness_is_proportional() {
    assert_eq!(bar_brightness(SCALE), 255);
    assert_eq!(bar_brightness(SCALE / 2), 127);
    assert_eq!(bar_brightness(0), 0);
}
