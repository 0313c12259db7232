use dualis::dsp::{
    chunk_avail, chunk_offsets, chunk_step, duration_ms, fade_len, frame_count, n_bins, peak_buckets,
    reflect_index, reflect_pad, total_chunks,
};

#[test]
fn reflection_padding() {
    assert_eq!(reflect_index(0, 5, true), 1);
    assert_eq!(reflect_index(3, 5, true), 4);
    assert_eq!(reflect_index(4, 5, true), 3);
    assert_eq!(reflect_index(0, 5, false), 3);
    assert_eq!(reflect_index(3, 5, false), 0);
    assert_eq!(reflect_index(7, 1, false), 0);
    assert_eq!(reflect_pad(&[1, 2, 3, 4], 2, 0), vec![3, 2, 1, 2, 3, 4, 3, 2]);
    assert_eq!(
        reflect_pad(&[1.0f32, 2.0, 3.0, 4.0], 2, 0.0),
        vec![3.0, 2.0, 1.0, 2.0, 3.0, 4.0, 3.0, 2.0]
    );
    assert_eq!(reflect_pad(&[1, 2, 3, 4], 3, 0), vec![4, 3, 2, 1, 2, 3, 4, 3, 2, 1]);
    assert_eq!(reflect_pad(&[5], 2, 0), vec![5, 5, 5, 5, 5]);
    assert_eq!(reflect_pad::<i32>(&[], 2, 9), vec![9, 9, 9, 9]);
}

#[test]
fn frames_and_chunks() {
    assert_eq!(n_bins(6144), 3073);
    assert_eq!(frame_count(100, 200, 10), 0);
    assert_eq!(frame_count(2048 + 4096, 2048, 512), 9);
    assert_eq!(chunk_offsets(10, 4), vec![0, 4, 8]);
    assert_eq!(chunk_offsets(8, 4), vec![0, 4]);
    assert!(chunk_offsets(0, 4).is_empty());
    assert_eq!(total_chunks(10, 4), 3);
    assert_eq!(total_chunks(0, 4), 1);
    assert_eq!(fade_len(100, 75), 25);
    assert_eq!(fade_len(10, 20), 0);
    assert_eq!(chunk_avail(10, 8, 4), 2);
}

#[test]
fn overview_buckets() {
    assert_eq!(peak_buckets(100, 2), vec![(0, 50), (50, 100)]);
    assert_eq!(peak_buckets(3, 5), vec![(0, 1), (1, 2), (2, 3), (3, 3), (4, 3)]);
    assert_eq!(peak_buckets(10, 3), vec![(0, 3), (3, 6), (6, 9)]);
}

#[test]
fn durations() {
    assert_eq!(duration_ms(44_100, 44_100), 1000);
    assert_eq!(duration_ms(22_050, 44_100), 500);
    assert_eq!(duration_ms(10, 0), 0);
}

#[test]
fn chunk_hop_from_overlap() {
    assert_eq!(chunk_step(261_120, 25), 195_840);
    assert_eq!(chunk_step(10, 25), 8);
    assert_eq!(chunk_step(2, 25), 2);
    assert_eq!(chunk_step(1, 60), 1);
    assert_eq!(chunk_step(0, 25), 1);
    assert_eq!(chunk_step(100, 100), 1);
    assert_eq!(chunk_step(100, 0), 100);
}
