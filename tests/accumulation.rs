use sdf_render::accumulate::{tone_map, Accumulator, RunningMean};

#[test]
fn running_means_of_one_three_five() {
    let mut m = RunningMean::new();
    let mut means = vec![];
    for sample in [1u32, 3, 5] {
        assert!(m.add_sample(sample));
        assert_eq!(m.total % m.count, 0);
        means.push(m.mean_floor());
    }
    assert_eq!(means, vec![1, 2, 3]);
    assert_eq!(m, RunningMean { total: 9, count: 3 });
}

#[test]
fn constant_samples_stay_exact() {
    let mut m = RunningMean::new();
    for n in 1..=1000u64 {
        assert!(m.add_sample(42));
        assert_eq!(m.mean_floor(), 42);
        assert_eq!(m.count, n);
    }
}

#[test]
fn empty_mean_is_zero() {
    let m = RunningMean::new();
    assert_eq!(m.mean_floor(), 0);
    assert_eq!(m.display_byte(), 0);
}

#[test]
fn full_mean_refuses_sample() {
    let mut m = RunningMean { total: u64::MAX - 3, count: 7 };
    assert!(!m.add_sample(4));
    assert_eq!(m, RunningMean { total: u64::MAX - 3, count: 7 });
    assert!(m.add_sample(3));
    assert_eq!(m, RunningMean { total: u64::MAX, count: 8 });
    let mut c = RunningMean { total: 0, count: u64::MAX };
    assert!(!c.add_sample(0));
}

#[test]
fn tone_map_points() {
    assert_eq!(tone_map(0, 1), 0);
    assert_eq!(tone_map(1, 1), 127);
    assert_eq!(tone_map(7, 7), 127);
    assert_eq!(tone_map(3, 1), 191);
    assert_eq!(tone_map(254, 1), 254);
    assert_eq!(tone_map(253, 1), 253);
    assert_eq!(tone_map(u64::MAX, 1), 254);
}

#[test]
fn tone_map_is_monotonic_and_bounded() {
    let mut last = 0u8;
    for v in 0..2000u64 {
        let b = tone_map(v, 4);
        assert!(b >= last);
        assert!(b < 255);
        last = b;
    }
    assert_eq!(last, 254);
}

#[test]
fn display_byte_maps_the_mean() {
    let m = RunningMean { total: 6, count: 2 };
    assert_eq!(m.display_byte(), 191);
}

#[test]
fn accumulator_updates_one_entry() {
    let mut acc = Accumulator::new(3);
    assert!(acc.add_sample(1, 10));
    assert!(acc.add_sample(1, 20));
    assert!(acc.add_sample(2, 5));
    assert_eq!(acc.entries[0], RunningMean { total: 0, count: 0 });
    assert_eq!(acc.entries[1], RunningMean { total: 30, count: 2 });
    assert_eq!(acc.entries[2], RunningMean { total: 5, count: 1 });
    assert!(!acc.add_sample(3, 1));
    assert_eq!(acc.display(), vec![0, tone_map(30, 2), tone_map(5, 1)]);
}

#[test]
fn exposure_scales_before_tone_mapping() {
    let m = RunningMean { total: 6, count: 2 };
    assert_eq!(m.display_byte_exposed(1, 1), 191);
    assert_eq!(m.display_byte_exposed(1, 3), 127);
    assert_eq!(m.display_byte_exposed(0, 5), 0);
    assert_eq!(m.display_byte_exposed(u32::MAX, 1), 254);
    assert_eq!(RunningMean::new().display_byte_exposed(3, 1), 0);
    let big = RunningMean { total: u64::MAX, count: 1 };
    assert_eq!(big.display_byte_exposed(u32::MAX, u32::MAX), 254);
}
