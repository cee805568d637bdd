use ma_timing::time::Duration;
use ma_timing::timekeeper::TimingData;
use ma_timing::utils::CircularBuffer;

fn averages(d: &TimingData) -> Vec<u64> {
    let buf: &CircularBuffer<Duration> = d.averages();
    let mut out = Vec::new();
    let mut it = buf.iter();
    while let Some(v) = it.next() {
        out.push(v.0);
    }
    out
}

fn data(samples_per_datapoint: usize, n_datapoints: usize, overhead: u64, floor: u64) -> TimingData {
    TimingData::new(
        "Latency".to_string(),
        samples_per_datapoint,
        n_datapoints,
        Duration(overhead),
        Duration(floor),
    )
}

#[test]
fn datapoint_rollover() {
    let mut d = data(10_000, 256, 100, 0);
    for i in 0..10_000 {
        let done = d.track(Duration(1_000));
        assert_eq!(done, i == 9_999);
    }
    assert_eq!(averages(&d), vec![900]);
    assert_eq!(d.min_sample(), Duration(900));
    assert_eq!(d.median(), Duration(900));
    assert_eq!(d.max_sample(), Duration(900));
    assert_eq!(d.pending(), 0);
    assert_eq!(d.n_messages(), 10_000);
}

#[test]
fn floor_filter() {
    let mut d = data(2, 8, 0, 50);
    d.set_floor_filter(true);
    assert!(!d.accepts(Duration(10)));
    assert!(d.accepts(Duration(60)));
    assert!(d.accepts(Duration(50)));
    assert!(!d.track(Duration(10)));
    assert_eq!(d.pending(), 0);
    assert!(!d.track(Duration(60)));
    assert_eq!(d.pending(), 1);
    assert!(!d.track(Duration(20)));
    assert_eq!(d.pending(), 1);
    assert!(d.track(Duration(70)));
    assert_eq!(d.n_messages(), 2);
    assert_eq!(averages(&d), vec![65]);
    assert_eq!(d.min_sample(), Duration(60));
    assert_eq!(d.max_sample(), Duration(70));
}

#[test]
fn floor_filter_is_off_by_default() {
    let mut d = data(4, 8, 0, 50);
    assert!(d.accepts(Duration(10)));
    for v in [10, 60, 20, 70] {
        d.track(Duration(v));
    }
    assert_eq!(d.n_messages(), 4);
    assert_eq!(averages(&d), vec![40]);
    assert_eq!(d.min_sample(), Duration(10));
}

#[test]
fn a_datapoint_comes_after_exactly_the_block_size() {
    for block in 1..20usize {
        let mut d = data(block, 64, 0, 0);
        for round in 0..3 {
            for i in 0..block {
                let done = d.track(Duration(5));
                assert_eq!(done, i + 1 == block);
                let expected = if done { round + 1 } else { round };
                assert_eq!(averages(&d).len(), expected);
            }
        }
    }
}

#[test]
fn a_block_size_of_zero_never_makes_a_datapoint_by_itself() {
    let mut d = data(0, 4, 0, 0);
    for _ in 0..10 {
        assert!(!d.track(Duration(5)));
    }
    assert_eq!(d.pending(), 10);
    assert_eq!(averages(&d), Vec::<u64>::new());
    d.register_datapoint();
    assert_eq!(averages(&d), vec![5]);
}

#[test]
fn order_statistics_of_an_unsorted_block() {
    let mut d = data(5, 8, 0, 0);
    for v in [50, 10, 40, 20, 35] {
        d.track(Duration(v));
    }
    assert_eq!(d.min_sample(), Duration(10));
    assert_eq!(d.median(), Duration(35));
    assert_eq!(d.max_sample(), Duration(50));
    assert_eq!(averages(&d), vec![31]);
}

#[test]
fn the_median_of_an_even_block_is_the_upper_one() {
    let mut d = data(4, 8, 0, 0);
    for v in [4, 1, 3, 2] {
        d.track(Duration(v));
    }
    assert_eq!(d.median(), Duration(3));
    assert_eq!(averages(&d), vec![2]);
}

#[test]
fn statistics_are_ordered() {
    let mut seed = 12_345u64;
    for block in [1usize, 2, 3, 7, 64] {
        let mut d = data(block, 8, 17, 0);
        for _ in 0..5 * block {
            seed = seed.wrapping_mul(6_364_136_223_846_793_005).wrapping_add(1_442_695_040_888_963_407);
            if d.track(Duration(seed >> 40)) {
                let avg = *averages(&d).last().unwrap();
                assert!(d.min_sample() <= d.median());
                assert!(d.median() <= d.max_sample());
                assert!(d.min_sample().0 <= avg);
                assert!(avg <= d.max_sample().0);
            }
        }
    }
}

#[test]
fn every_statistic_has_the_overhead_taken_out() {
    let mut d = data(3, 8, 100, 0);
    for v in [1_000, 50, 400] {
        d.track(Duration(v));
    }
    assert_eq!(d.min_sample(), Duration(0));
    assert_eq!(d.median(), Duration(300));
    assert_eq!(d.max_sample(), Duration(900));
    assert_eq!(averages(&d), vec![383]);
    assert_eq!(d.corrected_or_zero(Duration(99)), Duration(0));
    assert_eq!(d.corrected_or_zero(Duration(100)), Duration(0));
    assert_eq!(d.corrected_or_zero(Duration(101)), Duration(1));
}

#[test]
fn the_mean_of_huge_samples_does_not_overflow() {
    let mut d = data(3, 8, 0, 0);
    for _ in 0..3 {
        d.track(Duration(u64::MAX));
    }
    assert_eq!(averages(&d), vec![u64::MAX]);
    assert_eq!(d.avg(), Duration(u64::MAX));
}

#[test]
fn cur_avg_of_the_block_in_progress() {
    let mut d = data(10, 8, 5, 0);
    assert_eq!(d.cur_avg(), Duration(0));
    d.track(Duration(10));
    d.track(Duration(21));
    assert_eq!(d.cur_avg(), Duration(10));
}

#[test]
fn register_datapoint_on_an_empty_block_changes_nothing() {
    let mut d = data(3, 8, 0, 0);
    for v in [1, 2, 3] {
        d.track(Duration(v));
    }
    d.register_datapoint();
    assert_eq!(averages(&d), vec![2]);
    assert_eq!(d.min_sample(), Duration(1));
    assert_eq!(d.max_sample(), Duration(3));
}

#[test]
fn the_window_keeps_the_newest_datapoints() {
    let mut d = data(1, 4, 0, 0);
    for v in 1..=6u64 {
        assert!(d.track(Duration(v * 10)));
    }
    assert_eq!(averages(&d), vec![30, 40, 50, 60]);
    assert_eq!(d.avg(), Duration(45));
    assert_eq!(d.min(), (Duration(30), 0));
    assert_eq!(d.max(), (Duration(60), 3));
}

#[test]
fn min_and_max_give_the_first_place_of_the_extreme() {
    let mut d = data(1, 8, 0, 0);
    for v in [5, 3, 9, 3, 9] {
        d.track(Duration(v));
    }
    assert_eq!(d.min(), (Duration(3), 1));
    assert_eq!(d.max(), (Duration(9), 2));
}

#[test]
fn min_and_max_of_an_empty_window() {
    let d = data(1, 8, 0, 0);
    assert_eq!(d.min(), (Duration(u64::MAX), 0));
    assert_eq!(d.max(), (Duration(0), 0));
    assert_eq!(d.avg(), Duration(0));
}

#[test]
fn report_flushes_the_block_and_starts_the_count_again() {
    let mut d = data(10, 4, 10, 0);
    for v in [110, 210, 160] {
        d.track(Duration(v));
    }
    let r = d.report();
    assert_eq!(r.title, "Latency");
    assert_eq!(r.n_messages, 3);
    assert_eq!(r.avg, Duration(150));
    assert_eq!(r.min, Duration(100));
    assert_eq!(r.median, Duration(150));
    assert_eq!(r.max, Duration(200));
    assert_eq!(r.points, vec![Duration(150)]);
    assert_eq!(r.lowest, Duration(150));
    assert_eq!(r.highest, Duration(150));
    assert_eq!(r.running_avg, Duration(150));
    assert_eq!(d.n_messages(), 0);
    assert_eq!(d.pending(), 0);
    let again = d.report();
    assert_eq!(again.n_messages, 0);
    assert_eq!(again.points, vec![Duration(150)]);
    assert_eq!(again.min, Duration(100));
}

#[test]
fn report_of_a_stream_without_samples() {
    let mut d = data(10, 4, 10, 0);
    let r = d.report();
    assert_eq!(r.n_messages, 0);
    assert_eq!(r.avg, Duration(0));
    assert_eq!(r.points, Vec::<Duration>::new());
    assert_eq!(r.lowest, Duration(0));
    assert_eq!(r.highest, Duration(0));
    assert_eq!(r.running_avg, Duration(0));
    assert_eq!(r.min, Duration(0));
    assert_eq!(r.median, Duration(0));
    assert_eq!(r.max, Duration(0));
}

#[test]
fn report_gives_the_bounds_of_the_plot() {
    let mut d = data(1, 4, 0, 0);
    for v in [7, 2, 9, 4, 6] {
        d.track(Duration(v));
    }
    let r = d.report();
    assert_eq!(r.points, vec![Duration(2), Duration(9), Duration(4), Duration(6)]);
    assert_eq!(r.lowest, Duration(2));
    assert_eq!(r.highest, Duration(9));
    assert_eq!(r.avg, Duration(6));
    assert_eq!(r.running_avg, Duration(5));
    assert_eq!(d.title(), "Latency");
}
