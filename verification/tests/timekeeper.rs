use ma_timing::discovery::{latency_queue_name, latency_queue_path, timing_queue_path, QUEUE_SIZE};
use ma_timing::messages::{Measurement, TimingMessage};
use ma_timing::time::{Duration, Instant, Nanos};
use ma_timing::timekeeper::{
    clock_overhead, drain_window_open, reading_cost, Direction, Drain, DrainAction, Key,
    KeyAction, ReadOutcome, Session, TimerData,
};
use ma_timing::{throughput, TimeKeeper};

fn keeper(samples_per_datapoint: usize) -> TimeKeeper {
    TimeKeeper::new(0, Nanos(500_000_000), samples_per_datapoint, 256, Duration(50))
}

fn session_with(names: &[&str]) -> Session {
    let mut s = keeper(4).session(Duration(0));
    for n in names {
        s.discover(&format!("/dev/shm/latency-{n}"));
    }
    s
}

fn sample(v: u64) -> ReadOutcome {
    ReadOutcome::Sample(Measurement::Interval(Duration(v)))
}

#[test]
fn queue_names_and_paths() {
    assert_eq!(latency_queue_name("/dev/shm/latency-orders"), Some("orders".to_string()));
    assert_eq!(latency_queue_name("latency-a"), Some("a".to_string()));
    assert_eq!(latency_queue_name("latency-"), Some(String::new()));
    assert_eq!(latency_queue_name("/dev/shm/timing-orders"), None);
    assert_eq!(latency_queue_name("/dev/shm/latency"), None);
    assert_eq!(latency_queue_name(""), None);
    assert_eq!(latency_queue_name("Global/latency-é-latency-x"), Some("é-latency-x".to_string()));
    assert_eq!(latency_queue_path("/dev/shm", "orders"), "/dev/shm/latency-orders");
    assert_eq!(timing_queue_path("/dev/shm", "orders"), "/dev/shm/timing-orders");
    assert_eq!(QUEUE_SIZE, 1 << 17);
}

#[test]
fn a_path_made_for_a_site_names_that_site() {
    for name in ["a", "orders", "x-y_z", ""] {
        assert_eq!(latency_queue_name(&latency_queue_path("/dev/shm", name)), Some(name.to_string()));
    }
}

#[test]
fn keeper_holds_its_settings() {
    let k = TimeKeeper::new(3, Nanos(7), 10_000, 256, Duration(50));
    assert_eq!(k.core, 3);
    assert_eq!(k.report_interval, Nanos(7));
    assert_eq!(k.samples_per_datapoint, 10_000);
    assert_eq!(k.n_datapoints, 256);
    assert_eq!(k.minimum_duration, Duration(50));
}

#[test]
fn a_session_begins_without_timers() {
    let s = keeper(4).session(Duration(3));
    assert_eq!(s.len(), 0);
    assert_eq!(s.selected(), 0);
}

#[test]
fn discovery_adds_a_timer_for_each_latency_ring() {
    let mut s = keeper(4).session(Duration(3));
    assert_eq!(s.discover("/dev/shm/latency-a"), Some("a".to_string()));
    assert_eq!(s.discover("/dev/shm/timing-a"), None);
    assert_eq!(s.discover("/dev/shm/unrelated"), None);
    assert_eq!(s.discover("/dev/shm/latency-b"), Some("b".to_string()));
    assert_eq!(s.len(), 2);
    assert_eq!(s.timer(0).name(), "a");
    assert_eq!(s.timer(1).name(), "b");
    assert_eq!(s.timer(0).latency_data().title(), "Latency");
    assert_eq!(s.timer(0).business_data().title(), "Business");
}

#[test]
fn discovery_is_idempotent() {
    let entries = ["/dev/shm/latency-a", "/dev/shm/timing-a", "/dev/shm/latency-b", "/dev/shm/latency-a"];
    let mut s = keeper(4).session(Duration(3));
    for round in 0..3 {
        let mut added = 0;
        for e in entries {
            if s.discover(e).is_some() {
                added += 1;
            }
        }
        assert_eq!(added, if round == 0 { 2 } else { 0 });
        assert_eq!(s.len(), 2);
    }
    assert_eq!(s.timer(0).name(), "a");
    assert_eq!(s.timer(1).name(), "b");
}

#[test]
fn rediscovery_keeps_what_a_timer_has_taken_in() {
    let mut s = session_with(&["a"]);
    let mut drain = Drain::new(4);
    s.on_latency_read(0, &mut drain, sample(10));
    assert_eq!(s.discover("/dev/shm/latency-a"), None);
    assert_eq!(s.timer(0).latency_data().pending(), 1);
}

#[test]
fn new_timers_follow_the_floor_filter_of_the_session() {
    let mut s = keeper(4).session(Duration(0));
    s.discover("/dev/shm/latency-a");
    s.set_floor_filter(true);
    s.discover("/dev/shm/latency-b");
    assert!(s.timer(0).latency_data().accepts(Duration(10)));
    assert!(!s.timer(1).latency_data().accepts(Duration(10)));
    assert!(!s.timer(1).business_data().accepts(Duration(49)));
    assert!(s.timer(1).business_data().accepts(Duration(50)));
}

#[test]
fn selection_moves_with_wraparound() {
    let mut s = session_with(&["a", "b", "c"]);
    assert_eq!(s.selected(), 0);
    assert_eq!(s.on_key(Key::Down, true), KeyAction::Redraw);
    assert_eq!(s.selected(), 1);
    s.on_key(Key::Down, true);
    assert_eq!(s.selected(), 2);
    s.on_key(Key::Down, true);
    assert_eq!(s.selected(), 0);
    assert_eq!(s.on_key(Key::Up, true), KeyAction::Redraw);
    assert_eq!(s.selected(), 2);
    s.on_key(Key::Up, true);
    assert_eq!(s.selected(), 1);
}

#[test]
fn selection_without_timers_stays_at_zero() {
    let mut s = session_with(&[]);
    s.on_key(Key::Down, true);
    assert_eq!(s.selected(), 0);
    s.on_key(Key::Up, true);
    assert_eq!(s.selected(), 0);
}

#[test]
fn q_quits_and_other_keys_do_nothing() {
    let mut s = session_with(&["a", "b"]);
    assert_eq!(s.on_key(Key::Char('q'), true), KeyAction::Quit);
    assert_eq!(s.on_key(Key::Char('x'), true), KeyAction::Nothing);
    assert_eq!(s.on_key(Key::Other, true), KeyAction::Nothing);
    assert_eq!(s.on_key(Key::Char('q'), false), KeyAction::Nothing);
    assert_eq!(s.on_key(Key::Down, false), KeyAction::Nothing);
    assert_eq!(s.selected(), 0);
}

#[test]
fn s_toggles_the_stacking_direction() {
    let mut s = session_with(&["a", "b"]);
    assert_eq!(s.frame().report.unwrap().direction, Direction::Horizontal);
    assert_eq!(s.on_key(Key::Char('s'), true), KeyAction::Redraw);
    assert_eq!(s.frame().report.unwrap().direction, Direction::Vertical);
    s.on_key(Key::Down, true);
    assert_eq!(s.frame().report.unwrap().direction, Direction::Vertical);
    s.on_key(Key::Char('s'), true);
    assert_eq!(s.frame().report.unwrap().direction, Direction::Horizontal);
    s.on_key(Key::Char('s'), true);
    assert_eq!(s.frame().report.unwrap().direction, Direction::Vertical);
}

#[test]
fn direction_flips() {
    assert_eq!(Direction::Horizontal.flip(), Direction::Vertical);
    assert_eq!(Direction::Vertical.flip(), Direction::Horizontal);
}

#[test]
fn a_visit_ends_when_its_quota_is_used_up() {
    let mut s = session_with(&["a"]);
    let mut drain = Drain::new(3);
    assert!(drain.open());
    assert_eq!(s.on_latency_read(0, &mut drain, sample(10)), DrainAction::Continue);
    assert_eq!(s.on_latency_read(0, &mut drain, sample(20)), DrainAction::Continue);
    assert_eq!(drain.accepted, 2);
    assert_eq!(s.on_latency_read(0, &mut drain, sample(30)), DrainAction::Stop);
    assert_eq!(drain, Drain { accepted: 3, quota: 3 });
    assert!(!drain.open());
    assert_eq!(s.timer(0).latency_data().pending(), 3);
    assert_eq!(s.timer(0).business_data().pending(), 0);
}

#[test]
fn a_visit_ends_on_an_empty_ring() {
    let mut s = session_with(&["a"]);
    let mut drain = Drain::new(3);
    assert_eq!(s.on_business_read(0, &mut drain, sample(10)), DrainAction::Continue);
    assert_eq!(s.on_business_read(0, &mut drain, ReadOutcome::Empty), DrainAction::Stop);
    assert_eq!(drain.accepted, 1);
    assert_eq!(s.timer(0).business_data().pending(), 1);
    assert_eq!(s.timer(0).latency_data().pending(), 0);
}

#[test]
fn an_overtaken_reader_recovers_and_reads_on() {
    let mut s = session_with(&["a"]);
    let mut drain = Drain::new(3);
    assert_eq!(s.on_latency_read(0, &mut drain, ReadOutcome::SpedPast), DrainAction::Recover);
    assert_eq!(drain.accepted, 0);
    assert!(drain.open());
    assert_eq!(s.on_latency_read(0, &mut drain, sample(10)), DrainAction::Continue);
    assert_eq!(s.on_latency_read(0, &mut drain, sample(11)), DrainAction::Continue);
    assert_eq!(s.on_latency_read(0, &mut drain, sample(12)), DrainAction::Stop);
    assert_eq!(s.timer(0).latency_data().pending(), 3);
}

#[test]
fn dropped_samples_do_not_count_toward_the_quota() {
    let mut s = keeper(100).session(Duration(0));
    s.set_floor_filter(true);
    s.discover("/dev/shm/latency-a");
    let mut drain = Drain::new(2);
    assert_eq!(s.on_latency_read(0, &mut drain, sample(10)), DrainAction::Continue);
    assert_eq!(drain.accepted, 0);
    assert_eq!(s.on_latency_read(0, &mut drain, sample(60)), DrainAction::Continue);
    assert_eq!(s.on_latency_read(0, &mut drain, sample(20)), DrainAction::Continue);
    assert_eq!(drain.accepted, 1);
    assert_eq!(s.on_latency_read(0, &mut drain, sample(70)), DrainAction::Stop);
    assert_eq!(drain.accepted, 2);
    assert_eq!(s.timer(0).latency_data().pending(), 2);
}

#[test]
fn records_of_two_readings_are_reduced_when_taken_in() {
    let mut s = session_with(&["a"]);
    let mut drain = Drain::new(4);
    for (start, stop) in [(100, 130), (200, 210), (300, 350), (400, 420)] {
        let m = Measurement::TwoStamps(TimingMessage { start_t: Instant(start), stop_t: Instant(stop) });
        s.on_business_read(0, &mut drain, ReadOutcome::Sample(m));
    }
    let shown = s.frame().report.unwrap();
    assert_eq!(shown.business.points, vec![Duration(27)]);
    assert_eq!(shown.business.min, Duration(10));
    assert_eq!(shown.business.median, Duration(30));
    assert_eq!(shown.business.max, Duration(50));
    assert_eq!(shown.latency.points, Vec::<Duration>::new());
}

#[test]
fn the_frame_lists_all_timers_and_reports_the_selected_one() {
    let mut s = session_with(&["a", "b"]);
    let mut drain = Drain::new(4);
    s.on_latency_read(1, &mut drain, sample(80));
    s.on_key(Key::Down, true);
    let f = s.frame();
    assert_eq!(f.names, vec!["a".to_string(), "b".to_string()]);
    assert_eq!(f.selected, 1);
    let shown = f.report.unwrap();
    assert_eq!(shown.name, "b");
    assert_eq!(shown.latency.title, "Latency");
    assert_eq!(shown.business.title, "Business");
    assert_eq!(shown.latency.n_messages, 1);
    assert_eq!(shown.latency.points, vec![Duration(80)]);
    assert_eq!(shown.business.n_messages, 0);
    assert_eq!(s.timer(1).latency_data().n_messages(), 0);
}

#[test]
fn the_frame_of_a_session_without_timers() {
    let mut s = session_with(&[]);
    let f = s.frame();
    assert!(f.names.is_empty());
    assert_eq!(f.selected, 0);
    assert!(f.report.is_none());
}

#[test]
fn timer_data_tracks_each_stream_by_itself() {
    let mut d = TimerData::new("site".to_string(), 2, 8, Duration(0), Duration(0));
    assert_eq!(d.name(), "site");
    assert!(!d.track_latency(&Measurement::Interval(Duration(4))));
    assert!(!d.track_business(&Measurement::Interval(Duration(10))));
    assert!(d.track_latency(&Measurement::Interval(Duration(6))));
    assert!(d.track_business(&Measurement::Interval(Duration(20))));
    let r = d.report();
    assert_eq!(r.name, "site");
    assert_eq!(r.direction, Direction::Horizontal);
    assert_eq!(r.latency.points, vec![Duration(5)]);
    assert_eq!(r.business.points, vec![Duration(15)]);
    d.set_direction(Direction::Vertical);
    assert_eq!(d.report().direction, Direction::Vertical);
}

#[test]
fn the_drain_window_is_sixteen_milliseconds() {
    assert!(drain_window_open(Nanos(0)));
    assert!(drain_window_open(Nanos(15_999_999)));
    assert!(!drain_window_open(Nanos(16_000_000)));
    assert!(!drain_window_open(Nanos(u64::MAX)));
}

#[test]
fn the_cost_of_a_reading_is_the_span_shared_out() {
    assert_eq!(reading_cost(Instant(1_000), Instant(25_001_000)), Duration(25));
    assert_eq!(reading_cost(Instant(0), Instant(999_999)), Duration(0));
    assert_eq!(reading_cost(Instant(5), Instant(4)), Duration((u64::MAX) / 1_000_000));
}

#[test]
fn the_clock_overhead_is_small() {
    let c = clock_overhead();
    assert!(c.0 <= u64::MAX / 1_000_000);
    assert!(c.0 < 1_000_000);
}

#[test]
fn throughput_is_records_per_millisecond() {
    assert_eq!(throughput(10, 1_010, Nanos(2_000_000)), Some(500));
    assert_eq!(throughput(0, 1, Nanos(3_000_000)), Some(0));
    assert_eq!(throughput(5, 5, Nanos(1)), Some(0));
    assert_eq!(throughput(10, 1_010, Nanos(0)), None);
    assert_eq!(throughput(1_010, 10, Nanos(5)), None);
    assert_eq!(throughput(0, usize::MAX, Nanos(1)), None);
}

#[test]
fn a_scan_adds_each_new_site_once() {
    let paths: Vec<String> = [
        "/dev/shm/latency-a",
        "/dev/shm/timing-a",
        "/dev/shm/latency-b",
        "/dev/shm/other",
        "/dev/shm/latency-a",
    ]
    .iter()
    .map(|p| p.to_string())
    .collect();
    let mut s = keeper(4).session(Duration(0));
    assert_eq!(s.scan(&paths), vec!["a".to_string(), "b".to_string()]);
    assert_eq!(s.len(), 2);
    assert_eq!(s.scan(&paths), Vec::<String>::new());
    assert_eq!(s.len(), 2);
    let more = vec!["/dev/shm/latency-c".to_string(), "/dev/shm/latency-b".to_string()];
    assert_eq!(s.scan(&more), vec!["c".to_string()]);
    assert_eq!(s.timer(0).name(), "a");
    assert_eq!(s.timer(1).name(), "b");
    assert_eq!(s.timer(2).name(), "c");
}

#[test]
fn a_scan_of_nothing_changes_nothing() {
    let mut s = session_with(&["a"]);
    assert_eq!(s.scan(&Vec::new()), Vec::<String>::new());
    assert_eq!(s.len(), 1);
}
