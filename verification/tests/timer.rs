use ma_timing::messages::{Measurement, TimingMessage};
use ma_timing::time::{Duration, Instant};
use ma_timing::timer::Publication;
use ma_timing::Timer;

#[test]
fn single_start_stop() {
    let mut t = Timer::new("t");
    t.start();
    let out = t.stop();
    match out {
        Publication::Business(record) => {
            assert!(record.stop_t >= record.start_t);
            assert_eq!(record, t.curmsg);
            assert!(record.start_t.0 > 0);
        }
        Publication::Latency(_) => panic!("a stop belongs on the business ring"),
    }
}

#[test]
fn latency_pair() {
    let mut t = Timer::new("t");
    let out = t.latency(Instant(1000));
    match out {
        Publication::Latency(Measurement::TwoStamps(record)) => {
            assert_eq!(record.start_t, Instant(1000));
            assert!(record.stop_t >= Instant(1500));
        }
        _ => panic!("a latency belongs on the latency ring, with both readings"),
    }
}

#[test]
fn latency_pair_at_a_given_reading() {
    let mut t = Timer::new("t");
    t.set_stop(Instant(1500));
    t.set_start(Instant(1000));
    assert_eq!(
        t.send_latency(),
        Publication::Latency(Measurement::TwoStamps(TimingMessage {
            start_t: Instant(1000),
            stop_t: Instant(1500),
        }))
    );
    assert_eq!(*t.start_t(), Instant(1000));
    assert_eq!(*t.stop_t(), Instant(1500));
}

#[test]
fn a_new_timer_has_both_readings_at_zero() {
    let t = Timer::new("orders");
    assert_eq!(t.name, "orders");
    assert_eq!(t.curmsg, TimingMessage { start_t: Instant(0), stop_t: Instant(0) });
    assert_eq!(t.send_business(), Publication::Business(TimingMessage::default()));
}

#[test]
fn start_leaves_the_stop_as_it_was() {
    let mut t = Timer::new("t");
    t.set_stop(Instant(77));
    t.start();
    assert_eq!(*t.stop_t(), Instant(77));
    assert!(t.start_t().0 > 0);
}

#[test]
fn stop_and_latency_hands_out_both_records() {
    let mut t = Timer::new("t");
    t.set_start(Instant(5));
    let (business, latency) = t.stop_and_latency(Instant(3));
    let stop = *t.stop_t();
    assert_eq!(business, Publication::Business(TimingMessage { start_t: Instant(5), stop_t: stop }));
    assert_eq!(
        latency,
        Publication::Latency(Measurement::TwoStamps(TimingMessage { start_t: Instant(3), stop_t: stop }))
    );
    assert_eq!(*t.start_t(), Instant(3));
}

#[test]
fn latency_nanos_hands_out_an_interval() {
    let t = Timer::new("t");
    assert_eq!(
        t.latency_nanos(Duration(123)),
        Publication::Latency(Measurement::Interval(Duration(123)))
    );
}

#[test]
fn a_timer_names_its_two_rings() {
    let t = Timer::new("orders");
    assert_eq!(t.timing_queue_path("/dev/shm"), "/dev/shm/timing-orders");
    assert_eq!(t.latency_queue_path("/dev/shm"), "/dev/shm/latency-orders");
}
