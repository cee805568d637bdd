use ma_timing::messages::{LatencyMessage, Measurement, TimingMessage};
use ma_timing::time::{Duration, Instant, TimeStamped};

#[test]
fn timing_message_elapsed_is_stop_minus_start() {
    let m = TimingMessage { start_t: Instant(1_000), stop_t: Instant(1_750) };
    assert_eq!(m.elapsed(), Duration(750));
}

#[test]
fn timing_message_elapsed_wraps_on_readings_out_of_order() {
    let m = TimingMessage { start_t: Instant(10), stop_t: Instant(4) };
    assert_eq!(m.elapsed(), Duration(u64::MAX - 5));
}

#[test]
fn timing_message_new_has_not_stopped() {
    let before = Instant::now();
    let m = TimingMessage::new();
    assert_eq!(m.stop_t, Instant(0));
    assert!(m.start_t.0 >= before.0);
}

#[test]
fn timing_message_default_is_zero() {
    let m = TimingMessage::default();
    assert_eq!(m.start_t, Instant(0));
    assert_eq!(m.stop_t, Instant(0));
}

#[test]
fn latency_message_latency_and_span() {
    let m = LatencyMessage { ingestion_t: Instant(1_000), arrival_t: Instant(1_500) };
    assert_eq!(m.latency(), Duration(500));
    assert_eq!(m.as_span(), TimingMessage { start_t: Instant(1_000), stop_t: Instant(1_500) });
    assert_eq!(m.ingestion_t(), Instant(1_000));
}

#[test]
fn time_stamped_elapsed_of_a_future_reading_is_zero() {
    let m = LatencyMessage { ingestion_t: Instant(u64::MAX), arrival_t: Instant(0) };
    assert_eq!(TimeStamped::elapsed(&m).0, 0);
}

#[test]
fn both_variants_reduce_to_a_duration() {
    let two = Measurement::TwoStamps(TimingMessage { start_t: Instant(5), stop_t: Instant(12) });
    let interval = Measurement::Interval(Duration(9));
    assert_eq!(two.elapsed(), Duration(7));
    assert_eq!(two.latency(), Duration(7));
    assert_eq!(interval.elapsed(), Duration(9));
    assert_eq!(interval.latency(), Duration(9));
}

#[test]
fn records_have_a_tag_and_two_words() {
    let two = Measurement::TwoStamps(TimingMessage { start_t: Instant(5), stop_t: Instant(12) });
    assert_eq!(two.encode(), [0, 5, 12]);
    let interval = Measurement::Interval(Duration(9));
    assert_eq!(interval.encode(), [1, 9, 0]);
}

#[test]
fn records_round_trip() {
    let all = [
        Measurement::TwoStamps(TimingMessage { start_t: Instant(0), stop_t: Instant(0) }),
        Measurement::TwoStamps(TimingMessage { start_t: Instant(u64::MAX), stop_t: Instant(1) }),
        Measurement::Interval(Duration(0)),
        Measurement::Interval(Duration(u64::MAX)),
    ];
    for m in all {
        assert_eq!(Measurement::decode(&m.encode()), Some(m));
    }
}

#[test]
fn unknown_tags_do_not_decode() {
    assert_eq!(Measurement::decode(&[2, 1, 1]), None);
    assert_eq!(Measurement::decode(&[u64::MAX, 0, 0]), None);
}

#[test]
fn the_padding_word_of_an_interval_is_ignored() {
    assert_eq!(Measurement::decode(&[1, 9, 77]), Some(Measurement::Interval(Duration(9))));
}

#[test]
fn readings_are_in_order_when_the_stop_is_not_the_earlier() {
    let forward = Measurement::TwoStamps(TimingMessage { start_t: Instant(5), stop_t: Instant(12) });
    let still = Measurement::TwoStamps(TimingMessage { start_t: Instant(5), stop_t: Instant(5) });
    let backward = Measurement::TwoStamps(TimingMessage { start_t: Instant(12), stop_t: Instant(5) });
    assert!(forward.is_in_order());
    assert!(still.is_in_order());
    assert!(!backward.is_in_order());
    assert!(Measurement::Interval(Duration(0)).is_in_order());
    assert_eq!(backward.elapsed(), Duration(u64::MAX - 6));
}

struct Parcel {
    sent: Instant,
}

impl TimeStamped for Parcel {
    fn ingestion_t(&self) -> Instant {
        self.sent
    }
}

#[test]
fn a_type_of_the_caller_can_carry_a_time_stamp() {
    let old = Parcel { sent: Instant(0) };
    let never = Parcel { sent: Instant(u64::MAX) };
    assert_eq!(old.ingestion_t(), Instant(0));
    assert!(old.elapsed().0 > 0);
    assert_eq!(never.elapsed().0, 0);
}
