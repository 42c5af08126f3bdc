use cgroup_bandwidth_limit::counter::Globals;
use cgroup_bandwidth_limit::direction::Direction;
use cgroup_bandwidth_limit::monitor::{
    classify, log_line, rate, Band, Level, Notice, QuotaMonitor, QuotaPeriod, SampleWindow,
};
use cgroup_bandwidth_limit::shutdown::ShutdownToken;
use cgroup_bandwidth_limit::time::Timestamp;

fn record(byte_count: u64, hard_quota: u64) -> Globals {
    Globals { byte_count, hard_quota }
}

#[test]
fn rate_divides_by_elapsed_seconds() {
    assert_eq!(rate(1000, 2), 500);
    assert_eq!(rate(1000, 3), 333);
    assert_eq!(rate(5, 10), 0);
    assert_eq!(rate(u64::MAX, 1), u64::MAX);
}

#[test]
fn rate_takes_less_than_a_second_as_one_second() {
    for delta in [0u64, 1, 999, 1_000_000, u64::MAX] {
        assert_eq!(rate(delta, 0), delta);
        assert_eq!(rate(delta, 0), rate(delta, 1));
    }
}

#[test]
fn thresholds_for_a_quota_of_one_thousand() {
    assert_eq!(classify(1000, 1000), Band::Exceeded);
    assert_eq!(classify(800, 1000), Band::Warn75);
    assert_eq!(classify(500, 1000), Band::Warn50);
    assert_eq!(classify(400, 1000), Band::Normal);
}

#[test]
fn thresholds_at_their_edges() {
    assert_eq!(classify(999, 1000), Band::Warn75);
    assert_eq!(classify(750, 1000), Band::Warn75);
    assert_eq!(classify(749, 1000), Band::Warn50);
    assert_eq!(classify(499, 1000), Band::Normal);
    assert_eq!(classify(0, 1000), Band::Normal);
    assert_eq!(classify(2000, 1000), Band::Exceeded);
}

#[test]
fn thresholds_do_not_lose_precision_at_small_quotas() {
    // Three quarters of 3 is 2.25: two bytes are not yet three quarters.
    assert_eq!(classify(2, 3), Band::Warn50);
    assert_eq!(classify(3, 3), Band::Exceeded);
    assert_eq!(classify(1, 1), Band::Exceeded);
    assert_eq!(classify(0, 1), Band::Normal);
    assert_eq!(classify(1, 2), Band::Warn50);
    assert_eq!(classify(3, 4), Band::Warn75);
}

#[test]
fn thresholds_do_not_overflow_at_large_counts() {
    assert_eq!(classify(u64::MAX, u64::MAX), Band::Exceeded);
    assert_eq!(classify(u64::MAX - 1, u64::MAX), Band::Warn75);
    assert_eq!(classify(u64::MAX / 2, u64::MAX), Band::Normal);
    assert_eq!(classify(u64::MAX / 2 + 1, u64::MAX), Band::Warn50);
}

#[test]
fn a_quota_of_zero_is_always_exceeded() {
    assert_eq!(classify(0, 0), Band::Exceeded);
    assert_eq!(classify(7, 0), Band::Exceeded);
}

#[test]
fn classification_is_monotonic() {
    fn rank(b: Band) -> u8 {
        match b {
            Band::Normal => 0,
            Band::Warn50 => 1,
            Band::Warn75 => 2,
            Band::Exceeded => 3,
        }
    }
    for quota in [1u64, 2, 3, 4, 7, 1000] {
        let mut last = 0;
        for consumed in 0..=(quota + 3) {
            let r = rank(classify(consumed, quota));
            assert!(r >= last, "consumed {} quota {}", consumed, quota);
            last = r;
        }
    }
}

#[test]
fn exceeded_notice_is_given_once_per_period() {
    let mut period = QuotaPeriod::new(60, Timestamp::from_secs(0));
    let mut notices = Vec::new();
    for sample in [900u64, 1000, 1100, 1050] {
        notices.push(period.observe(classify(sample, 1000)));
    }
    assert_eq!(
        notices,
        vec![Notice::ThreeQuartersUsed, Notice::QuotaExceeded, Notice::Rate, Notice::Rate]
    );
    assert!(period.exceeded);
}

#[test]
fn warnings_are_given_for_every_sample_in_their_band() {
    let mut period = QuotaPeriod::new(60, Timestamp::from_secs(0));
    assert_eq!(period.observe(Band::Warn50), Notice::HalfUsed);
    assert_eq!(period.observe(Band::Warn50), Notice::HalfUsed);
    assert_eq!(period.observe(Band::Warn75), Notice::ThreeQuartersUsed);
    assert_eq!(period.observe(Band::Warn75), Notice::ThreeQuartersUsed);
    assert_eq!(period.observe(Band::Normal), Notice::Rate);
    assert!(!period.exceeded);
}

#[test]
fn reset_clears_counter_and_latch() {
    let mut period = QuotaPeriod::new(60, Timestamp::from_secs(0));
    let mut globals = record(2000, 1000);
    assert_eq!(period.observe(classify(globals.byte_count(), globals.hard_quota())), Notice::QuotaExceeded);
    assert!(period.exceeded);
    period.reset(&mut globals, Timestamp::from_secs(61));
    assert_eq!(globals.byte_count(), 0);
    assert_eq!(globals.hard_quota(), 1000);
    assert!(!period.exceeded);
    assert_eq!(period.length, 60);
    assert_eq!(Timestamp::from_secs(61).whole_seconds_since(&period.last_reset), 0);
    // After the reset the exceeded notice can be given again.
    assert_eq!(period.observe(Band::Exceeded), Notice::QuotaExceeded);
}

#[test]
fn period_is_over_after_more_than_its_length() {
    let period = QuotaPeriod::new(10, Timestamp::from_secs(100));
    assert!(!period.is_over(&Timestamp::from_secs(100)));
    assert!(!period.is_over(&Timestamp::from_secs(110)));
    assert!(!period.is_over(&Timestamp::new(110, 999_999_999).unwrap()));
    assert!(period.is_over(&Timestamp::from_secs(111)));
    assert!(!period.is_over(&Timestamp::from_secs(5)));
}

#[test]
fn log_lines_have_the_documented_form() {
    let line = log_line(Direction::Ingress, 2048, 512, Notice::Rate);
    assert_eq!(line.text, "ingress: 2.0KiB @ 512B/s");
    assert_eq!(line.level, Level::Info);
    let line = log_line(Direction::Egress, 3 * 1024 * 1024, 2048, Notice::HalfUsed);
    assert_eq!(line.text, "egress: 3.0MiB @ 2.0KiB/s - 50% of quota exceeded!");
    assert_eq!(line.level, Level::Warn);
    let line = log_line(Direction::Egress, 800, 0, Notice::ThreeQuartersUsed);
    assert_eq!(line.text, "egress: 800B @ 0B/s - 75% of quota exceeded!");
    assert_eq!(line.level, Level::Warn);
    let line = log_line(Direction::Ingress, 1000, 10, Notice::QuotaExceeded);
    assert_eq!(line.text, "ingress: 1000B @ 10B/s - 100% of quota exceeded!");
    assert_eq!(line.level, Level::Warn);
}

#[test]
fn begin_sample_takes_a_snapshot() {
    let monitor = QuotaMonitor::new(Direction::Ingress, 60, 1, Timestamp::from_secs(0));
    let window = monitor.begin_sample(&record(123, 1000), Timestamp::from_secs(7));
    assert_eq!(window.bytes_at_t0, 123);
    assert_eq!(Timestamp::from_secs(7).whole_seconds_since(&window.t0), 0);
    assert_eq!(Timestamp::from_secs(9).whole_seconds_since(&window.t0), 2);
}

#[test]
fn end_sample_writes_one_line_and_keeps_going() {
    let mut monitor = QuotaMonitor::new(Direction::Ingress, 60, 2, Timestamp::from_secs(0));
    let mut globals = record(100, 1000);
    let window = monitor.begin_sample(&globals, Timestamp::from_secs(0));
    globals.observe(4196);
    let out = monitor.end_sample(&mut globals, &window, Timestamp::from_secs(2), false);
    assert_eq!(out.band, Band::Exceeded);
    assert_eq!(out.notice, Notice::QuotaExceeded);
    assert_eq!(out.rate, 2048);
    assert_eq!(out.line.text, "ingress: 4.1KiB @ 2.0KiB/s - 100% of quota exceeded!");
    assert!(!out.reset);
    assert!(!out.stop);
    assert!(monitor.period.exceeded);
    assert_eq!(globals.byte_count(), 4196);
}

#[test]
fn end_sample_gives_the_rate_line_while_the_quota_stays_exceeded() {
    let mut monitor = QuotaMonitor::new(Direction::Egress, 60, 1, Timestamp::from_secs(0));
    let mut globals = record(0, 1000);
    let mut texts = Vec::new();
    let mut now = 0;
    for sample in [900u64, 1000, 1100, 1050] {
        let window = monitor.begin_sample(&globals, Timestamp::from_secs(now));
        now += 1;
        globals.observe(sample);
        let out = monitor.end_sample(&mut globals, &window, Timestamp::from_secs(now), false);
        texts.push(out.line.text);
    }
    assert_eq!(
        texts,
        vec![
            "egress: 900B @ 900B/s - 75% of quota exceeded!",
            "egress: 1000B @ 100B/s - 100% of quota exceeded!",
            "egress: 1.1KiB @ 100B/s",
            "egress: 1.0KiB @ 0B/s",
        ]
    );
}

#[test]
fn end_sample_resets_when_the_period_has_run_out() {
    let mut monitor = QuotaMonitor::new(Direction::Ingress, 10, 1, Timestamp::from_secs(0));
    let mut globals = record(2000, 1000);
    let window = SampleWindow { t0: Timestamp::from_secs(10), bytes_at_t0: 2000 };
    let out = monitor.end_sample(&mut globals, &window, Timestamp::from_secs(11), false);
    assert!(out.reset);
    assert_eq!(out.band, Band::Exceeded);
    assert_eq!(out.notice, Notice::QuotaExceeded);
    assert_eq!(globals.byte_count(), 0);
    assert_eq!(globals.hard_quota(), 1000);
    assert!(!monitor.period.exceeded);
    assert_eq!(Timestamp::from_secs(11).whole_seconds_since(&monitor.period.last_reset), 0);
    assert_eq!(Timestamp::from_secs(12).whole_seconds_since(&monitor.period.last_reset), 1);
}

#[test]
fn end_sample_does_not_reset_within_the_period() {
    let mut monitor = QuotaMonitor::new(Direction::Ingress, 10, 1, Timestamp::from_secs(0));
    let mut globals = record(10, 1000);
    let window = SampleWindow { t0: Timestamp::from_secs(9), bytes_at_t0: 0 };
    let out = monitor.end_sample(&mut globals, &window, Timestamp::from_secs(10), false);
    assert!(!out.reset);
    assert_eq!(globals.byte_count(), 10);
}

#[test]
fn a_short_sample_counts_as_one_second() {
    let mut monitor = QuotaMonitor::new(Direction::Ingress, 60, 1, Timestamp::from_secs(0));
    let mut globals = record(700, 1_000_000);
    let window = SampleWindow { t0: Timestamp::new(5, 500_000_000).unwrap(), bytes_at_t0: 200 };
    let out =
        monitor.end_sample(&mut globals, &window, Timestamp::new(6, 499_999_999).unwrap(), false);
    assert_eq!(out.rate, 500);
}

#[test]
fn a_counter_that_went_backwards_counts_as_no_traffic() {
    let mut monitor = QuotaMonitor::new(Direction::Ingress, 60, 1, Timestamp::from_secs(0));
    let mut globals = record(100, 1_000_000);
    let window = SampleWindow { t0: Timestamp::from_secs(0), bytes_at_t0: 500 };
    let out = monitor.end_sample(&mut globals, &window, Timestamp::from_secs(1), false);
    assert_eq!(out.rate, 0);
    assert_eq!(out.line.text, "ingress: 100B @ 0B/s");
}

#[test]
fn shutdown_stops_the_worker_after_the_sample() {
    let token = ShutdownToken::new();
    let mut worker_token = token.share();
    assert!(!worker_token.is_requested());
    let mut monitor = QuotaMonitor::new(Direction::Ingress, 60, 1, Timestamp::from_secs(0));
    let mut globals = record(0, 1000);

    let window = monitor.begin_sample(&globals, Timestamp::from_secs(0));
    let out = monitor.end_sample(
        &mut globals,
        &window,
        Timestamp::from_secs(1),
        worker_token.is_requested(),
    );
    assert!(!out.stop);

    // The signal arrives before the next suspension begins.
    token.request();
    let window = monitor.begin_sample(&globals, Timestamp::from_secs(1));
    let out = monitor.end_sample(
        &mut globals,
        &window,
        Timestamp::from_secs(2),
        worker_token.is_requested(),
    );
    assert!(out.stop);
    assert_eq!(out.line.text, "ingress: 0B @ 0B/s");
}

#[test]
fn shutdown_token_stays_set() {
    let mut token = ShutdownToken::new();
    assert!(!token.is_requested());
    assert!(!token.is_requested());
    let mut other = token.share();
    assert!(!other.is_requested());
    other.request();
    assert!(token.is_requested());
    token.request();
    assert!(token.is_requested());
    assert!(other.is_requested());
    // A handle that is made after the request sees it as well.
    let mut late = token.share();
    assert!(late.is_requested());
    assert!(late.is_requested());
}

#[test]
fn a_handle_remembers_what_it_has_noted() {
    let mut token = ShutdownToken::new();
    assert!(!token.note(false));
    assert!(!token.note(false));
    assert!(token.note(true));
    // A later reading that is clear does not take the answer back.
    assert!(token.note(false));
    assert!(token.share().note(false));
    assert!(ShutdownToken::new().note(true));
}

#[test]
fn shutdown_tokens_of_different_signals_are_independent() {
    let mut one = ShutdownToken::new();
    let mut two = ShutdownToken::new();
    one.request();
    assert!(one.is_requested());
    assert!(!two.is_requested());
}

#[test]
fn timestamps_measure_whole_seconds() {
    let a = Timestamp::new(10, 900_000_000).unwrap();
    let b = Timestamp::new(12, 100_000_000).unwrap();
    assert_eq!(b.whole_seconds_since(&a), 1);
    assert_eq!(a.whole_seconds_since(&b), 0);
    assert_eq!(a.whole_seconds_since(&a), 0);
    let c = Timestamp::new(12, 900_000_000).unwrap();
    assert_eq!(c.whole_seconds_since(&a), 2);
    assert_eq!(Timestamp::from_secs(u64::MAX).whole_seconds_since(&Timestamp::from_secs(0)), u64::MAX);
    assert!(Timestamp::new(0, 1_000_000_000).is_none());
    assert!(Timestamp::new(0, 999_999_999).is_some());
}

#[test]
fn direction_names() {
    assert_eq!(Direction::Ingress.name(), "ingress");
    assert_eq!(Direction::Egress.name(), "egress");
}
