use udp_throughput::pacer::{
    ideal_interval_nanos, target_sends_per_second, AveragingPolicy, Pacer, SendRecord,
};

#[test]
fn sends_per_second_from_rate() {
    assert_eq!(target_sends_per_second(1_048_576, 1472), 712);
    assert_eq!(ideal_interval_nanos(712), 1_404_494);
    assert_eq!(ideal_interval_nanos(1), 1_000_000_000);
}

#[test]
fn slow_rate_floors_to_one_send() {
    assert_eq!(target_sends_per_second(100, 1472), 1);
    assert_eq!(target_sends_per_second(0, 1472), 1);
    let p = Pacer::new(AveragingPolicy::Cumulative, 100, 1472);
    assert_eq!(p.interval, 1_000_000_000);
}

#[test]
fn zero_latency_sleeps_ideal_interval() {
    for policy in [AveragingPolicy::Cumulative, AveragingPolicy::RollingWindow] {
        let mut p = Pacer::new(policy, 1_000_000, 1000);
        assert_eq!(p.sleep_nanos(), 1_000_000);
        for t in 0..50u64 {
            let now = t * 1_000_000;
            p.record_send(SendRecord { start: now, bytes: 1000, end: now });
            assert_eq!(p.sleep_nanos(), p.interval);
        }
    }
}

#[test]
fn cumulative_average_subtracts_latency() {
    let mut p = Pacer::new(AveragingPolicy::Cumulative, 1_000_000, 1000);
    p.record_send(SendRecord { start: 0, bytes: 1000, end: 100_000 });
    p.record_send(SendRecord { start: 1_000_000, bytes: 1000, end: 1_300_000 });
    assert_eq!(p.average_latency(), 200_000);
    assert_eq!(p.sleep_nanos(), 800_000);
    p.record_send(SendRecord { start: 2_000_000, bytes: 1000, end: 7_000_000 });
    assert_eq!(p.average_latency(), 1_800_000);
    assert_eq!(p.sleep_nanos(), 0);
}

#[test]
fn rolling_window_forgets_old_sends() {
    let mut p = Pacer::new(AveragingPolicy::RollingWindow, 1_000_000, 1000);
    p.record_send(SendRecord { start: 0, bytes: 1000, end: 900_000 });
    assert_eq!(p.average_latency(), 900_000);
    p.record_send(SendRecord { start: 500_000_000, bytes: 1000, end: 500_100_000 });
    assert_eq!(p.window.len(), 2);
    assert_eq!(p.average_latency(), 500_000);
    p.record_send(SendRecord { start: 1_200_000_000, bytes: 1000, end: 1_200_000_000 });
    assert_eq!(p.window.len(), 2);
    assert_eq!(p.average_latency(), 50_000);
    assert_eq!(p.sleep_nanos(), 950_000);
    assert_eq!(p.sends, 3);
    assert_eq!(p.total_latency, 1_000_000);
}
