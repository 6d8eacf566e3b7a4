use hostmon::filter::InterfaceFilter;
use hostmon::process::{ProcessAggregator, ProcessRecord};
use hostmon::rate::{RateUnit, RateWindow};
use hostmon::rounding::round_ratio_tenths;
use hostmon::snapshot::{compute_net, AdapterReading};
use hostmon::text::convert_time;

fn adapter(name: &str, received: u64, transmitted: u64) -> AdapterReading {
    AdapterReading {
        name: name.to_string(),
        received,
        transmitted,
    }
}

fn record(name: &str, memory_bytes: u64) -> ProcessRecord {
    ProcessRecord {
        name: name.to_string(),
        memory_bytes,
    }
}

#[test]
fn rate_is_zero_when_counter_decreases() {
    assert_eq!(
        RateWindow::compute(1_000_000, 500, 1, RateUnit::MegabitsPerSecond),
        0
    );
    assert_eq!(
        RateWindow::compute(42, 42, 1, RateUnit::MebibytesPerSecond),
        0
    );
}

#[test]
fn rate_exact_one_megabit() {
    // 125_000 bytes in one second is exactly 1.0 Mbps.
    assert_eq!(
        RateWindow::compute(1_000_000, 1_125_000, 1, RateUnit::MegabitsPerSecond),
        10
    );
}

#[test]
fn rate_disk_mebibytes() {
    // 2 MiB in one second: 2.0 MiB/s shown as 20 tenths.
    assert_eq!(
        RateWindow::compute(0, 2 * 1_048_576, 1, RateUnit::MebibytesPerSecond),
        20
    );
    // Half a MiB over two seconds: 0.25 MiB/s rounds up to 0.3.
    assert_eq!(
        RateWindow::compute(0, 1_048_576, 2, RateUnit::MebibytesPerSecond),
        5
    );
}

#[test]
fn filter_excludes_blacklisted_names_case_insensitively() {
    assert!(!InterfaceFilter::allows("VMware Adapter"));
    assert!(!InterfaceFilter::allows("Loopback Pseudo-Interface 1"));
    assert!(!InterfaceFilter::allows("LOOPBACK"));
    assert!(!InterfaceFilter::allows("Npcap Loopback"));
    assert!(!InterfaceFilter::allows("vEthernet (WSL)"));
    assert!(!InterfaceFilter::allows("Hyper-V Virtual Switch"));
}

#[test]
fn filter_allows_ordinary_names() {
    assert!(InterfaceFilter::allows("Ethernet 2"));
    assert!(InterfaceFilter::allows("eth0"));
    assert!(InterfaceFilter::allows("Wi-Fi"));
    assert!(InterfaceFilter::allows(""));
}

#[test]
fn aggregate_is_idempotent_on_fixed_input() {
    let table = vec![
        record("a", 10),
        record("b", 30),
        record("a", 5),
        record("c", 30),
    ];
    let once = ProcessAggregator::aggregate(&table, 8);
    let twice = ProcessAggregator::aggregate(&table, 8);
    assert_eq!(once.len(), twice.len());
    for (x, y) in once.iter().zip(twice.iter()) {
        assert_eq!(x.name, y.name);
        assert_eq!(x.total_memory_bytes, y.total_memory_bytes);
    }
}

#[test]
fn aggregate_sorts_descending_and_truncates() {
    let table = vec![
        record("small", 1),
        record("big", 100),
        record("mid", 50),
    ];
    let top = ProcessAggregator::aggregate(&table, 2);
    assert_eq!(top.len(), 2);
    assert_eq!(top[0].name, "big");
    assert_eq!(top[0].total_memory_bytes, 100);
    assert_eq!(top[1].name, "mid");
    assert_eq!(top[1].total_memory_bytes, 50);
}

#[test]
fn aggregate_ties_keep_first_seen_order() {
    // Both names total 9; "first" was seen first and stays in front.
    let table = vec![record("first", 7), record("second", 9), record("first", 2)];
    let all = ProcessAggregator::aggregate(&table, 8);
    assert_eq!(all.len(), 2);
    assert_eq!(all[0].name, "first");
    assert_eq!(all[0].total_memory_bytes, 9);
    assert_eq!(all[1].name, "second");
    assert_eq!(all[1].total_memory_bytes, 9);
}

#[test]
fn aggregate_of_empty_table_is_empty() {
    let table: Vec<ProcessRecord> = Vec::new();
    assert_eq!(ProcessAggregator::aggregate(&table, 8).len(), 0);
    let one = vec![record("a", 1)];
    assert_eq!(ProcessAggregator::aggregate(&one, 0).len(), 0);
}

#[test]
fn rounding_half_goes_away_from_zero() {
    // A raw ratio of 0.05 at one decimal place is 0.1, not 0.0.
    assert_eq!(round_ratio_tenths(1, 20), 1);
    // 0.04999... stays at 0.0.
    assert_eq!(round_ratio_tenths(4999, 100_000), 0);
    // 0.25 rounds to 0.3.
    assert_eq!(round_ratio_tenths(1, 4), 3);
}

#[test]
fn uptime_formatting() {
    assert_eq!(convert_time(3661), "01:01:01");
    assert_eq!(convert_time(0), "00:00:00");
    assert_eq!(convert_time(59), "00:00:59");
    assert_eq!(convert_time(3600), "01:00:00");
    // Hours widen past two digits instead of wrapping.
    assert_eq!(convert_time(100 * 3600 + 59), "100:00:59");
}

#[test]
fn network_sums_saturate_instead_of_wrapping() {
    // Two adapters each claiming u64::MAX bytes: the sum pegs at u64::MAX
    // and the cycle behaves like a single maxed counter.
    let before = vec![adapter("eth0", 0, 0), adapter("eth1", 0, 0)];
    let after = vec![
        adapter("eth0", u64::MAX, 0),
        adapter("eth1", u64::MAX, 0),
    ];
    let snap = compute_net(&before, &after, 1);
    let single = RateWindow::compute(0, u64::MAX, 1, RateUnit::MegabitsPerSecond);
    assert_eq!(snap.down_mbps_tenths, single);
}

#[test]
fn network_scenario_one_second_window() {
    // Two samples one second apart, 125_000 received bytes of delta on the
    // allowed adapter; the virtual adapter's huge delta must not count.
    let before = vec![
        adapter("Ethernet", 1_000_000, 2_000),
        adapter("VMware Network Adapter VMnet8", 5, 5),
    ];
    let after = vec![
        adapter("Ethernet", 1_125_000, 2_000),
        adapter("VMware Network Adapter VMnet8", 999_999_999, 999_999_999),
    ];
    let snap = compute_net(&before, &after, 1);
    assert_eq!(snap.down_mbps_tenths, 10);
    assert_eq!(snap.up_mbps_tenths, 0);
}
