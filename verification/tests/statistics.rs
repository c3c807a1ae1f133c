use wagmi_bench::histogram::status_counts;
use wagmi_bench::histogram::status_histogram;
use wagmi_bench::histogram::StatusCount;
use wagmi_bench::histogram::FULL_SHARE;
use wagmi_bench::record::ResultRecord;
use wagmi_bench::record::TRANSPORT_FAILURE;
use wagmi_bench::report::aggregate;
use wagmi_bench::sorting::sort_ascending;
use wagmi_bench::stats::count_successes;
use wagmi_bench::stats::latencies;
use wagmi_bench::stats::mean_latency;
use wagmi_bench::stats::percentile;
use wagmi_bench::stats::throughput;
use wagmi_bench::stats::Quantile;

fn records_with_statuses(statuses: &[Option<u16>]) -> Vec<ResultRecord> {
    let mut records = Vec::new();
    for (index, status) in statuses.iter().enumerate() {
        records.push(ResultRecord::from_outcome(index, *status, 1_000 * (index as u64 + 1)));
    }
    records
}

fn fraction(numerator: u64, denominator: u64) -> Quantile {
    Quantile::new(numerator, denominator).expect("the denominator is not zero")
}

#[test]
fn record_of_a_response_keeps_its_status() {
    let record = ResultRecord::from_outcome(7, Some(404), 1_500);
    assert_eq!(
        record,
        ResultRecord { index: 7, status_code: 404, latency_nanos: 1_500, success: true }
    );
}

#[test]
fn record_of_a_transport_failure_has_status_zero() {
    let record = ResultRecord::from_outcome(3, None, 9_000);
    assert_eq!(TRANSPORT_FAILURE, 0);
    assert_eq!(
        record,
        ResultRecord { index: 3, status_code: 0, latency_nanos: 9_000, success: false }
    );
}

#[test]
fn client_and_server_errors_count_as_successes() {
    let records = records_with_statuses(&[Some(400), Some(500), Some(200), None]);
    assert_eq!(count_successes(&records), 3);
}

#[test]
fn sorting_puts_latencies_in_ascending_order() {
    assert_eq!(sort_ascending(&vec![5, 3, 9, 1, 3]), vec![1, 3, 3, 5, 9]);
    assert_eq!(sort_ascending(&vec![]), Vec::<u64>::new());
    assert_eq!(sort_ascending(&vec![4]), vec![4]);
    assert_eq!(sort_ascending(&vec![u64::MAX, 0]), vec![0, u64::MAX]);
}

#[test]
fn sorting_keeps_every_value_of_a_long_list() {
    let mut values: Vec<u64> = Vec::new();
    let mut seed: u64 = 12_345;
    for _ in 0..1_000 {
        seed = seed.wrapping_mul(6_364_136_223_846_793_005).wrapping_add(1_442_695_040_888_963_407);
        values.push(seed >> 40);
    }
    let mut expected = values.clone();
    expected.sort();
    assert_eq!(sort_ascending(&values), expected);
}

#[test]
fn percentile_of_an_empty_list_is_zero() {
    assert_eq!(percentile(&vec![], fraction(99, 100)), 0);
    assert_eq!(percentile(&vec![], fraction(0, 1)), 0);
}

#[test]
fn percentile_of_a_single_value_is_that_value() {
    assert_eq!(percentile(&vec![42], fraction(99, 100)), 42);
    assert_eq!(percentile(&vec![42], fraction(1, 2)), 42);
}

#[test]
fn percentile_reads_the_floor_of_length_times_fraction() {
    let hundred: Vec<u64> = (1..=100).collect();
    assert_eq!(percentile(&hundred, Quantile::percent(50)), 51);
    assert_eq!(percentile(&hundred, Quantile::percent(90)), 91);
    assert_eq!(percentile(&hundred, Quantile::percent(99)), 100);
    assert_eq!(percentile(&hundred, Quantile::percent(0)), 1);
    let seven: Vec<u64> = vec![10, 20, 30, 40, 50, 60, 70];
    assert_eq!(percentile(&seven, fraction(1, 2)), 40);
    assert_eq!(percentile(&seven, fraction(9, 10)), 70);
    assert_eq!(percentile(&seven, fraction(1, 3)), 30);
}

#[test]
fn percentile_is_held_to_the_last_position() {
    let ten: Vec<u64> = vec![10, 20, 30, 40, 50, 60, 70, 80, 90, 100];
    assert_eq!(percentile(&ten, Quantile::percent(99)), 100);
    assert_eq!(percentile(&ten, Quantile::percent(100)), 100);
    assert_eq!(percentile(&ten, fraction(u64::MAX, 1)), 100);
}

#[test]
fn quantile_refuses_a_zero_denominator() {
    assert!(Quantile::new(1, 0).is_none());
    assert!(Quantile::new(0, 1).is_some());
}

#[test]
fn mean_is_rounded_down_to_a_whole_nanosecond() {
    assert_eq!(mean_latency(&vec![1, 2, 6]), Some(3));
    assert_eq!(mean_latency(&vec![1, 2]), Some(1));
    assert_eq!(mean_latency(&vec![7]), Some(7));
    assert_eq!(mean_latency(&vec![u64::MAX, u64::MAX, u64::MAX]), Some(u64::MAX));
}

#[test]
fn mean_of_no_latency_is_none() {
    assert_eq!(mean_latency(&vec![]), None);
}

#[test]
fn mean_counts_failures_too() {
    let records = vec![
        ResultRecord::from_outcome(0, Some(200), 100),
        ResultRecord::from_outcome(1, None, 300),
    ];
    assert_eq!(latencies(&records), vec![100, 300]);
    assert_eq!(mean_latency(&latencies(&records)), Some(200));
}

#[test]
fn throughput_is_requests_per_second_in_hundredths() {
    assert_eq!(throughput(10_000, 2_000_000_000), Some(500_000));
    assert_eq!(throughput(1, 3_000_000_000), Some(33));
    assert_eq!(throughput(0, 1), Some(0));
    assert_eq!(throughput(3, 1), Some(300_000_000_000));
}

#[test]
fn throughput_is_rounded_to_the_nearest_hundredth() {
    assert_eq!(throughput(2, 3_000_000_000), Some(67));
    assert_eq!(throughput(1, 8_000_000_000), Some(13));
    assert_eq!(throughput(1, 200_000_000_000), Some(1));
    assert_eq!(throughput(1, 200_000_000_001), Some(0));
}

#[test]
fn throughput_without_elapsed_time_is_none() {
    assert_eq!(throughput(5, 0), None);
}

#[test]
fn histogram_counts_each_status_once_in_ascending_order() {
    let records =
        records_with_statuses(&[Some(200), Some(200), None, Some(400), Some(200), None]);
    assert_eq!(
        status_histogram(&records),
        vec![
            StatusCount { status_code: 0, count: 2, share: 3_333 },
            StatusCount { status_code: 200, count: 3, share: 5_000 },
            StatusCount { status_code: 400, count: 1, share: 1_667 },
        ]
    );
}

#[test]
fn histogram_of_no_record_is_empty() {
    assert_eq!(status_histogram(&vec![]), vec![]);
}

#[test]
fn histogram_holds_the_highest_status() {
    let records = records_with_statuses(&[Some(u16::MAX), Some(1), Some(u16::MAX)]);
    assert_eq!(
        status_histogram(&records),
        vec![
            StatusCount { status_code: 1, count: 1, share: 3_333 },
            StatusCount { status_code: u16::MAX, count: 2, share: 6_667 },
        ]
    );
}

#[test]
fn histogram_shares_add_up_to_one_hundred_percent() {
    let records = records_with_statuses(&[
        Some(200),
        Some(201),
        Some(202),
        None,
        Some(500),
        Some(200),
        Some(404),
    ]);
    let entries = status_histogram(&records);
    let counted: usize = entries.iter().map(|entry| entry.count).sum();
    assert_eq!(counted, records.len());
    let shares: u32 = entries.iter().map(|entry| entry.share).sum();
    assert_eq!(shares, 10_002);
    assert!(2 * shares <= 2 * FULL_SHARE + entries.len() as u32);
    assert!(2 * shares + entries.len() as u32 > 2 * FULL_SHARE);
    let exact: f64 =
        entries.iter().map(|entry| 100.0 * entry.count as f64 / records.len() as f64).sum();
    assert!((exact - 100.0).abs() < 1e-9);
}

#[test]
fn histogram_of_one_status_has_the_full_share() {
    let records = records_with_statuses(&[Some(200), Some(200), Some(200)]);
    assert_eq!(
        status_histogram(&records),
        vec![StatusCount { status_code: 200, count: 3, share: FULL_SHARE }]
    );
}

#[test]
fn successes_and_failures_add_up_to_the_number_of_records() {
    let records = records_with_statuses(&[Some(200), None, Some(503), None, None]);
    let report = aggregate(&records, 1_000_000);
    assert_eq!(report.total_requests, 5);
    assert_eq!(report.success_count, 2);
    assert_eq!(report.failure_count, 3);
    assert_eq!(report.success_count + report.failure_count, records.len());
}

#[test]
fn report_holds_every_figure_of_the_run() {
    let records = vec![
        ResultRecord::from_outcome(2, Some(200), 30_000_000),
        ResultRecord::from_outcome(0, Some(200), 10_000_000),
        ResultRecord::from_outcome(3, None, 100_000_000),
        ResultRecord::from_outcome(1, Some(400), 20_000_000),
    ];
    let report = aggregate(&records, 500_000_000);
    assert_eq!(report.total_requests, 4);
    assert_eq!(report.success_count, 3);
    assert_eq!(report.failure_count, 1);
    assert_eq!(report.elapsed_nanos, 500_000_000);
    assert_eq!(report.throughput, Some(800));
    assert_eq!(report.mean_nanos, Some(40_000_000));
    assert_eq!(report.p50_nanos, 30_000_000);
    assert_eq!(report.p90_nanos, 100_000_000);
    assert_eq!(report.p99_nanos, 100_000_000);
    assert_eq!(
        report.histogram,
        vec![
            StatusCount { status_code: 0, count: 1, share: 2_500 },
            StatusCount { status_code: 200, count: 2, share: 5_000 },
            StatusCount { status_code: 400, count: 1, share: 2_500 },
        ]
    );
}

#[test]
fn report_of_an_empty_run_has_no_mean_and_zero_percentiles() {
    let report = aggregate(&vec![], 0);
    assert_eq!(report.total_requests, 0);
    assert_eq!(report.success_count, 0);
    assert_eq!(report.failure_count, 0);
    assert_eq!(report.throughput, None);
    assert_eq!(report.mean_nanos, None);
    assert_eq!(report.p50_nanos, 0);
    assert_eq!(report.p90_nanos, 0);
    assert_eq!(report.p99_nanos, 0);
    assert_eq!(report.histogram, vec![]);
}

#[test]
fn report_does_not_depend_on_the_order_of_the_records() {
    let forward = records_with_statuses(&[Some(200), None, Some(404), Some(200), Some(500)]);
    let mut backward = forward.clone();
    backward.reverse();
    assert_eq!(aggregate(&forward, 77), aggregate(&backward, 77));
}

#[test]
fn quantile_gives_back_its_fraction() {
    let third = fraction(1, 3);
    assert_eq!(third.numerator(), 1);
    assert_eq!(third.denominator(), 3);
    let p99 = Quantile::percent(99);
    assert_eq!(p99.numerator(), 99);
    assert_eq!(p99.denominator(), 100);
}

#[test]
fn status_counts_map_each_observed_status_to_its_count() {
    let records =
        records_with_statuses(&[Some(200), Some(200), None, Some(400), Some(200), None]);
    let counts = status_counts(&records);
    assert_eq!(counts.len(), 3);
    assert_eq!(counts.get(&0), Some(&2));
    assert_eq!(counts.get(&200), Some(&3));
    assert_eq!(counts.get(&400), Some(&1));
    assert_eq!(counts.get(&500), None);
    assert!(status_counts(&vec![]).is_empty());
}

#[test]
fn status_zero_counts_exactly_the_failures() {
    let records = records_with_statuses(&[
        Some(200),
        None,
        Some(404),
        None,
        Some(500),
        None,
        Some(200),
    ]);
    let report = aggregate(&records, 1_000);
    assert_eq!(report.failure_count, 3);
    assert_eq!(
        report.histogram[0],
        StatusCount { status_code: 0, count: report.failure_count, share: 4_286 }
    );
    let all_answered = records_with_statuses(&[Some(200), Some(201)]);
    let report = aggregate(&all_answered, 1_000);
    assert_eq!(report.failure_count, 0);
    assert!(report.histogram.iter().all(|entry| entry.status_code != 0));
}

#[test]
fn a_response_keeps_its_flag_whatever_its_status() {
    let record = ResultRecord::from_outcome(0, Some(0), 10);
    assert_eq!(
        record,
        ResultRecord { index: 0, status_code: 0, latency_nanos: 10, success: true }
    );
}
