use wagmi_bench::config::LoadConfig;
use wagmi_bench::dispatch::Action;
use wagmi_bench::dispatch::Dispatcher;
use wagmi_bench::record::ResultRecord;

/// Runs a whole load run in which each request ends some steps after its
/// launch, in an order that `seed` decides, and gives the records together
/// with the largest number of requests that were under way at once.
fn simulate(total: usize, limit: usize, mut seed: u64) -> (Vec<ResultRecord>, usize) {
    let mut dispatcher = Dispatcher::new(total, limit).expect("the limit is not zero");
    let mut under_way: Vec<usize> = Vec::new();
    let mut most: usize = 0;
    loop {
        assert_eq!(dispatcher.in_flight(), under_way.len());
        assert!(dispatcher.in_flight() <= limit);
        most = most.max(dispatcher.in_flight());
        match dispatcher.next_action() {
            Action::Launch => {
                let index = dispatcher.launch().expect("a launch was announced");
                under_way.push(index);
            }
            Action::Await => {
                seed = seed
                    .wrapping_mul(6_364_136_223_846_793_005)
                    .wrapping_add(1_442_695_040_888_963_407);
                let pick = (seed >> 33) as usize % under_way.len();
                let index = under_way.swap_remove(pick);
                let status = if index % 5 == 0 { None } else { Some(200) };
                assert!(dispatcher.complete(ResultRecord::from_outcome(index, status, 1_000)));
            }
            Action::Finish => break,
        }
    }
    assert!(dispatcher.is_finished());
    assert!(under_way.is_empty());
    (dispatcher.into_records(), most)
}

#[test]
fn every_request_yields_exactly_one_record() {
    for (total, limit) in [(10, 3), (1, 1), (7, 7), (5, 50), (100, 1), (64, 8)] {
        let (records, _) = simulate(total, limit, 99);
        assert_eq!(records.len(), total);
        let mut indices: Vec<usize> = records.iter().map(|record| record.index).collect();
        indices.sort();
        let expected: Vec<usize> = (0..total).collect();
        assert_eq!(indices, expected);
    }
}

#[test]
fn requests_under_way_never_exceed_the_limit() {
    for seed in 0..20 {
        let (_, most) = simulate(40, 4, seed);
        assert_eq!(most, 4);
    }
    let (_, most) = simulate(3, 10, 1);
    assert_eq!(most, 3);
}

#[test]
fn a_run_without_requests_is_over_at_once() {
    let dispatcher = Dispatcher::new(0, 4).expect("the limit is not zero");
    assert_eq!(dispatcher.next_action(), Action::Finish);
    assert!(dispatcher.is_finished());
    assert!(dispatcher.into_records().is_empty());
}

#[test]
fn a_limit_of_zero_is_refused() {
    assert!(Dispatcher::new(10, 0).is_none());
    assert!(Dispatcher::new(0, 0).is_none());
}

#[test]
fn launches_stop_at_the_limit_and_resume_when_a_slot_frees() {
    let mut dispatcher = Dispatcher::new(3, 2).expect("the limit is not zero");
    assert_eq!(dispatcher.next_action(), Action::Launch);
    assert_eq!(dispatcher.launch(), Some(0));
    assert_eq!(dispatcher.launch(), Some(1));
    assert_eq!(dispatcher.next_action(), Action::Await);
    assert_eq!(dispatcher.launch(), None);
    assert_eq!(dispatcher.in_flight(), 2);
    assert!(dispatcher.complete(ResultRecord::from_outcome(1, Some(200), 5)));
    assert_eq!(dispatcher.in_flight(), 1);
    assert_eq!(dispatcher.next_action(), Action::Launch);
    assert_eq!(dispatcher.launch(), Some(2));
    assert_eq!(dispatcher.launched(), 3);
    assert_eq!(dispatcher.next_action(), Action::Await);
    assert!(!dispatcher.is_finished());
    assert!(dispatcher.complete(ResultRecord::from_outcome(0, None, 6)));
    assert!(dispatcher.complete(ResultRecord::from_outcome(2, Some(500), 7)));
    assert_eq!(dispatcher.next_action(), Action::Finish);
    assert_eq!(
        dispatcher.records(),
        &vec![
            ResultRecord { index: 1, status_code: 200, latency_nanos: 5, success: true },
            ResultRecord { index: 0, status_code: 0, latency_nanos: 6, success: false },
            ResultRecord { index: 2, status_code: 500, latency_nanos: 7, success: true },
        ]
    );
}

#[test]
fn an_outcome_is_taken_once_and_only_for_a_request_under_way() {
    let mut dispatcher = Dispatcher::new(4, 2).expect("the limit is not zero");
    assert!(!dispatcher.complete(ResultRecord::from_outcome(0, Some(200), 1)));
    assert_eq!(dispatcher.launch(), Some(0));
    assert!(!dispatcher.complete(ResultRecord::from_outcome(1, Some(200), 1)));
    assert!(!dispatcher.complete(ResultRecord::from_outcome(usize::MAX, Some(200), 1)));
    assert!(dispatcher.complete(ResultRecord::from_outcome(0, Some(200), 1)));
    assert!(!dispatcher.complete(ResultRecord::from_outcome(0, Some(200), 1)));
    assert_eq!(dispatcher.records().len(), 1);
    assert_eq!(dispatcher.in_flight(), 0);
}

#[test]
fn standard_settings_are_the_documented_defaults() {
    let config = LoadConfig::standard();
    assert_eq!(config.url, "https://wagmi-challenge-1-production.up.railway.app/wagmi");
    assert_eq!(config.body, "{\"a\": 5, \"b\": 10}");
    assert_eq!(config.total_requests, 10_000);
    assert_eq!(config.concurrency, 2_500);
    assert_eq!(config.timeout_millis, 10_000);
    assert_eq!(config.warmup_millis, 100);
}

#[test]
fn settings_give_a_dispatcher_unless_the_concurrency_is_zero() {
    let mut config = LoadConfig::standard();
    let dispatcher = config.dispatcher().expect("the concurrency is not zero");
    assert_eq!(dispatcher.next_action(), Action::Launch);
    assert_eq!(dispatcher.launched(), 0);
    config.concurrency = 0;
    assert!(config.dispatcher().is_none());
}
