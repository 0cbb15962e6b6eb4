use series_bench::aggregate::RunningAggregate;
use series_bench::compute_time_diff_ms;
use series_bench::generate_hash_from_number;
use series_bench::get_current_time;
use series_bench::logging::LogEntry;
use series_bench::logging::ResultLogger;
use series_bench::runner::insert_points;
use series_bench::runner::insert_records;
use series_bench::runner::run_test_case;
use series_bench::runner::start_testcase;
use series_bench::runner::Executor;
use series_bench::testcase::TestCase;
use series_bench::workload::generate;
use series_bench::workload::Point;
use series_bench::Request;
use sha2::Digest;
use std::collections::HashMap;

struct MockExecutor {
    inserts: Vec<(String, usize)>,
    selects: Vec<String>,
    latencies: Vec<i32>,
    next: usize,
}

impl MockExecutor {
    fn new(latencies: Vec<i32>) -> MockExecutor {
        MockExecutor { inserts: Vec::new(), selects: Vec::new(), latencies, next: 0 }
    }

    fn next_latency(&mut self) -> i32 {
        let l = if self.latencies.is_empty() {
            0
        } else {
            self.latencies[self.next % self.latencies.len()]
        };
        self.next += 1;
        l
    }
}

impl Executor for MockExecutor {
    fn insert(&mut self, hash: String, random_number: usize) -> i32 {
        self.inserts.push((hash, random_number));
        self.next_latency()
    }

    fn select(&mut self, hash: &String) -> i32 {
        self.selects.push(hash.clone());
        self.next_latency()
    }
}

fn series_counts(points: &Vec<Point>, series: usize) -> Vec<usize> {
    let mut counts = vec![0usize; series];
    for p in points {
        counts[p.series] += 1;
    }
    counts
}

fn sha256_hex(text: &str) -> String {
    let digest = sha2::Sha256::digest(text.as_bytes());
    let mut out = String::new();
    for b in digest.iter() {
        out.push_str(&format!("{:02x}", b));
    }
    out
}

#[test]
fn testcase_accessors() {
    let tc = TestCase::new(7, 2, 3, 4);
    assert_eq!(tc.get_id(), 7);
    assert_eq!(tc.get_series(), 2);
    assert_eq!(tc.get_points_per_series(), 3);
    assert_eq!(tc.get_queries(), 4);
}

#[test]
fn generate_two_series_three_points() {
    let w = generate(2, 3);
    assert_eq!(w.tags.len(), 2);
    assert_ne!(w.tags[0], w.tags[1]);
    assert_eq!(w.points.len(), 6);
    assert_eq!(w.points[0].series, 0);
    assert_eq!(w.points[1].series, 1);
    let counts = series_counts(&w.points, 2);
    assert_eq!(counts, vec![3, 3]);
}

#[test]
fn generate_zero_series_emits_nothing() {
    let w = generate(0, 5);
    assert_eq!(w.tags.len(), 0);
    assert_eq!(w.points.len(), 0);
}

#[test]
fn generate_three_series_without_extra_points() {
    let w = generate(3, 0);
    assert_eq!(w.tags.len(), 3);
    assert_eq!(w.points.len(), 3);
    let counts = series_counts(&w.points, 3);
    assert_eq!(counts, vec![1, 1, 1]);
}

#[test]
fn generate_tags_are_hashes_of_seeds() {
    let w = generate(3, 2);
    for i in 0..3 {
        let seed = w.points[i].value;
        assert_eq!(w.tags[i], sha256_hex(&seed.to_string()));
        assert_eq!(w.tags[i], generate_hash_from_number(&seed));
    }
}

#[test]
fn saturated_series_never_reappears() {
    let w = generate(4, 5);
    let mut counts = vec![0usize; 4];
    for p in &w.points {
        assert!(counts[p.series] < 5, "series received a point past its quota");
        counts[p.series] += 1;
    }
    assert_eq!(counts, vec![5, 5, 5, 5]);
}

#[test]
fn hash_of_number_is_hex_sha256_of_decimal() {
    let h = generate_hash_from_number(&42);
    assert_eq!(h.len(), 64);
    assert_eq!(h, sha256_hex("42"));
    assert_eq!(h, "73475cb40a568e8da8a045ced110137e159f890ac4da883b6b17dc651b3a8049");
}

#[test]
fn running_average_truncates() {
    let mut agg = RunningAggregate::new();
    agg.record(1);
    agg.record(2);
    assert_eq!(agg.average(), 1);
    agg.record(3);
    assert_eq!(agg.average(), 2);
    assert_eq!(agg.total(), 6);
    assert_eq!(agg.count(), 3);
}

#[test]
fn time_diff_is_elapsed_milliseconds() {
    assert_eq!(compute_time_diff_ms(100, 250), 150);
    assert_eq!(compute_time_diff_ms(5, 5), 0);
}

#[test]
fn current_time_is_after_epoch() {
    let t1 = get_current_time();
    let t2 = get_current_time();
    assert!(t1 > 0);
    assert!(t2 >= t1);
}

#[test]
fn select_ten_queries_two_tags() {
    let lats = vec![3, 5, 2, 8, 1, 9, 4, 6, 7, 10];
    let mut exec = MockExecutor::new(lats.clone());
    let mut log = ResultLogger::new();
    let tags = vec![String::from("t0"), String::from("t1")];
    let r = start_testcase(&mut exec, &mut log, &tags, 10, 3);
    assert_eq!(exec.selects.len(), 10);
    for hash in &exec.selects {
        assert!(hash == "t0" || hash == "t1");
    }
    assert_eq!(r.latencies.len(), 10);
    assert_eq!(r.choices.len(), 10);
    for c in &r.choices {
        assert!(*c < 2);
    }
    let entries = log.entries();
    assert_eq!(entries.len(), 12);
    assert_eq!(entries[0], LogEntry::BeginSelectQueries);
    let mut sum: u64 = 0;
    for i in 0..10 {
        sum += lats[i] as u64;
        let expected = LogEntry::SelectProgress {
            index: i,
            average_ms: sum / (i as u64 + 1),
            query_ms: lats[i] as u64,
        };
        assert_eq!(entries[1 + i], expected);
    }
    // the tenth line reports floor(55 / 10) == 5
    assert_eq!(
        entries[10],
        LogEntry::SelectProgress { index: 9, average_ms: 5, query_ms: 10 },
    );
    assert_eq!(
        entries[11],
        LogEntry::SelectSummary { queries: 10, total_ms: 55, points_per_series: 3 },
    );
}

#[test]
fn select_without_tags_performs_no_operations() {
    let mut exec = MockExecutor::new(vec![4]);
    let mut log = ResultLogger::new();
    let tags: Vec<String> = Vec::new();
    let r = start_testcase(&mut exec, &mut log, &tags, 10, 2);
    assert_eq!(exec.selects.len(), 0);
    assert_eq!(r.latencies.len(), 0);
    assert_eq!(log.entries().len(), 1);
    assert_eq!(log.entries()[0], LogEntry::BeginSelectQueries);
}

#[test]
fn select_zero_queries_still_writes_summary() {
    let mut exec = MockExecutor::new(vec![4]);
    let mut log = ResultLogger::new();
    let tags = vec![String::from("t0")];
    let r = start_testcase(&mut exec, &mut log, &tags, 0, 0);
    assert_eq!(exec.selects.len(), 0);
    assert_eq!(r.latencies.len(), 0);
    let entries = log.entries();
    assert_eq!(entries.len(), 2);
    assert_eq!(entries[0], LogEntry::BeginSelectQueries);
    assert_eq!(
        entries[1],
        LogEntry::SelectSummary { queries: 0, total_ms: 0, points_per_series: 1 },
    );
}

#[test]
fn small_insert_run_suppresses_progress_lines() {
    let mut exec = MockExecutor::new(vec![2]);
    let mut log = ResultLogger::new();
    let tags = vec![String::from("t0")];
    let mut points: Vec<Point> = Vec::new();
    for k in 0..10 {
        points.push(Point { series: 0, value: k });
    }
    let lats = insert_records(&mut exec, &mut log, &tags, &points, 0, 10);
    assert_eq!(lats, vec![2; 10]);
    assert_eq!(exec.inserts.len(), 10);
    let entries = log.entries();
    assert_eq!(entries.len(), 1);
    assert_eq!(entries[0], LogEntry::InsertSummary { queries: 10, total_ms: 20 });
}

#[test]
fn large_insert_run_logs_progress_each_period() {
    let mut exec = MockExecutor::new(vec![3]);
    let mut log = ResultLogger::new();
    let tags = vec![String::from("t0")];
    let mut points: Vec<Point> = Vec::new();
    for k in 0..500 {
        points.push(Point { series: 0, value: k });
    }
    let lats = insert_records(&mut exec, &mut log, &tags, &points, 0, 500);
    assert_eq!(lats.len(), 500);
    let entries = log.entries();
    // frequency is 500 / 500 == 1: one progress line per insertion
    assert_eq!(entries.len(), 501);
    for i in 0..500 {
        assert_eq!(entries[i], LogEntry::InsertProgress { average_ms: 3, query_ms: 3 });
    }
    assert_eq!(entries[500], LogEntry::InsertSummary { queries: 500, total_ms: 1500 });
}

#[test]
fn negative_latency_reports_count_as_zero() {
    let mut exec = MockExecutor::new(vec![-7]);
    let mut log = ResultLogger::new();
    let tags = vec![String::from("t0")];
    let points = vec![Point { series: 0, value: 1 }, Point { series: 0, value: 2 }];
    let lats = insert_records(&mut exec, &mut log, &tags, &points, 0, 2);
    assert_eq!(lats, vec![0, 0]);
    assert_eq!(log.entries()[0], LogEntry::InsertSummary { queries: 2, total_ms: 0 });
}

#[test]
fn insert_points_distributes_quota_through_executor() {
    let mut exec = MockExecutor::new(vec![1]);
    let mut log = ResultLogger::new();
    let r = insert_points(&mut exec, &mut log, 2, 3);
    assert_eq!(r.tags.len(), 2);
    assert_eq!(r.creation_latencies.len(), 2);
    assert_eq!(r.distribution_latencies.len(), 4);
    assert_eq!(exec.inserts.len(), 6);
    let mut per_tag: HashMap<String, usize> = HashMap::new();
    for (hash, _) in &exec.inserts {
        *per_tag.entry(hash.clone()).or_insert(0) += 1;
    }
    assert_eq!(per_tag.len(), 2);
    assert_eq!(per_tag[&r.tags[0]], 3);
    assert_eq!(per_tag[&r.tags[1]], 3);
    let entries = log.entries();
    assert_eq!(entries.len(), 4);
    assert_eq!(entries[0], LogEntry::BeginInsertSeries);
    assert_eq!(entries[1], LogEntry::InsertSummary { queries: 2, total_ms: 2 });
    assert_eq!(entries[2], LogEntry::BeginInsertPoints);
    assert_eq!(entries[3], LogEntry::InsertSummary { queries: 4, total_ms: 4 });
}

#[test]
fn insert_points_zero_series_is_silent() {
    let mut exec = MockExecutor::new(vec![1]);
    let mut log = ResultLogger::new();
    let r = insert_points(&mut exec, &mut log, 0, 5);
    assert_eq!(r.tags.len(), 0);
    assert_eq!(exec.inserts.len(), 0);
    assert_eq!(log.entries().len(), 0);
}

#[test]
fn insert_points_without_extra_points_skips_distribution() {
    let mut exec = MockExecutor::new(vec![2]);
    let mut log = ResultLogger::new();
    let r = insert_points(&mut exec, &mut log, 3, 0);
    assert_eq!(r.tags.len(), 3);
    assert_eq!(r.distribution_latencies.len(), 0);
    assert_eq!(exec.inserts.len(), 3);
    let entries = log.entries();
    assert_eq!(entries.len(), 2);
    assert_eq!(entries[0], LogEntry::BeginInsertSeries);
    assert_eq!(entries[1], LogEntry::InsertSummary { queries: 3, total_ms: 6 });
}

#[test]
fn insert_points_single_point_series_logs_empty_distribution() {
    let mut exec = MockExecutor::new(vec![2]);
    let mut log = ResultLogger::new();
    let r = insert_points(&mut exec, &mut log, 2, 1);
    assert_eq!(r.tags.len(), 2);
    assert_eq!(r.distribution_latencies.len(), 0);
    assert_eq!(exec.inserts.len(), 2);
    let entries = log.entries();
    assert_eq!(entries.len(), 4);
    assert_eq!(entries[0], LogEntry::BeginInsertSeries);
    assert_eq!(entries[1], LogEntry::InsertSummary { queries: 2, total_ms: 4 });
    assert_eq!(entries[2], LogEntry::BeginInsertPoints);
    assert_eq!(entries[3], LogEntry::InsertSummary { queries: 0, total_ms: 0 });
}

#[test]
fn run_test_case_selects_against_created_tags() {
    let mut exec = MockExecutor::new(vec![2]);
    let tc = TestCase::new(1, 3, 0, 5);
    let r = run_test_case(&mut exec, &tc);
    assert_eq!(r.insert.tags.len(), 3);
    assert_eq!(exec.inserts.len(), 3);
    assert_eq!(exec.selects.len(), 5);
    for hash in &exec.selects {
        assert!(r.insert.tags.contains(hash));
    }
    assert_eq!(r.select.latencies.len(), 5);
    let entries = r.log.entries();
    assert_eq!(entries.len(), 2 + 1 + 5 + 1);
    assert_eq!(entries[0], LogEntry::BeginInsertSeries);
    assert_eq!(entries[1], LogEntry::InsertSummary { queries: 3, total_ms: 6 });
    assert_eq!(entries[2], LogEntry::BeginSelectQueries);
    for i in 0..5 {
        assert_eq!(
            entries[3 + i],
            LogEntry::SelectProgress { index: i, average_ms: 2, query_ms: 2 },
        );
    }
    assert_eq!(
        entries[8],
        LogEntry::SelectSummary { queries: 5, total_ms: 10, points_per_series: 1 },
    );
}

#[test]
fn run_test_case_zero_series_skips_select_operations() {
    let mut exec = MockExecutor::new(vec![2]);
    let tc = TestCase::new(1, 0, 4, 10);
    let r = run_test_case(&mut exec, &tc);
    assert_eq!(exec.inserts.len(), 0);
    assert_eq!(exec.selects.len(), 0);
    assert_eq!(r.select.latencies.len(), 0);
    assert_eq!(r.log.entries().len(), 1);
    assert_eq!(r.log.entries()[0], LogEntry::BeginSelectQueries);
}

#[test]
fn request_from_data_serializes_data_only() {
    let mut data = HashMap::new();
    data.insert(String::from("address"), String::from("abc"));
    let req = Request::from_data(String::from("test"), data);
    let mut expected = serde_json::Map::new();
    expected.insert(
        String::from("address"),
        serde_json::Value::String(String::from("abc")),
    );
    assert_eq!(req.data_to_json(), serde_json::Value::Object(expected));
    assert_eq!(req.condition_to_json(), serde_json::Value::Object(serde_json::Map::new()));
}

#[test]
fn request_from_condition_serializes_condition_only() {
    let mut condition = HashMap::new();
    condition.insert(String::from("address"), String::from("topic"));
    let req = Request::from_condition(String::from("test"), condition);
    let mut expected = serde_json::Map::new();
    expected.insert(
        String::from("address"),
        serde_json::Value::String(String::from("topic")),
    );
    assert_eq!(req.condition_to_json(), serde_json::Value::Object(expected));
    assert_eq!(req.data_to_json(), serde_json::Value::Object(serde_json::Map::new()));
}

#[test]
fn request_new_carries_both_maps() {
    let mut data = HashMap::new();
    data.insert(String::from("balance"), String::from("10"));
    let mut condition = HashMap::new();
    condition.insert(String::from("address"), String::from("abc"));
    let req = Request::new(String::from("test"), data, condition);
    let mut expected_data = serde_json::Map::new();
    expected_data.insert(
        String::from("balance"),
        serde_json::Value::String(String::from("10")),
    );
    let mut expected_condition = serde_json::Map::new();
    expected_condition.insert(
        String::from("address"),
        serde_json::Value::String(String::from("abc")),
    );
    assert_eq!(req.data_to_json(), serde_json::Value::Object(expected_data));
    assert_eq!(req.condition_to_json(), serde_json::Value::Object(expected_condition));
}

#[test]
fn run_test_case_full_workload() {
    let mut exec = MockExecutor::new(vec![4]);
    let tc = TestCase::new(2, 2, 3, 4);
    let r = run_test_case(&mut exec, &tc);
    assert_eq!(r.insert.tags.len(), 2);
    assert_eq!(exec.inserts.len(), 6);
    assert_eq!(exec.selects.len(), 4);
    for hash in &exec.selects {
        assert!(r.insert.tags.contains(hash));
    }
    let entries = r.log.entries();
    assert_eq!(entries.len(), 4 + 1 + 4 + 1);
    assert_eq!(entries[0], LogEntry::BeginInsertSeries);
    assert_eq!(entries[1], LogEntry::InsertSummary { queries: 2, total_ms: 8 });
    assert_eq!(entries[2], LogEntry::BeginInsertPoints);
    assert_eq!(entries[3], LogEntry::InsertSummary { queries: 4, total_ms: 16 });
    assert_eq!(entries[4], LogEntry::BeginSelectQueries);
    assert_eq!(
        entries[9],
        LogEntry::SelectSummary { queries: 4, total_ms: 16, points_per_series: 3 },
    );
}
