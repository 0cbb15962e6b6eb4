use vstd::prelude::*;
use crate::aggregate::{lemma_sum_ms_push, sum_ms, RunningAggregate};
use crate::logging::{LogEntry, ResultLogger};
use crate::rng::random_below;
use crate::testcase::TestCase;
use crate::workload::{generate, quota, Point};

verus! {

/// Storage backend capability: one point insert and one lookup by tag,
/// each reporting its own elapsed time in milliseconds. Implementations
/// are external collaborators; nothing is assumed of what they report.
pub trait Executor {
    fn insert(&mut self, hash: String, random_number: usize) -> i32;

    fn select(&mut self, hash: &String) -> i32;
}

/// The periodic progress lines an insert phase writes after recording the
/// latencies `lats`: one line after every `freq` insertions, carrying the
/// latest latency and the running average at that moment.
pub open spec fn insert_progress_log(lats: Seq<u64>, freq: int) -> Seq<LogEntry>
    decreases lats.len(),
{
    if lats.len() == 0 {
        Seq::empty()
    } else {
        insert_progress_log(lats.drop_last(), freq) + if freq > 0 && lats.len() as int % freq
            == 0 {
            seq![LogEntry::InsertProgress {
                average_ms: (sum_ms(lats) / lats.len() as int) as u64,
                query_ms: lats.last(),
            }]
        } else {
            Seq::empty()
        }
    }
}

pub proof fn lemma_insert_progress_log_push(lats: Seq<u64>, v: u64, freq: int)
    ensures
        insert_progress_log(lats.push(v), freq) == insert_progress_log(lats, freq) + if freq > 0
            && (lats.len() + 1) as int % freq == 0 {
            seq![LogEntry::InsertProgress {
                average_ms: (sum_ms(lats.push(v)) / (lats.len() + 1) as int) as u64,
                query_ms: v,
            }]
        } else {
            Seq::<LogEntry>::empty()
        },
{
    assert(lats.push(v).drop_last() =~= lats);
}

/// Everything an insert phase writes for the latencies `lats`: the periodic
/// progress lines, closed by a summary of the operation count and the
/// cumulative elapsed time.
pub open spec fn insert_phase_log(lats: Seq<u64>) -> Seq<LogEntry> {
    insert_progress_log(lats, lats.len() as int / 500).push(
        LogEntry::InsertSummary { queries: lats.len() as usize, total_ms: sum_ms(lats) as u64 },
    )
}

/// The per-query lines the select phase writes: for the `i`-th query, the
/// running average over the first `i + 1` latencies and the latest latency.
pub open spec fn select_progress_log(lats: Seq<u64>) -> Seq<LogEntry>
    decreases lats.len(),
{
    if lats.len() == 0 {
        Seq::empty()
    } else {
        select_progress_log(lats.drop_last()).push(
            LogEntry::SelectProgress {
                index: (lats.len() - 1) as usize,
                average_ms: (sum_ms(lats) / lats.len() as int) as u64,
                query_ms: lats.last(),
            },
        )
    }
}

pub proof fn lemma_select_progress_log_push(lats: Seq<u64>, v: u64)
    ensures
        select_progress_log(lats.push(v)) == select_progress_log(lats).push(
            LogEntry::SelectProgress {
                index: lats.len() as usize,
                average_ms: (sum_ms(lats.push(v)) / (lats.len() + 1) as int) as u64,
                query_ms: v,
            },
        ),
{
    assert(lats.push(v).drop_last() =~= lats);
}

/// Everything the whole insert stage writes: nothing when there is no
/// series to create, otherwise the series-creation phase and — as soon as
/// points are owed beyond the creation ones — the point-distribution phase.
pub open spec fn insert_full_log(
    series: usize,
    points_per_series: usize,
    creation: Seq<u64>,
    distribution: Seq<u64>,
) -> Seq<LogEntry> {
    if series == 0 {
        Seq::empty()
    } else if points_per_series == 0 {
        seq![LogEntry::BeginInsertSeries] + insert_phase_log(creation)
    } else {
        seq![LogEntry::BeginInsertSeries] + insert_phase_log(creation)
            + seq![LogEntry::BeginInsertPoints] + insert_phase_log(distribution)
    }
}

/// Everything the select phase writes: its opening marker, and — whenever
/// any tag exists to query — the per-query lines and a summary echoing the
/// effective points-per-series (displayed as 1 when it is zero).
pub open spec fn select_full_log(
    tag_count: int,
    queries: usize,
    points_per_series: usize,
    lats: Seq<u64>,
) -> Seq<LogEntry> {
    if tag_count == 0 {
        seq![LogEntry::BeginSelectQueries]
    } else {
        seq![LogEntry::BeginSelectQueries] + select_progress_log(lats) + seq![LogEntry::SelectSummary {
            queries,
            total_ms: sum_ms(lats) as u64,
            points_per_series: if points_per_series > 0 {
                points_per_series
            } else {
                1usize
            },
        }]
    }
}

/// What the insert stage hands back: the created tags, in creation order,
/// and the latencies of the two insert phases, in operation order.
pub struct InsertPhase {
    pub tags: Vec<String>,
    pub creation_latencies: Vec<u64>,
    pub distribution_latencies: Vec<u64>,
}

/// What the select phase hands back: the latencies and, for each query,
/// which tag index it hit.
pub struct SelectPhase {
    pub latencies: Vec<u64>,
    pub choices: Vec<usize>,
}

proof fn lemma_mod_step(i: int, f: int)
    requires
        f > 0,
        i >= 0,
    ensures
        (i + 1) % f == if i % f + 1 == f {
            0int
        } else {
            i % f + 1
        },
{
    let b = i % f;
    let d = i / f;
    vstd::arithmetic::div_mod::lemma_fundamental_div_mod(i, f);
    vstd::arithmetic::div_mod::lemma_mod_bound(i, f);
    if b + 1 == f {
        assert((d + 1) * f == d * f + f) by (nonlinear_arith);
        vstd::arithmetic::div_mod::lemma_fundamental_div_mod_converse(i + 1, f, d + 1, 0);
    } else {
        vstd::arithmetic::div_mod::lemma_fundamental_div_mod_converse(i + 1, f, d, b + 1);
    }
}

/// Runs one insert phase over the points `start..end` of a workload: each
/// point is handed to the executor under its series' tag, every latency is
/// folded into a running aggregate, and a progress line goes out after
/// every `(end - start) / 500` insertions — none at all for small runs.
/// Returns the recorded latencies, in operation order. One policy applies
/// uniformly to whatever the executor reports: a negative report, which a
/// monotonic clock never produces, is folded in as zero.
pub fn insert_records<E: Executor>(
    executor: &mut E,
    log: &mut ResultLogger,
    tags: &Vec<String>,
    points: &Vec<Point>,
    start: usize,
    end: usize,
) -> (lats: Vec<u64>)
    requires
        start <= end <= points@.len(),
        end - start < 0x1_0000_0000,
        forall|k: int| start <= k < end ==> (#[trigger] points@[k]).series < tags@.len(),
    ensures
        lats@.len() == end - start,
        forall|i: int| 0 <= i < lats@.len() ==> (#[trigger] lats@[i]) <= 0x7fff_ffff,
        final(log)@ == old(log)@ + insert_phase_log(lats@),
{
    let count: usize = end - start;
    let freq: usize = count / 500;
    let mut lats: Vec<u64> = Vec::new();
    let mut agg = RunningAggregate::new();
    let mut between: usize = 0;
    let mut i: usize = 0;
    while i < count
        invariant
            i <= count,
            count == end - start,
            end <= points@.len(),
            count < 0x1_0000_0000,
            freq == count / 500,
            forall|k: int| start <= k < end ==> (#[trigger] points@[k]).series < tags@.len(),
            lats@.len() == i,
            forall|j: int| 0 <= j < lats@.len() ==> (#[trigger] lats@[j]) <= 0x7fff_ffff,
            agg.spec_total() == sum_ms(lats@),
            agg.spec_ops() == i,
            sum_ms(lats@) <= i * 0x7fff_ffff,
            freq > 0 ==> between == i as int % freq as int,
            freq == 0 ==> between == i,
            log@ == old(log)@ + insert_progress_log(lats@, freq as int),
        decreases count - i,
    {
        let p = points[start + i];
        let hash = tags[p.series].clone();
        let q = executor.insert(hash, p.value);
        let lat: u64 = if q >= 0 {
            q as u64
        } else {
            0
        };
        proof {
            lemma_sum_ms_push(lats@, lat);
            lemma_insert_progress_log_push(lats@, lat, freq as int);
            if freq > 0 {
                lemma_mod_step(i as int, freq as int);
            }
        }
        let ghost pre_log = log@;
        agg.record(lat);
        lats.push(lat);
        between = between + 1;
        if between == freq {
            between = 0;
            let avg = agg.average();
            log.append(LogEntry::InsertProgress { average_ms: avg, query_ms: lat });
            proof {
                assert(log@ =~= old(log)@ + insert_progress_log(lats@, freq as int));
            }
        } else {
            proof {
                assert(log@ =~= old(log)@ + insert_progress_log(lats@, freq as int));
            }
        }
        i = i + 1;
    }
    let total = agg.total();
    log.append(LogEntry::InsertSummary { queries: count, total_ms: total });
    proof {
        assert(log@ =~= old(log)@ + insert_phase_log(lats@));
    }
    lats
}

/// Runs the whole insert stage for one test case: generates the workload,
/// creates every series with one point, then distributes the remaining
/// points, logging each phase. Returns the created tags for the select
/// phase, together with the recorded latencies.
pub fn insert_points<E: Executor>(
    executor: &mut E,
    log: &mut ResultLogger,
    series: usize,
    points_per_series: usize,
) -> (r: InsertPhase)
    requires
        series * quota(points_per_series) < 0x1_0000_0000,
    ensures
        r.tags@.len() == series,
        r.creation_latencies@.len() == if series == 0 {
            0int
        } else {
            series as int
        },
        r.distribution_latencies@.len() == if series == 0 {
            0int
        } else {
            series * (quota(points_per_series) - 1)
        },
        forall|i: int|
            0 <= i < r.creation_latencies@.len() ==> (#[trigger] r.creation_latencies@[i])
                <= 0x7fff_ffff,
        forall|i: int|
            0 <= i < r.distribution_latencies@.len() ==> (#[trigger] r.distribution_latencies@[i])
                <= 0x7fff_ffff,
        final(log)@ == old(log)@ + insert_full_log(
            series,
            points_per_series,
            r.creation_latencies@,
            r.distribution_latencies@,
        ),
{
    if series == 0 {
        let r = InsertPhase {
            tags: Vec::new(),
            creation_latencies: Vec::new(),
            distribution_latencies: Vec::new(),
        };
        proof {
            assert(log@ =~= old(log)@ + insert_full_log(
                series,
                points_per_series,
                r.creation_latencies@,
                r.distribution_latencies@,
            ));
        }
        return r;
    }
    proof {
        assert(series * 1int <= series * quota(points_per_series)) by (nonlinear_arith)
            requires
                0 <= series,
                1 <= quota(points_per_series),
        ;
    }
    let w = generate(series, points_per_series);
    log.append(LogEntry::BeginInsertSeries);
    let creation_latencies = insert_records(executor, log, &w.tags, &w.points, 0, series);
    if points_per_series == 0 {
        let r = InsertPhase { tags: w.tags, creation_latencies, distribution_latencies: Vec::new() };
        proof {
            assert(log@ =~= old(log)@ + insert_full_log(
                series,
                points_per_series,
                r.creation_latencies@,
                r.distribution_latencies@,
            ));
        }
        return r;
    }
    log.append(LogEntry::BeginInsertPoints);
    let end = w.points.len();
    let distribution_latencies = insert_records(executor, log, &w.tags, &w.points, series, end);
    proof {
        assert(series * quota(points_per_series) - series == series * (quota(points_per_series)
            - 1)) by (nonlinear_arith);
    }
    let r = InsertPhase { tags: w.tags, creation_latencies, distribution_latencies };
    proof {
        assert(log@ =~= old(log)@ + insert_full_log(
            series,
            points_per_series,
            r.creation_latencies@,
            r.distribution_latencies@,
        ));
    }
    r
}

/// Runs the select phase for one test case: `queries` lookups, each against
/// a tag drawn at random from the full tag set captured by the insert
/// stage, logging every query and a closing summary. With no tags at all
/// the phase performs zero operations, whatever `queries` says.
pub fn start_testcase<E: Executor>(
    executor: &mut E,
    log: &mut ResultLogger,
    tags: &Vec<String>,
    queries: usize,
    points_per_series: usize,
) -> (r: SelectPhase)
    requires
        queries < 0x1_0000_0000,
    ensures
        r.latencies@.len() == r.choices@.len(),
        forall|i: int| 0 <= i < r.choices@.len() ==> (#[trigger] r.choices@[i]) < tags@.len(),
        forall|i: int| 0 <= i < r.latencies@.len() ==> (#[trigger] r.latencies@[i]) <= 0x7fff_ffff,
        r.latencies@.len() == if tags@.len() == 0 {
            0int
        } else {
            queries as int
        },
        final(log)@ == old(log)@ + select_full_log(
            tags@.len() as int,
            queries,
            points_per_series,
            r.latencies@,
        ),
{
    log.append(LogEntry::BeginSelectQueries);
    if tags.len() == 0 {
        let r = SelectPhase { latencies: Vec::new(), choices: Vec::new() };
        proof {
            assert(log@ =~= old(log)@ + select_full_log(
                tags@.len() as int,
                queries,
                points_per_series,
                r.latencies@,
            ));
        }
        return r;
    }
    let mut latencies: Vec<u64> = Vec::new();
    let mut choices: Vec<usize> = Vec::new();
    let mut agg = RunningAggregate::new();
    let mut i: usize = 0;
    while i < queries
        invariant
            i <= queries,
            queries < 0x1_0000_0000,
            tags@.len() > 0,
            latencies@.len() == i,
            choices@.len() == i,
            forall|j: int| 0 <= j < choices@.len() ==> (#[trigger] choices@[j]) < tags@.len(),
            forall|j: int| 0 <= j < latencies@.len() ==> (#[trigger] latencies@[j]) <= 0x7fff_ffff,
            agg.spec_total() == sum_ms(latencies@),
            agg.spec_ops() == i,
            sum_ms(latencies@) <= i * 0x7fff_ffff,
            log@ == old(log)@.push(LogEntry::BeginSelectQueries) + select_progress_log(
                latencies@,
            ),
        decreases queries - i,
    {
        let idx = random_below(tags.len());
        let q = executor.select(&tags[idx]);
        let lat: u64 = if q >= 0 {
            q as u64
        } else {
            0
        };
        proof {
            lemma_sum_ms_push(latencies@, lat);
            lemma_select_progress_log_push(latencies@, lat);
        }
        agg.record(lat);
        latencies.push(lat);
        choices.push(idx);
        let avg = agg.average();
        log.append(LogEntry::SelectProgress { index: i, average_ms: avg, query_ms: lat });
        proof {
            assert(log@ =~= old(log)@.push(LogEntry::BeginSelectQueries) + select_progress_log(
                latencies@,
            ));
        }
        i = i + 1;
    }
    let total = agg.total();
    let shown_points: usize = if points_per_series > 0 {
        points_per_series
    } else {
        1
    };
    log.append(
        LogEntry::SelectSummary { queries, total_ms: total, points_per_series: shown_points },
    );
    let r = SelectPhase { latencies, choices };
    proof {
        assert(log@ =~= old(log)@ + select_full_log(
            tags@.len() as int,
            queries,
            points_per_series,
            r.latencies@,
        ));
    }
    r
}

/// Everything one test case produces: its full log and the data of both
/// phases.
pub struct TestCaseRun {
    pub log: ResultLogger,
    pub insert: InsertPhase,
    pub select: SelectPhase,
}

/// Runs one whole test case against an executor: the insert stage, then
/// the select phase over the tags the insert stage created, into a fresh
/// log owned by this test case.
pub fn run_test_case<E: Executor>(executor: &mut E, test_case: &TestCase) -> (r: TestCaseRun)
    requires
        test_case.spec_series() * quota(test_case.spec_points_per_series()) < 0x1_0000_0000,
        test_case.spec_queries() < 0x1_0000_0000,
    ensures
        r.insert.tags@.len() == test_case.spec_series(),
        r.select.latencies@.len() == r.select.choices@.len(),
        forall|i: int|
            0 <= i < r.select.choices@.len() ==> (#[trigger] r.select.choices@[i])
                < test_case.spec_series(),
        r.select.latencies@.len() == if test_case.spec_series() == 0 {
            0int
        } else {
            test_case.spec_queries() as int
        },
        r.log@ == insert_full_log(
            test_case.spec_series(),
            test_case.spec_points_per_series(),
            r.insert.creation_latencies@,
            r.insert.distribution_latencies@,
        ) + select_full_log(
            test_case.spec_series() as int,
            test_case.spec_queries(),
            test_case.spec_points_per_series(),
            r.select.latencies@,
        ),
{
    let mut log = ResultLogger::new();
    let series = test_case.get_series();
    let points_per_series = test_case.get_points_per_series();
    let queries = test_case.get_queries();
    let insert = insert_points(executor, &mut log, series, points_per_series);
    let select = start_testcase(executor, &mut log, &insert.tags, queries, points_per_series);
    let r = TestCaseRun { log, insert, select };
    proof {
        assert(r.log@ =~= insert_full_log(
            test_case.spec_series(),
            test_case.spec_points_per_series(),
            r.insert.creation_latencies@,
            r.insert.distribution_latencies@,
        ) + select_full_log(
            test_case.spec_series() as int,
            test_case.spec_queries(),
            test_case.spec_points_per_series(),
            r.select.latencies@,
        ));
    }
    r
}

} // verus!
