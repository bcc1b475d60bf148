use ingest_bench::connection::ConnectionInfo;
use ingest_bench::report::{
    create_benchmark_result, fastest_index, rank_results, relative_speed, report_header,
    report_rows, rows_per_sec_rounded, run_result, RunResult,
};
use ingest_bench::strategy::{plan_run, IngestMethod, Step};
use ingest_bench::suite::{plan_suite, Combination, Suite};

fn result(name: &str, method: IngestMethod, nanos: u64, rows: u64) -> RunResult {
    create_benchmark_result(name, method, nanos, rows, false, 1000)
}

#[test]
fn measured_result_keeps_count_and_duration() {
    let r = run_result("pg", IngestMethod::Copy, 500, true, 10, 2_000_000_000);
    assert_eq!(r.rows, 10);
    assert_eq!(r.duration_nanos, 2_000_000_000);
    assert_eq!(r.batch_size, 500);
    assert!(r.transaction);
    assert_eq!(rows_per_sec_rounded(&r), 5);
}

#[test]
fn refused_batch_gives_sentinel() {
    let r = run_result("pg", IngestMethod::InsertValues, 1000, false, 10, 123);
    assert_eq!(r.rows, 0);
    assert_eq!(r.duration_nanos, 0);
    let r = run_result("pg", IngestMethod::PreparedInsertValues, 600, false, 10, 123);
    assert_eq!(r.duration_nanos, 0);
}

#[test]
fn rows_per_sec_rounds_to_nearest() {
    assert_eq!(rows_per_sec_rounded(&result("a", IngestMethod::Copy, 3_000_000_000, 10)), 3);
    assert_eq!(rows_per_sec_rounded(&result("a", IngestMethod::Copy, 2_000_000_000, 5)), 3);
    assert_eq!(rows_per_sec_rounded(&result("a", IngestMethod::Copy, 1_000, 1)), 1_000_000);
}

#[test]
fn ranking_drops_sentinels_and_sorts_ascending() {
    let results = vec![
        result("a", IngestMethod::Copy, 1_000_000_000, 100),
        result("b", IngestMethod::InsertValues, 0, 0),
        result("c", IngestMethod::BinaryCopy, 4_000_000_000, 100),
        result("d", IngestMethod::InsertUnnest, 2_000_000_000, 100),
    ];
    let ranked = rank_results(results);
    let names: Vec<&str> = ranked.iter().map(|r| r.connection_name.as_str()).collect();
    assert_eq!(names, vec!["c", "d", "a"]);
    assert!(ranked.iter().all(|r| r.duration_nanos > 0));
}

#[test]
fn ranking_nothing_gives_nothing() {
    assert!(rank_results(Vec::new()).is_empty());
    assert!(rank_results(vec![result("b", IngestMethod::InsertValues, 0, 0)]).is_empty());
}

#[test]
fn relative_speed_of_fastest_is_one() {
    let f = result("f", IngestMethod::Copy, 1_000_000_000, 10);
    assert_eq!(relative_speed(&f, &f), (1, 0));
    let slow = result("s", IngestMethod::Copy, 3_000_000_000, 10);
    assert_eq!(relative_speed(&f, &slow), (3, 0));
    let mid = result("m", IngestMethod::Copy, 1_500_000_000, 10);
    assert_eq!(relative_speed(&f, &mid), (1, 50));
    let third = result("t", IngestMethod::Copy, 1_000_000_000, 3);
    assert_eq!(relative_speed(&f, &third), (3, 33));
    let two_thirds = result("t", IngestMethod::Copy, 2_000_000_000, 3);
    assert_eq!(relative_speed(&f, &two_thirds), (6, 67));
}

#[test]
fn relative_speed_rounds_half_up() {
    let f = result("f", IngestMethod::Copy, 1, 201);
    let r = result("r", IngestMethod::Copy, 1, 200);
    assert_eq!(relative_speed(&f, &r), (1, 1));
}

#[test]
fn report_cells_and_header() {
    let results = vec![
        result("slow", IngestMethod::InsertUnnest, 2_000_000_000, 10),
        result("fast", IngestMethod::Copy, 1_500_000_000, 30),
    ];
    assert_eq!(fastest_index(&results), Some(1));
    let rows = report_rows(&results);
    assert_eq!(rows.len(), 2);
    assert_eq!(
        rows[0],
        vec!["slow", "UNNEST insert", "1000", "No", "2.00s", "5", "x4.00"]
    );
    assert_eq!(rows[1], vec!["fast", "Copy", "1000", "No", "1.50s", "20", "x1.00"]);
    assert_eq!(
        report_header(),
        vec!["Connection", "Method", "Batch Size", "Transaction", "Duration", "Rows/sec", "Relative Speed"]
    );
}

#[test]
fn duration_cell_uses_two_decimals() {
    let results = vec![result("a", IngestMethod::Copy, 1_234_567, 1)];
    let rows = report_rows(&results);
    assert_eq!(rows[0][4], format!("{:.2?}", std::time::Duration::from_nanos(1_234_567)));
    assert_eq!(rows[0][4], "1.23ms");
}

#[test]
fn empty_dataset_reads_nan() {
    let results = vec![result("a", IngestMethod::Copy, 5, 0)];
    let rows = report_rows(&results);
    assert_eq!(rows[0][5], "0");
    assert_eq!(rows[0][6], "xNaN");
}

#[test]
fn suite_plan_is_the_cross_product() {
    let plan = plan_suite(2, &vec![500, 1000], &vec![IngestMethod::Copy, IngestMethod::BinaryCopy]);
    assert_eq!(plan.len(), 8);
    assert_eq!(plan[0], Combination { connection: 0, batch_size: 500, method: IngestMethod::Copy });
    assert_eq!(plan[3], Combination { connection: 0, batch_size: 1000, method: IngestMethod::BinaryCopy });
    assert_eq!(plan[5], Combination { connection: 1, batch_size: 500, method: IngestMethod::BinaryCopy });
}

#[test]
fn one_failed_run_does_not_stop_the_others() {
    let conn = ConnectionInfo::from_str("A://h/db", 0);
    let mut suite = Suite::new(1, &vec![500, 1000], &vec![IngestMethod::Copy]);
    let mut seen = Vec::new();
    while let Some(run) = suite.next_run() {
        seen.push(run);
        if run.batch_size == 500 {
            suite.record(None);
        } else {
            suite.record(Some(run_result(&conn.name, run.method, run.batch_size, false, 10, 7)));
        }
    }
    assert_eq!(seen.len(), 2);
    let results = suite.into_results();
    assert_eq!(results.len(), 1);
    assert_eq!(results[0].batch_size, 1000);
    assert_eq!(results[0].connection_name, "A");
}

#[test]
fn ten_records_two_methods_end_to_end() {
    let methods = vec![IngestMethod::InsertUnnest, IngestMethod::Copy];
    let mut suite = Suite::new(1, &vec![5], &methods);
    let mut resets = 0;
    while let Some(run) = suite.next_run() {
        let steps = plan_run(run.method, 10, run.batch_size, false);
        resets += steps.iter().filter(|s| **s == Step::ResetStorage).count();
        let loaded: usize = steps
            .iter()
            .map(|s| match s {
                Step::Load { start, end } => end - start,
                _ => 0,
            })
            .sum();
        assert_eq!(loaded, 10);
        suite.record(Some(run_result("postgres-1", run.method, run.batch_size, false, 10, 4_000_000_000)));
    }
    assert_eq!(resets, 2);
    let ranked = rank_results(suite.into_results());
    assert_eq!(ranked.len(), 2);
    for r in &ranked {
        assert_eq!(r.rows, 10);
        assert_eq!(r.duration_nanos, 4_000_000_000);
        assert_eq!(rows_per_sec_rounded(r), 3);
    }
}
