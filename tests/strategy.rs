use ingest_bench::chunking::chunk_bounds;
use ingest_bench::strategy::{
    all_methods, binding_order, chunk_statement, exceeds_parameter_limit, plan_run,
    prepared_statement, reset_statements, select_methods, values_statement, IngestMethod, Step,
};

#[test]
fn chunks_are_consecutive_and_last_is_short() {
    assert_eq!(chunk_bounds(10, 3), vec![(0, 3), (3, 6), (6, 9), (9, 10)]);
    assert_eq!(chunk_bounds(10, 5), vec![(0, 5), (5, 10)]);
    assert_eq!(chunk_bounds(10, 10), vec![(0, 10)]);
    assert_eq!(chunk_bounds(3, 1000), vec![(0, 3)]);
    assert!(chunk_bounds(0, 5).is_empty());
}

#[test]
fn chunks_rejoin_to_the_records_for_every_batch_size() {
    let records: Vec<u32> = (0..23).map(|i| i * 7 + 1).collect();
    for b in 1..=records.len() {
        let mut joined = Vec::new();
        for (lo, hi) in chunk_bounds(records.len(), b) {
            assert!(hi > lo && hi - lo <= b);
            joined.extend_from_slice(&records[lo..hi]);
        }
        assert_eq!(joined, records);
    }
}

#[test]
fn values_statement_text() {
    assert_eq!(
        values_statement(2),
        "INSERT INTO power_generation VALUES ($1, $2, $3, $4, $5, $6, $7), ($8, $9, $10, $11, $12, $13, $14)"
    );
    assert_eq!(
        values_statement(1),
        "INSERT INTO power_generation VALUES ($1, $2, $3, $4, $5, $6, $7)"
    );
}

#[test]
fn parameter_ceiling() {
    assert!(!exceeds_parameter_limit(IngestMethod::InsertValues, 571));
    assert!(exceeds_parameter_limit(IngestMethod::InsertValues, 572));
    assert!(exceeds_parameter_limit(IngestMethod::PreparedInsertValues, 1000));
    assert!(!exceeds_parameter_limit(IngestMethod::InsertUnnest, 100000));
    assert!(!exceeds_parameter_limit(IngestMethod::Copy, 100000));
    assert!(!exceeds_parameter_limit(IngestMethod::BinaryCopy, 100000));
}

#[test]
fn refused_batch_plans_only_a_reset() {
    assert_eq!(plan_run(IngestMethod::InsertValues, 10, 1000, true), vec![Step::ResetStorage]);
    assert_eq!(plan_run(IngestMethod::PreparedInsertValues, 10, 572, false), vec![Step::ResetStorage]);
}

#[test]
fn plan_with_transaction_and_prepare() {
    assert_eq!(
        plan_run(IngestMethod::PreparedInsertUnnest, 7, 4, true),
        vec![
            Step::ResetStorage,
            Step::StartClock,
            Step::Begin,
            Step::Prepare,
            Step::Load { start: 0, end: 4 },
            Step::Load { start: 4, end: 7 },
            Step::Commit,
            Step::StopClock,
        ]
    );
}

#[test]
fn plan_without_transaction() {
    assert_eq!(
        plan_run(IngestMethod::Copy, 3, 2, false),
        vec![
            Step::ResetStorage,
            Step::StartClock,
            Step::Load { start: 0, end: 2 },
            Step::Load { start: 2, end: 3 },
            Step::StopClock,
        ]
    );
}

#[test]
fn prepared_values_binds_timestamp_before_id() {
    assert_eq!(binding_order(IngestMethod::PreparedInsertValues), vec![1, 0, 2, 3, 4, 5, 6]);
    assert_eq!(binding_order(IngestMethod::InsertValues), vec![0, 1, 2, 3, 4, 5, 6]);
}

#[test]
fn statements_per_method() {
    assert_eq!(prepared_statement(IngestMethod::PreparedInsertValues, 1), Some(values_statement(1)));
    assert!(prepared_statement(IngestMethod::InsertValues, 1).is_none());
    assert!(prepared_statement(IngestMethod::PreparedInsertUnnest, 5).unwrap().contains("unnest($1::int4[]"));
    assert_eq!(chunk_statement(IngestMethod::InsertValues, 3), Some(values_statement(3)));
    assert!(chunk_statement(IngestMethod::PreparedInsertValues, 3).is_none());
    assert_eq!(chunk_statement(IngestMethod::Copy, 3).unwrap(), "COPY power_generation FROM STDIN");
    assert_eq!(
        chunk_statement(IngestMethod::BinaryCopy, 3).unwrap(),
        "COPY power_generation FROM STDIN WITH (FORMAT binary)"
    );
}

#[test]
fn reset_creates_truncates_and_checkpoints() {
    let s = reset_statements();
    assert_eq!(s.len(), 4);
    assert!(s[0].starts_with("CREATE TABLE IF NOT EXISTS power_generation"));
    assert_eq!(s[1], "TRUNCATE TABLE power_generation");
    assert!(s[2].contains("autovacuum_enabled = false"));
    assert_eq!(s[3], "CHECKPOINT");
}

#[test]
fn method_selection_and_labels() {
    let all = all_methods();
    assert_eq!(all.len(), 6);
    assert_eq!(select_methods(true, &vec![IngestMethod::Copy]), all);
    assert_eq!(select_methods(false, &vec![IngestMethod::Copy]), vec![IngestMethod::Copy]);
    assert_eq!(IngestMethod::InsertUnnest.label(), "UNNEST insert");
    assert_eq!(IngestMethod::BinaryCopy.label(), "Binary Copy");
}
