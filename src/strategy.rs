//! The ingestion strategies: their statements, their parameter ceiling, the
//! order in which a record's fields are bound, and the steps of one run.

use vstd::prelude::*;
use vstd::string::*;
use crate::chunking::{bounds_view, chunk_bounds, chunk_bounds_spec};
use crate::text::{decimal, push_decimal};

verus! {

/// Columns of the target table, one positional parameter each per row.
pub const COLUMNS: usize = 7;

/// The most positional parameters that a VALUES statement may carry.
pub const MAX_PARAMETERS: usize = 4000;

/// One bulk-loading technique.
#[derive(Clone, Copy, Debug, PartialEq, Eq, Structural)]
pub enum IngestMethod {
    InsertValues,
    PreparedInsertValues,
    InsertUnnest,
    PreparedInsertUnnest,
    Copy,
    BinaryCopy,
}

/// The label under which a method's results are reported.
pub open spec fn method_label(m: IngestMethod) -> Seq<char> {
    match m {
        IngestMethod::InsertValues => "Insert VALUES"@,
        IngestMethod::PreparedInsertValues => "Prepared Insert VALUES"@,
        IngestMethod::InsertUnnest => "UNNEST insert"@,
        IngestMethod::PreparedInsertUnnest => "Prepared Insert UNNEST"@,
        IngestMethod::Copy => "Copy"@,
        IngestMethod::BinaryCopy => "Binary Copy"@,
    }
}

/// The six methods, in their canonical order.
pub open spec fn every_method() -> Seq<IngestMethod> {
    seq![
        IngestMethod::InsertValues,
        IngestMethod::PreparedInsertValues,
        IngestMethod::InsertUnnest,
        IngestMethod::PreparedInsertUnnest,
        IngestMethod::Copy,
        IngestMethod::BinaryCopy,
    ]
}

/// The method sends one multi-row VALUES statement per chunk.
pub open spec fn uses_values(m: IngestMethod) -> bool {
    m == IngestMethod::InsertValues || m == IngestMethod::PreparedInsertValues
}

/// The method prepares its statement once, before the chunks.
pub open spec fn is_prepared(m: IngestMethod) -> bool {
    m == IngestMethod::PreparedInsertValues || m == IngestMethod::PreparedInsertUnnest
}

/// A batch of `b` rows would need more positional parameters than allowed.
pub open spec fn over_parameter_limit(m: IngestMethod, b: int) -> bool {
    uses_values(m) && b * COLUMNS > MAX_PARAMETERS
}

/// The field positions (0 id, 1 timestamp, 2..6 measurements) in the order
/// in which a record's values are bound to a row's placeholders.
pub open spec fn binding_order_spec(m: IngestMethod) -> Seq<usize> {
    if m == IngestMethod::PreparedInsertValues {
        seq![1, 0, 2, 3, 4, 5, 6]
    } else {
        seq![0, 1, 2, 3, 4, 5, 6]
    }
}

impl IngestMethod {
    /// The label under which results of this method are reported.
    pub fn label(&self) -> (r: &'static str)
        ensures
            r@ == method_label(*self),
    {
        match self {
            IngestMethod::InsertValues => "Insert VALUES",
            IngestMethod::PreparedInsertValues => "Prepared Insert VALUES",
            IngestMethod::InsertUnnest => "UNNEST insert",
            IngestMethod::PreparedInsertUnnest => "Prepared Insert UNNEST",
            IngestMethod::Copy => "Copy",
            IngestMethod::BinaryCopy => "Binary Copy",
        }
    }
}

/// All six methods.
pub fn all_methods() -> (r: Vec<IngestMethod>)
    ensures
        r@ == every_method(),
{
    let r = vec![
        IngestMethod::InsertValues,
        IngestMethod::PreparedInsertValues,
        IngestMethod::InsertUnnest,
        IngestMethod::PreparedInsertUnnest,
        IngestMethod::Copy,
        IngestMethod::BinaryCopy,
    ];
    assert(r@ =~= every_method());
    r
}

/// The methods to run: all six when `all` is set, else the listed ones.
pub fn select_methods(all: bool, listed: &Vec<IngestMethod>) -> (r: Vec<IngestMethod>)
    ensures
        r@ == (if all { every_method() } else { listed@ }),
{
    if all {
        all_methods()
    } else {
        listed.clone()
    }
}

/// Whether a batch of `batch_size` rows is refused for `method`.
pub fn exceeds_parameter_limit(method: IngestMethod, batch_size: usize) -> (r: bool)
    ensures
        r == over_parameter_limit(method, batch_size as int),
{
    let values = match method {
        IngestMethod::InsertValues | IngestMethod::PreparedInsertValues => true,
        _ => false,
    };
    values && batch_size > MAX_PARAMETERS / COLUMNS
}

/// The order in which a record's fields are bound for `method`.
pub fn binding_order(method: IngestMethod) -> (r: Vec<usize>)
    ensures
        r@ == binding_order_spec(method),
{
    let r = match method {
        IngestMethod::PreparedInsertValues => vec![1, 0, 2, 3, 4, 5, 6],
        _ => vec![0, 1, 2, 3, 4, 5, 6],
    };
    assert(r@ =~= binding_order_spec(method));
    r
}

/// `$<base + 1>, $<base + 2>, ..., $<base + k>`.
pub open spec fn placeholder_list(base: nat, k: nat) -> Seq<char>
    decreases k,
{
    if k == 0 {
        Seq::empty()
    } else if k == 1 {
        "$"@ + decimal(base + 1)
    } else {
        placeholder_list(base, (k - 1) as nat) + ", $"@ + decimal(base + k)
    }
}

/// The placeholders of row `i`: `($<7i + 1>, ..., $<7i + 7>)`.
pub open spec fn row_placeholders(i: nat) -> Seq<char> {
    "("@ + placeholder_list(i * 7, 7) + ")"@
}

/// The placeholders of rows `0..n`, separated by `, `.
pub open spec fn value_rows(n: nat) -> Seq<char>
    decreases n,
{
    if n == 0 {
        Seq::empty()
    } else if n == 1 {
        row_placeholders(0)
    } else {
        value_rows((n - 1) as nat) + ", "@ + row_placeholders((n - 1) as nat)
    }
}

/// The multi-row VALUES statement for `n` rows.
pub open spec fn values_statement_spec(n: nat) -> Seq<char> {
    "INSERT INTO power_generation VALUES "@ + value_rows(n)
}

/// The array-expansion statement.
pub open spec fn unnest_statement_spec() -> Seq<char> {
    "INSERT INTO power_generation SELECT * FROM unnest($1::int4[], $2::timestamptz[], $3::float8[], $4::float8[], $5::float8[], $6::float8[], $7::float8[])"@
}

/// The text-mode bulk-copy statement.
pub open spec fn copy_statement_spec() -> Seq<char> {
    "COPY power_generation FROM STDIN"@
}

/// The binary-mode bulk-copy statement.
pub open spec fn binary_copy_statement_spec() -> Seq<char> {
    "COPY power_generation FROM STDIN WITH (FORMAT binary)"@
}

/// Appends `$<base + 1>, ..., $<base + 7>` wrapped in parentheses.
fn push_row_placeholders(out: &mut String, row: u128)
    requires
        row < 0x1_0000_0000_0000_0000,
    ensures
        final(out)@ == old(out)@ + row_placeholders(row as nat),
{
    let base: u128 = row * 7;
    out.append("(");
    let ghost start = out@;
    let mut k: u128 = 0;
    while k < 7
        invariant
            k <= 7,
            base == row * 7,
            row < 0x1_0000_0000_0000_0000,
            out@ == start + placeholder_list(base as nat, k as nat),
        decreases 7 - k,
    {
        if k > 0 {
            out.append(", ");
        }
        out.append("$");
        push_decimal(out, base + k + 1);
        proof {
            if k == 0 {
                assert(placeholder_list(base as nat, 1) == "$"@ + decimal((base + 1) as nat));
            } else {
                assert(placeholder_list(base as nat, (k + 1) as nat) == placeholder_list(
                    base as nat,
                    k as nat,
                ) + ", $"@ + decimal((base + k + 1) as nat));
                reveal_strlit(", ");
                reveal_strlit("$");
                reveal_strlit(", $");
            }
        }
        assert(out@ =~= start + placeholder_list(base as nat, (k + 1) as nat));
        k = k + 1;
    }
    out.append(")");
    assert(out@ =~= old(out)@ + row_placeholders(row as nat));
}

/// The multi-row VALUES statement with placeholders for `rows` rows.
pub fn values_statement(rows: usize) -> (r: String)
    ensures
        r@ == values_statement_spec(rows as nat),
{
    let mut r = String::from_str("INSERT INTO power_generation VALUES ");
    let ghost head = r@;
    let mut i: usize = 0;
    while i < rows
        invariant
            i <= rows,
            r@ == head + value_rows(i as nat),
        decreases rows - i,
    {
        if i > 0 {
            r.append(", ");
        }
        push_row_placeholders(&mut r, i as u128);
        proof {
            if i == 0 {
                assert(value_rows(1) == row_placeholders(0));
            } else {
                assert(value_rows((i + 1) as nat) == value_rows(i as nat) + ", "@ + row_placeholders(
                    i as nat,
                ));
            }
        }
        assert(r@ =~= head + value_rows((i + 1) as nat));
        i = i + 1;
    }
    r
}

/// The statement that `method` prepares once before its chunks, for batch
/// size `batch_size`; none for the methods that prepare nothing.
pub open spec fn prepared_statement_spec(m: IngestMethod, batch_size: nat) -> Option<Seq<char>> {
    match m {
        IngestMethod::PreparedInsertValues => Some(values_statement_spec(batch_size)),
        IngestMethod::PreparedInsertUnnest => Some(unnest_statement_spec()),
        _ => None,
    }
}

/// The statement that `method` sends for a chunk of `rows` rows; none for the
/// methods that run their prepared statement.
pub open spec fn chunk_statement_spec(m: IngestMethod, rows: nat) -> Option<Seq<char>> {
    match m {
        IngestMethod::InsertValues => Some(values_statement_spec(rows)),
        IngestMethod::InsertUnnest => Some(unnest_statement_spec()),
        IngestMethod::Copy => Some(copy_statement_spec()),
        IngestMethod::BinaryCopy => Some(binary_copy_statement_spec()),
        _ => None,
    }
}

/// The statement prepared by `method` before its chunks, if it prepares one.
pub fn prepared_statement(method: IngestMethod, batch_size: usize) -> (r: Option<String>)
    ensures
        r matches Some(s) ==> prepared_statement_spec(method, batch_size as nat) == Some(s@),
        r is None ==> prepared_statement_spec(method, batch_size as nat) is None,
{
    match method {
        IngestMethod::PreparedInsertValues => Some(values_statement(batch_size)),
        IngestMethod::PreparedInsertUnnest => Some(String::from_str(
            "INSERT INTO power_generation SELECT * FROM unnest($1::int4[], $2::timestamptz[], $3::float8[], $4::float8[], $5::float8[], $6::float8[], $7::float8[])",
        )),
        _ => None,
    }
}

/// The statement sent by `method` for a chunk of `rows` rows, if it sends one
/// of its own rather than its prepared statement.
pub fn chunk_statement(method: IngestMethod, rows: usize) -> (r: Option<String>)
    ensures
        r matches Some(s) ==> chunk_statement_spec(method, rows as nat) == Some(s@),
        r is None ==> chunk_statement_spec(method, rows as nat) is None,
{
    match method {
        IngestMethod::InsertValues => Some(values_statement(rows)),
        IngestMethod::InsertUnnest => Some(String::from_str(
            "INSERT INTO power_generation SELECT * FROM unnest($1::int4[], $2::timestamptz[], $3::float8[], $4::float8[], $5::float8[], $6::float8[], $7::float8[])",
        )),
        IngestMethod::Copy => Some(String::from_str("COPY power_generation FROM STDIN")),
        IngestMethod::BinaryCopy => Some(String::from_str(
            "COPY power_generation FROM STDIN WITH (FORMAT binary)",
        )),
        _ => None,
    }
}

/// The administrative statements that bring the table to a clean state:
/// create it if absent, empty it, stop background maintenance on it, and
/// force a checkpoint.
pub open spec fn reset_statements_spec() -> Seq<Seq<char>> {
    seq![
        "CREATE TABLE IF NOT EXISTS power_generation (generator_id INTEGER, timestamp TIMESTAMP WITH TIME ZONE, power_output_kw DOUBLE PRECISION, voltage DOUBLE PRECISION, current DOUBLE PRECISION, frequency DOUBLE PRECISION, temperature DOUBLE PRECISION)"@,
        "TRUNCATE TABLE power_generation"@,
        "ALTER TABLE power_generation SET (autovacuum_enabled = false)"@,
        "CHECKPOINT"@,
    ]
}

/// The statements of a storage reset, in the order they are issued.
pub fn reset_statements() -> (r: Vec<&'static str>)
    ensures
        r@.len() == reset_statements_spec().len(),
        forall|i: int| 0 <= i < r@.len() ==> (#[trigger] r@[i])@ == reset_statements_spec()[i],
{
    let r = vec![
        "CREATE TABLE IF NOT EXISTS power_generation (generator_id INTEGER, timestamp TIMESTAMP WITH TIME ZONE, power_output_kw DOUBLE PRECISION, voltage DOUBLE PRECISION, current DOUBLE PRECISION, frequency DOUBLE PRECISION, temperature DOUBLE PRECISION)",
        "TRUNCATE TABLE power_generation",
        "ALTER TABLE power_generation SET (autovacuum_enabled = false)",
        "CHECKPOINT",
    ];
    r
}

/// One step of a strategy run, carried out against a session in order.
#[derive(Clone, Copy, Debug, PartialEq, Eq, Structural)]
pub enum Step {
    /// Issue the storage reset statements.
    ResetStorage,
    /// Start the wall clock.
    StartClock,
    /// Open a transaction.
    Begin,
    /// Prepare the method's statement.
    Prepare,
    /// Push the records at positions `start..end`.
    Load { start: usize, end: usize },
    /// Commit the transaction.
    Commit,
    /// Stop the wall clock.
    StopClock,
}

/// The load steps for the given chunk bounds.
pub open spec fn load_steps(bounds: Seq<(int, int)>) -> Seq<Step> {
    Seq::new(
        bounds.len(),
        |k: int| Step::Load { start: bounds[k].0 as usize, end: bounds[k].1 as usize },
    )
}

/// The steps of one run of `m` over `n` records, batch size `b`: a storage
/// reset, and then, unless the batch is refused, the timed part: an optional
/// transaction around an optional prepare and one load per chunk.
pub open spec fn run_steps(m: IngestMethod, n: int, b: int, tx: bool) -> Seq<Step> {
    if over_parameter_limit(m, b) {
        seq![Step::ResetStorage]
    } else {
        seq![Step::ResetStorage, Step::StartClock]
            + (if tx { seq![Step::Begin] } else { Seq::empty() })
            + (if is_prepared(m) { seq![Step::Prepare] } else { Seq::empty() })
            + load_steps(chunk_bounds_spec(n, b))
            + (if tx { seq![Step::Commit] } else { Seq::empty() })
            + seq![Step::StopClock]
    }
}

/// A VALUES-based method given a batch whose parameters exceed the ceiling
/// runs nothing but the storage reset: no statement is sent, no clock runs.
pub proof fn lemma_refused_batch_runs_nothing(m: IngestMethod, n: int, b: int, tx: bool)
    requires
        uses_values(m),
        b * 7 > 4000,
    ensures
        run_steps(m, n, b, tx) == seq![Step::ResetStorage],
        forall|k: int|
            0 <= k < run_steps(m, n, b, tx).len() ==> !(#[trigger] run_steps(m, n, b, tx)[k] is Load),
{
}

/// The steps of one run of `method` over `n_records` records.
pub fn plan_run(method: IngestMethod, n_records: usize, batch_size: usize, use_transaction: bool) -> (r: Vec<Step>)
    requires
        batch_size > 0,
    ensures
        r@ == run_steps(method, n_records as int, batch_size as int, use_transaction),
{
    let mut r: Vec<Step> = Vec::new();
    r.push(Step::ResetStorage);
    if exceeds_parameter_limit(method, batch_size) {
        assert(r@ =~= run_steps(method, n_records as int, batch_size as int, use_transaction));
        return r;
    }
    r.push(Step::StartClock);
    if use_transaction {
        r.push(Step::Begin);
    }
    let prepared = match method {
        IngestMethod::PreparedInsertValues | IngestMethod::PreparedInsertUnnest => true,
        _ => false,
    };
    if prepared {
        r.push(Step::Prepare);
    }
    let ghost head = r@;
    assert(head =~= seq![Step::ResetStorage, Step::StartClock]
        + (if use_transaction { seq![Step::Begin] } else { Seq::empty() })
        + (if is_prepared(method) { seq![Step::Prepare] } else { Seq::empty() }));
    let bounds = chunk_bounds(n_records, batch_size);
    let ghost spec_bounds = chunk_bounds_spec(n_records as int, batch_size as int);
    let mut k: usize = 0;
    while k < bounds.len()
        invariant
            k <= bounds@.len(),
            bounds_view(bounds@) == spec_bounds,
            r@ == head + load_steps(spec_bounds.subrange(0, k as int)),
        decreases bounds@.len() - k,
    {
        let (start, end) = bounds[k];
        r.push(Step::Load { start, end });
        assert(spec_bounds[k as int] == (start as int, end as int));
        assert(load_steps(spec_bounds.subrange(0, k + 1)) =~= load_steps(
            spec_bounds.subrange(0, k as int),
        ).push(Step::Load { start, end }));
        assert(r@ =~= head + load_steps(spec_bounds.subrange(0, k + 1)));
        k = k + 1;
    }
    assert(spec_bounds.subrange(0, k as int) =~= spec_bounds);
    if use_transaction {
        r.push(Step::Commit);
    }
    r.push(Step::StopClock);
    assert(r@ =~= run_steps(method, n_records as int, batch_size as int, use_transaction));
    r
}

} // verus!
