//! Run results, their exact throughput, ranking and relative speed.

use vstd::prelude::*;
use vstd::arithmetic::div_mod::lemma_fundamental_div_mod_converse;
use vstd::arithmetic::div_mod::{lemma_div_is_ordered, lemma_fundamental_div_mod};
use vstd::string::*;
use crate::strategy::{exceeds_parameter_limit, method_label, over_parameter_limit, IngestMethod};
use crate::text::{decimal, decimal_string, digit_char, push_decimal};

verus! {

broadcast use vstd::seq_lib::group_to_multiset_ensures;

/// Nanoseconds in one second.
pub const NANOS_PER_SEC: u64 = 1_000_000_000;

/// The outcome of one (connection, method, batch size, transaction) run.
/// Throughput is kept exact: `rows` records in `duration_nanos` nanoseconds.
/// A refused run has zero duration and zero rows.
#[derive(Debug, Clone)]
pub struct RunResult {
    pub connection_name: String,
    pub method: IngestMethod,
    pub batch_size: usize,
    pub transaction: bool,
    pub duration_nanos: u64,
    pub rows: u64,
}

/// Rows per second as an exact fraction `(numerator, denominator)`:
/// `rows / (duration_nanos / 10^9)`.
pub open spec fn rows_per_sec(r: RunResult) -> (int, int) {
    (r.rows * NANOS_PER_SEC, r.duration_nanos as int)
}

/// The result of a run that was refused before it started.
pub open spec fn is_sentinel(r: RunResult) -> bool {
    r.duration_nanos == 0 && r.rows == 0
}

/// The throughput of `a` is at most that of `b` (both with nonzero duration).
pub open spec fn rate_le(a: RunResult, b: RunResult) -> bool {
    a.rows * b.duration_nanos <= b.rows * a.duration_nanos
}

/// The number of copies of `x` that survive the filtering of results of zero duration.
pub open spec fn surviving_count(s: Seq<RunResult>, x: RunResult) -> nat {
    if x.duration_nanos > 0 { s.to_multiset().count(x) } else { 0 }
}

/// `s` is in ascending order of throughput.
pub open spec fn ascending(s: Seq<RunResult>) -> bool {
    forall|i: int, j: int| 0 <= i < j < s.len() ==> rate_le(#[trigger] s[i], #[trigger] s[j])
}

/// Builds a result from its parts.
pub fn create_benchmark_result(
    connection_name: &str,
    method: IngestMethod,
    duration_nanos: u64,
    rows: u64,
    transactions: bool,
    batch_size: usize,
) -> (r: RunResult)
    ensures
        r.connection_name@ == connection_name@,
        r.method == method,
        r.duration_nanos == duration_nanos,
        r.rows == rows,
        r.transaction == transactions,
        r.batch_size == batch_size,
{
    RunResult {
        connection_name: String::from_str(connection_name),
        method,
        batch_size,
        transaction: transactions,
        duration_nanos,
        rows,
    }
}

/// The result of a run of `method` over `n_records` records that took
/// `elapsed_nanos`; a batch size that the method refuses gives the sentinel.
pub fn run_result(
    connection_name: &str,
    method: IngestMethod,
    batch_size: usize,
    transactions: bool,
    n_records: u64,
    elapsed_nanos: u64,
) -> (r: RunResult)
    ensures
        r.connection_name@ == connection_name@,
        r.method == method,
        r.batch_size == batch_size,
        r.transaction == transactions,
        over_parameter_limit(method, batch_size as int) ==> is_sentinel(r),
        !over_parameter_limit(method, batch_size as int) ==> r.rows == n_records
            && r.duration_nanos == elapsed_nanos,
        !over_parameter_limit(method, batch_size as int) ==> rows_per_sec(r) == (
            n_records * NANOS_PER_SEC,
            elapsed_nanos as int,
        ),
{
    if exceeds_parameter_limit(method, batch_size) {
        create_benchmark_result(connection_name, method, 0, 0, transactions, batch_size)
    } else {
        create_benchmark_result(
            connection_name,
            method,
            elapsed_nanos,
            n_records,
            transactions,
            batch_size,
        )
    }
}

/// The product of two 64-bit integers, which always fits in 128 bits.
pub fn mul_wide(a: u64, b: u64) -> (r: u128)
    ensures
        r == a * b,
{
    assert(a * b <= 0xffff_ffff_ffff_ffff * 0xffff_ffff_ffff_ffffu128) by (nonlinear_arith)
        requires
            a <= 0xffff_ffff_ffff_ffffu64,
            b <= 0xffff_ffff_ffff_ffffu64,
    ;
    a as u128 * b as u128
}

/// Whether the throughput of `a` is at most that of `b`.
pub fn rate_at_most(a: &RunResult, b: &RunResult) -> (r: bool)
    ensures
        r == rate_le(*a, *b),
{
    let x: u128 = mul_wide(a.rows, b.duration_nanos);
    let y: u128 = mul_wide(b.rows, a.duration_nanos);
    x <= y
}

/// Throughput comparison is transitive over results of nonzero duration.
pub proof fn lemma_rate_le_transitive(a: RunResult, b: RunResult, c: RunResult)
    requires
        a.duration_nanos > 0,
        b.duration_nanos > 0,
        c.duration_nanos > 0,
        rate_le(a, b),
        rate_le(b, c),
    ensures
        rate_le(a, c),
{
    let (ar, an, br, bn, cr, cn) = (
        a.rows as int,
        a.duration_nanos as int,
        b.rows as int,
        b.duration_nanos as int,
        c.rows as int,
        c.duration_nanos as int,
    );
    assert(ar * bn * cn <= br * an * cn) by (nonlinear_arith)
        requires
            ar * bn <= br * an,
            cn > 0,
    ;
    assert(br * cn * an <= cr * bn * an) by (nonlinear_arith)
        requires
            br * cn <= cr * bn,
            an > 0,
    ;
    assert(ar * cn <= cr * an) by (nonlinear_arith)
        requires
            ar * bn * cn <= br * an * cn,
            br * cn * an <= cr * bn * an,
            bn > 0,
    ;
}

/// The index of the first slowest result of `v` (all of nonzero duration).
fn slowest_index(v: &Vec<RunResult>) -> (m: usize)
    requires
        v@.len() > 0,
        forall|i: int| 0 <= i < v@.len() ==> (#[trigger] v@[i]).duration_nanos > 0,
    ensures
        m < v@.len(),
        forall|j: int| 0 <= j < v@.len() ==> rate_le(v@[m as int], #[trigger] v@[j]),
{
    let mut m: usize = 0;
    let mut i: usize = 1;
    while i < v.len()
        invariant
            1 <= i <= v@.len(),
            m < i,
            forall|k: int| 0 <= k < v@.len() ==> (#[trigger] v@[k]).duration_nanos > 0,
            forall|j: int| 0 <= j < i ==> rate_le(v@[m as int], #[trigger] v@[j]),
        decreases v@.len() - i,
    {
        if !rate_at_most(&v[m], &v[i]) {
            assert forall|j: int| 0 <= j <= i implies rate_le(v@[i as int], #[trigger] v@[j]) by {
                if j < i {
                    lemma_rate_le_transitive(v@[i as int], v@[m as int], v@[j]);
                }
            }
            m = i;
        }
        i = i + 1;
    }
    m
}

/// The results that took time, in ascending order of throughput: every
/// result of zero duration is dropped, every other one is kept, once per
/// occurrence.
pub fn rank_results(results: Vec<RunResult>) -> (r: Vec<RunResult>)
    ensures
        forall|x: RunResult| #[trigger] r@.to_multiset().count(x) == surviving_count(results@, x),
        forall|i: int| 0 <= i < r@.len() ==> (#[trigger] r@[i]).duration_nanos > 0,
        ascending(r@),
{
    let mut rest = results;
    let mut kept: Vec<RunResult> = Vec::new();
    while rest.len() > 0
        invariant
            forall|i: int| 0 <= i < kept@.len() ==> (#[trigger] kept@[i]).duration_nanos > 0,
            forall|x: RunResult|
                #[trigger] kept@.to_multiset().count(x) + surviving_count(rest@, x)
                    == surviving_count(results@, x),
        decreases rest@.len(),
    {
        let ghost before = rest@;
        let x = rest.pop().unwrap();
        assert(before =~= rest@.push(x));
        if x.duration_nanos > 0 {
            kept.push(x);
        }
    }
    let mut out: Vec<RunResult> = Vec::new();
    while kept.len() > 0
        invariant
            forall|i: int| 0 <= i < kept@.len() ==> (#[trigger] kept@[i]).duration_nanos > 0,
            forall|i: int| 0 <= i < out@.len() ==> (#[trigger] out@[i]).duration_nanos > 0,
            forall|x: RunResult|
                #[trigger] out@.to_multiset().count(x) + kept@.to_multiset().count(x)
                    == surviving_count(results@, x),
            ascending(out@),
            forall|i: int, j: int|
                0 <= i < out@.len() && 0 <= j < kept@.len() ==> rate_le(
                    #[trigger] out@[i],
                    #[trigger] kept@[j],
                ),
        decreases kept@.len(),
    {
        let m = slowest_index(&kept);
        let ghost before = kept@;
        let ghost out_before = out@;
        let x = kept.remove(m);
        assert(before.remove(m as int) == kept@);
        assert forall|j: int| 0 <= j < kept@.len() implies rate_le(x, #[trigger] kept@[j]) by {
            if j < m {
                assert(kept@[j] == before[j]);
            } else {
                assert(kept@[j] == before[j + 1]);
            }
        }
        assert forall|i: int, j: int|
            0 <= i < out_before.len() && 0 <= j < kept@.len() implies rate_le(
            #[trigger] out_before[i],
            #[trigger] kept@[j],
        ) by {
            if j < m {
                assert(kept@[j] == before[j]);
            } else {
                assert(kept@[j] == before[j + 1]);
            }
        }
        out.push(x);
        assert(out@ == out_before.push(x));
    }
    out
}

/// `x / d` rounded to the nearest integer, halves upward (`d > 0`).
pub open spec fn rounded_quotient(x: int, d: int) -> int {
    (2 * x + d) / (2 * d)
}

/// The speed of the fastest result `f` relative to result `r`, in hundredths,
/// rounded to the nearest hundredth: `100 * rate(f) / rate(r)`.
pub open spec fn relative_hundredths(f: RunResult, r: RunResult) -> int {
    rounded_quotient(100 * (f.rows * r.duration_nanos), f.duration_nanos * r.rows)
}

/// Rows per second, rounded to the nearest integer.
pub open spec fn rounded_rows_per_sec(r: RunResult) -> int {
    rounded_quotient(r.rows * NANOS_PER_SEC, r.duration_nanos as int)
}

/// `f` is at least as fast as every result of `s`.
pub open spec fn is_fastest(s: Seq<RunResult>, f: RunResult) -> bool {
    forall|j: int| 0 <= j < s.len() ==> rate_le(#[trigger] s[j], f)
}

/// The fastest result is exactly one time as fast as itself, and every
/// other result, whose throughput is nonzero, is at most as fast: relative
/// speeds, rounded to hundredths, are exactly 1.00 for the fastest and at
/// least 1.00 for all others.
pub proof fn lemma_relative_speed_bounds(s: Seq<RunResult>, m: int)
    requires
        0 <= m < s.len(),
        forall|i: int| 0 <= i < s.len() ==> (#[trigger] s[i]).duration_nanos > 0,
        is_fastest(s, s[m]),
        s[m].rows > 0,
    ensures
        relative_hundredths(s[m], s[m]) == 100,
        forall|j: int|
            0 <= j < s.len() && (#[trigger] s[j]).rows > 0 ==> relative_hundredths(s[m], s[j]) >= 100,
{
    let f = s[m];
    let d = f.duration_nanos * f.rows;
    assert(d > 0) by (nonlinear_arith)
        requires
            f.duration_nanos > 0,
            f.rows > 0,
            d == f.duration_nanos * f.rows,
    ;
    assert(100 * (f.rows * f.duration_nanos) == 100 * d) by (nonlinear_arith)
        requires
            d == f.duration_nanos * f.rows,
    ;
    lemma_fundamental_div_mod_converse(2 * (100 * d) + d, 2 * d, 100, d);
    assert forall|j: int| 0 <= j < s.len() && (#[trigger] s[j]).rows > 0 implies relative_hundredths(
        s[m],
        s[j],
    ) >= 100 by {
        let r = s[j];
        let num = f.rows * r.duration_nanos;
        let den = f.duration_nanos * r.rows;
        assert(rate_le(r, f));
        assert(den > 0) by (nonlinear_arith)
            requires
                f.duration_nanos > 0,
                r.rows > 0,
                den == f.duration_nanos * r.rows,
        ;
        assert(num >= den) by (nonlinear_arith)
            requires
                r.rows * f.duration_nanos <= f.rows * r.duration_nanos,
                num == f.rows * r.duration_nanos,
                den == f.duration_nanos * r.rows,
        ;
        lemma_fundamental_div_mod_converse(2 * (100 * den) + den, 2 * den, 100, den);
        lemma_div_is_ordered(2 * (100 * den) + den, 2 * (100 * num) + den, 2 * den);
    }
}

/// The relative speed of `r` against the fastest result `f`, as a whole part
/// and hundredths.
pub fn relative_speed(f: &RunResult, r: &RunResult) -> (res: (u128, u8))
    requires
        f.duration_nanos > 0,
        r.rows > 0,
    ensures
        res.1 < 100,
        res.0 * 100 + res.1 == relative_hundredths(*f, *r),
{
    let num = mul_wide(f.rows, r.duration_nanos);
    let den = mul_wide(f.duration_nanos, r.rows);
    assert(den > 0) by (nonlinear_arith)
        requires
            f.duration_nanos > 0,
            r.rows > 0,
            den == f.duration_nanos * r.rows,
    ;
    let q = num / den;
    let rem = num % den;
    proof {
        lemma_fundamental_div_mod(num as int, den as int);
    }
    let mut acc: u128 = 0;
    let mut cnt: u128 = 0;
    let mut k: u128 = 0;
    while k < 100
        invariant
            k <= 100,
            den > 0,
            rem < den,
            acc < den,
            cnt <= k,
            k * rem == cnt * den + acc,
        decreases 100 - k,
    {
        assert((k + 1) * rem == k * rem + rem) by (nonlinear_arith);
        assert((cnt + 1) * den == cnt * den + den) by (nonlinear_arith);
        if acc >= den - rem {
            acc = acc - (den - rem);
            cnt = cnt + 1;
        } else {
            acc = acc + rem;
        }
        k = k + 1;
    }
    let up = acc >= den - acc;
    let t: u128 = if up { cnt + 1 } else { cnt };
    proof {
        let e: int = if up { 1 } else { 0 };
        let rr: int = if up { 2 * acc - den } else { 2 * acc + den };
        let x = 2 * (100 * (num as int)) + den;
        let qd = q * den;
        let cd = cnt * den;
        assert(cnt < 100) by (nonlinear_arith)
            requires
                100 * rem == cd + acc,
                cd == cnt * den,
                rem < den,
                acc >= 0,
                den > 0,
        ;
        assert(x == 200 * qd + 2 * cd + 2 * acc + den);
        assert((100 * q + cnt + e) * (2 * den) == 200 * qd + 2 * cd + 2 * e * den) by (nonlinear_arith)
            requires
                qd == q * den,
                cd == cnt * den,
        ;
        assert(x == (100 * q + cnt + e) * (2 * den) + rr);
        lemma_fundamental_div_mod_converse(x, 2 * den, 100 * q + cnt + e, rr);
        assert(q <= num) by (nonlinear_arith)
            requires
                num == q * den + rem,
                den >= 1,
                rem >= 0,
                q >= 0,
        ;
        assert(num <= 0xffff_ffff_ffff_ffff * 0xffff_ffff_ffff_ffffu128) by (nonlinear_arith)
            requires
                num == f.rows * r.duration_nanos,
                f.rows <= 0xffff_ffff_ffff_ffffu64,
                r.duration_nanos <= 0xffff_ffff_ffff_ffffu64,
        ;
    }
    if t == 100 {
        (q + 1, 0)
    } else {
        (q, t as u8)
    }
}

/// Rows per second of `r`, rounded to the nearest integer.
pub fn rows_per_sec_rounded(r: &RunResult) -> (v: u128)
    requires
        r.duration_nanos > 0,
    ensures
        v == rounded_rows_per_sec(*r),
{
    let x = mul_wide(r.rows, 2 * NANOS_PER_SEC);
    assert(x == 2 * (r.rows * NANOS_PER_SEC)) by (nonlinear_arith)
        requires
            x == r.rows * (2 * NANOS_PER_SEC),
    ;
    (x + r.duration_nanos as u128) / (2 * r.duration_nanos as u128)
}

/// The index of the first fastest result of `v` (all of nonzero duration).
pub fn fastest_index(v: &Vec<RunResult>) -> (m: Option<usize>)
    requires
        forall|i: int| 0 <= i < v@.len() ==> (#[trigger] v@[i]).duration_nanos > 0,
    ensures
        m is None <==> v@.len() == 0,
        m matches Some(k) ==> k < v@.len() && is_fastest(v@, v@[k as int]),
{
    if v.len() == 0 {
        return None;
    }
    let mut m: usize = 0;
    let mut i: usize = 1;
    while i < v.len()
        invariant
            1 <= i <= v@.len(),
            m < i,
            forall|k: int| 0 <= k < v@.len() ==> (#[trigger] v@[k]).duration_nanos > 0,
            forall|j: int| 0 <= j < i ==> rate_le(#[trigger] v@[j], v@[m as int]),
        decreases v@.len() - i,
    {
        if !rate_at_most(&v[i], &v[m]) {
            assert forall|j: int| 0 <= j <= i implies rate_le(#[trigger] v@[j], v@[i as int]) by {
                if j < i {
                    lemma_rate_le_transitive(v@[j], v@[m as int], v@[i as int]);
                }
            }
            m = i;
        }
        i = i + 1;
    }
    Some(m)
}

/// The column titles of a report.
pub open spec fn report_header_spec() -> Seq<Seq<char>> {
    seq![
        "Connection"@,
        "Method"@,
        "Batch Size"@,
        "Transaction"@,
        "Duration"@,
        "Rows/sec"@,
        "Relative Speed"@,
    ]
}

/// The column titles of a report.
pub fn report_header() -> (r: Vec<&'static str>)
    ensures
        r@.len() == 7,
        forall|i: int| 0 <= i < 7 ==> (#[trigger] r@[i])@ == report_header_spec()[i],
{
    vec!["Connection", "Method", "Batch Size", "Transaction", "Duration", "Rows/sec", "Relative Speed"]
}

/// How an elapsed time of `nanos` nanoseconds reads in a report.
pub uninterp spec fn duration_text(nanos: u64) -> Seq<char>;

/// Relies on std's `Debug` for `Duration` with two decimals (`{:.2?}`),
/// whose text depends on the duration alone.
#[verifier::external_body]
fn format_duration(nanos: u64) -> (r: String)
    ensures
        r@ == duration_text(nanos),
{
    format!("{:.2?}", std::time::Duration::from_nanos(nanos))
}

/// `Yes` or `No`.
pub open spec fn yes_no(b: bool) -> Seq<char> {
    if b { "Yes"@ } else { "No"@ }
}

/// The relative speed of `r` against `f`: `x<whole>.<hundredths>`; a
/// result of zero throughput reads `xinf`, or `xNaN` when `f`'s is zero too.
pub open spec fn relative_text(f: RunResult, r: RunResult) -> Seq<char> {
    if r.rows == 0 {
        if f.rows == 0 { "xNaN"@ } else { "xinf"@ }
    } else {
        let h = relative_hundredths(f, r);
        "x"@ + decimal((h / 100) as nat) + "."@ + seq![digit_char(((h % 100) / 10) as nat), digit_char((h % 10) as nat)]
    }
}

/// The cells of the report row of `r`, against the fastest result `f`.
pub open spec fn result_cells_spec(r: RunResult, f: RunResult) -> Seq<Seq<char>> {
    seq![
        r.connection_name@,
        method_label(r.method),
        decimal(r.batch_size as nat),
        yes_no(r.transaction),
        duration_text(r.duration_nanos),
        decimal(rounded_rows_per_sec(r) as nat),
        relative_text(f, r),
    ]
}

/// The views of a list of strings.
pub open spec fn texts(v: Seq<String>) -> Seq<Seq<char>> {
    v.map_values(|s: String| s@)
}

fn relative_string(f: &RunResult, r: &RunResult) -> (s: String)
    requires
        f.duration_nanos > 0,
    ensures
        s@ == relative_text(*f, *r),
{
    if r.rows == 0 {
        if f.rows == 0 {
            String::from_str("xNaN")
        } else {
            String::from_str("xinf")
        }
    } else {
        let (whole, frac) = relative_speed(f, r);
        let mut s = String::from_str("x");
        push_decimal(&mut s, whole);
        s.append(".");
        push_decimal(&mut s, frac as u128 / 10);
        push_decimal(&mut s, frac as u128 % 10);
        proof {
            let h = relative_hundredths(*f, *r);
            assert(h / 100 == whole && h % 100 == frac) by {
                lemma_fundamental_div_mod_converse(h, 100, whole as int, frac as int);
            }
            assert(h % 10 == frac % 10) by {
                lemma_fundamental_div_mod_converse(h, 10, whole * 10 + (frac / 10) as int, (frac % 10) as int);
            }
            assert(decimal((frac / 10) as nat) == seq![digit_char((frac / 10) as nat)]);
            assert(decimal((frac % 10) as nat) == seq![digit_char((frac % 10) as nat)]);
        }
        assert(s@ =~= relative_text(*f, *r));
        s
    }
}

/// The cells of the report row of `r`, against the fastest result `f`.
pub fn result_cells(r: &RunResult, f: &RunResult) -> (cells: Vec<String>)
    requires
        r.duration_nanos > 0,
        f.duration_nanos > 0,
    ensures
        texts(cells@) == result_cells_spec(*r, *f),
{
    let cells = vec![
        r.connection_name.clone(),
        String::from_str(r.method.label()),
        decimal_string(r.batch_size as u128),
        String::from_str(if r.transaction { "Yes" } else { "No" }),
        format_duration(r.duration_nanos),
        decimal_string(rows_per_sec_rounded(r)),
        relative_string(f, r),
    ];
    assert(texts(cells@) =~= result_cells_spec(*r, *f));
    cells
}

/// The report rows of ranked results, each against a fastest result.
pub fn report_rows(results: &Vec<RunResult>) -> (rows: Vec<Vec<String>>)
    requires
        forall|i: int| 0 <= i < results@.len() ==> (#[trigger] results@[i]).duration_nanos > 0,
    ensures
        rows@.len() == results@.len(),
        results@.len() > 0 ==> exists|m: int|
            0 <= m < results@.len() && is_fastest(results@, results@[m]) && forall|i: int|
                0 <= i < rows@.len() ==> texts(#[trigger] rows@[i]@) == result_cells_spec(
                    results@[i],
                    results@[m],
                ),
{
    let mut rows: Vec<Vec<String>> = Vec::new();
    match fastest_index(results) {
        None => rows,
        Some(m) => {
            let mut i: usize = 0;
            while i < results.len()
                invariant
                    i <= results@.len(),
                    m < results@.len(),
                    rows@.len() == i,
                    forall|k: int| 0 <= k < results@.len() ==> (#[trigger] results@[k]).duration_nanos > 0,
                    forall|k: int|
                        0 <= k < i ==> texts(#[trigger] rows@[k]@) == result_cells_spec(
                            results@[k],
                            results@[m as int],
                        ),
                decreases results@.len() - i,
            {
                rows.push(result_cells(&results[i], &results[m]));
                i = i + 1;
            }
            assert(0 <= m < results@.len() && is_fastest(results@, results@[m as int]));
            rows
        },
    }
}

} // verus!
