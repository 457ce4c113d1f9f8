//! Layout of the CSV export of aggregated results.
//!
//! The numbers arrive already written out as text; this module decides the
//! document: a header, one row of percentile statistics per metric, a blank
//! line, and one numbered row per simulation.
use crate::format::{
    decimal, decimal_string, digits_value, is_digit, lemma_decimal_is_numeral, push_char,
};
use vstd::prelude::*;
use vstd::string::*;

verus! {

/// Aggregated results with every number already written out as text.
///
/// Each statistics list holds, in order, the 5th, 25th, 50th, 75th and 95th
/// percentiles, the mean, the standard deviation, the minimum and the
/// maximum. The value lists hold one entry per simulation.
pub struct FormattedResults {
    pub effective_monthly_stats: Vec<String>,
    pub effective_cost_stats: Vec<String>,
    pub equity_stats: Vec<String>,
    pub effective_monthly_values: Vec<String>,
    pub effective_cost_values: Vec<String>,
    pub equity_values: Vec<String>,
}

/// The characters of each string.
pub open spec fn texts(v: Seq<String>) -> Seq<Seq<char>> {
    v.map_values(|s: String| s@)
}

/// Each cell preceded by a comma.
pub open spec fn comma_cells(cells: Seq<Seq<char>>) -> Seq<char>
    decreases cells.len(),
{
    if cells.len() == 0 {
        Seq::empty()
    } else {
        comma_cells(cells.drop_last()) + seq![','] + cells.last()
    }
}

/// One line: the first cell, then the other cells after commas, then a
/// line break.
pub open spec fn csv_row(first: Seq<char>, cells: Seq<Seq<char>>) -> Seq<char> {
    first + comma_cells(cells) + seq!['\n']
}

/// The first `n` per-simulation rows, numbered from 1.
pub open spec fn value_rows(
    monthly: Seq<Seq<char>>,
    total: Seq<Seq<char>>,
    equity: Seq<Seq<char>>,
    n: nat,
) -> Seq<char>
    decreases n,
{
    if n == 0 {
        Seq::empty()
    } else {
        value_rows(monthly, total, equity, (n - 1) as nat) + csv_row(
            decimal(n),
            seq![monthly[n - 1], total[n - 1], equity[n - 1]],
        )
    }
}

/// The smallest of three lengths: rows stop where the shortest list ends.
pub open spec fn shortest(a: nat, b: nat, c: nat) -> nat {
    if a <= b && a <= c {
        a
    } else if b <= c {
        b
    } else {
        c
    }
}

/// The whole CSV document for the given results.
pub open spec fn results_csv(r: FormattedResults) -> Seq<char> {
    let monthly = texts(r.effective_monthly_values@);
    let total = texts(r.effective_cost_values@);
    let equity = texts(r.equity_values@);
    "Metric,P5,P25,Median,P75,P95,Mean,StdDev,Min,Max\n"@ + csv_row(
        "Effective Monthly Cost"@,
        texts(r.effective_monthly_stats@),
    ) + csv_row("Effective Total Cost"@, texts(r.effective_cost_stats@)) + csv_row(
        "Final Equity"@,
        texts(r.equity_stats@),
    ) + "\n"@ + "Simulation,Effective Monthly,Effective Total,Final Equity\n"@ + value_rows(
        monthly,
        total,
        equity,
        shortest(monthly.len(), total.len(), equity.len()),
    )
}

/// Statistics cells are written each after one comma, in order: adding a
/// cell adds a comma and that cell at the end, and no cells give nothing.
pub proof fn lemma_comma_cells_append(cells: Seq<Seq<char>>, cell: Seq<char>)
    ensures
        comma_cells(cells.push(cell)) == comma_cells(cells) + seq![','] + cell,
        comma_cells(Seq::<Seq<char>>::empty()) == Seq::<char>::empty(),
{
    assert(cells.push(cell).drop_last() =~= cells);
}

/// Each per-simulation row is numbered with the plain decimal numeral of its
/// position, counted from 1, followed by its three values, each after a
/// comma, and a line break: the rows for the first `k + 1` simulations are
/// the rows for the first `k` followed by this row for simulation `k + 1`.
pub proof fn lemma_value_row_numbering(
    monthly: Seq<Seq<char>>,
    total: Seq<Seq<char>>,
    equity: Seq<Seq<char>>,
    k: nat,
)
    requires
        k < monthly.len(),
        k < total.len(),
        k < equity.len(),
    ensures
        value_rows(monthly, total, equity, k + 1) == value_rows(monthly, total, equity, k)
            + decimal(k + 1) + seq![','] + monthly[k as int] + seq![','] + total[k as int]
            + seq![','] + equity[k as int] + seq!['\n'],
        digits_value(decimal(k + 1)) == k + 1,
        forall|i: int| 0 <= i < decimal(k + 1).len() ==> is_digit(#[trigger] decimal(k + 1)[i]),
{
    let cells = seq![monthly[k as int], total[k as int], equity[k as int]];
    assert(cells.drop_last().drop_last().drop_last() =~= Seq::<Seq<char>>::empty());
    assert(cells.drop_last().drop_last() =~= seq![monthly[k as int]]);
    assert(cells.drop_last() =~= seq![monthly[k as int], total[k as int]]);
    assert(comma_cells(cells.drop_last().drop_last().drop_last()) =~= Seq::<char>::empty());
    let c1 = comma_cells(seq![monthly[k as int]]);
    assert(c1 =~= seq![','] + monthly[k as int]);
    let c2 = comma_cells(seq![monthly[k as int], total[k as int]]);
    assert(c2 =~= c1 + seq![','] + total[k as int]);
    assert(comma_cells(cells) =~= c2 + seq![','] + equity[k as int]);
    assert(value_rows(monthly, total, equity, k + 1) =~= value_rows(monthly, total, equity, k)
        + decimal(k + 1) + seq![','] + monthly[k as int] + seq![','] + total[k as int] + seq![
        ',',
    ] + equity[k as int] + seq!['\n']);
    lemma_decimal_is_numeral(k + 1);
}

/// The document is the fixed header line, the three statistics lines (each
/// the metric name followed by its cells after commas), a blank line, the
/// second header line, and then the per-simulation rows for as many
/// simulations as all three value lists cover; with no rows there is
/// nothing after the second header.
pub proof fn lemma_csv_layout(r: FormattedResults)
    ensures
        ({
            let monthly = texts(r.effective_monthly_values@);
            let total = texts(r.effective_cost_values@);
            let equity = texts(r.equity_values@);
            results_csv(r) == "Metric,P5,P25,Median,P75,P95,Mean,StdDev,Min,Max\n"@
                + "Effective Monthly Cost"@ + comma_cells(texts(r.effective_monthly_stats@))
                + seq!['\n'] + "Effective Total Cost"@ + comma_cells(
                texts(r.effective_cost_stats@),
            ) + seq!['\n'] + "Final Equity"@ + comma_cells(texts(r.equity_stats@)) + seq![
                '\n',
            ] + "\n"@ + "Simulation,Effective Monthly,Effective Total,Final Equity\n"@
                + value_rows(
                monthly,
                total,
                equity,
                shortest(monthly.len(), total.len(), equity.len()),
            )
        }),
        value_rows(
            texts(r.effective_monthly_values@),
            texts(r.effective_cost_values@),
            texts(r.equity_values@),
            0,
        ) == Seq::<char>::empty(),
{
    let monthly = texts(r.effective_monthly_values@);
    let total = texts(r.effective_cost_values@);
    let equity = texts(r.equity_values@);
    assert(results_csv(r) =~= "Metric,P5,P25,Median,P75,P95,Mean,StdDev,Min,Max\n"@
        + "Effective Monthly Cost"@ + comma_cells(texts(r.effective_monthly_stats@)) + seq!['\n']
        + "Effective Total Cost"@ + comma_cells(texts(r.effective_cost_stats@)) + seq!['\n']
        + "Final Equity"@ + comma_cells(texts(r.equity_stats@)) + seq!['\n'] + "\n"@
        + "Simulation,Effective Monthly,Effective Total,Final Equity\n"@ + value_rows(
        monthly,
        total,
        equity,
        shortest(monthly.len(), total.len(), equity.len()),
    ));
}

fn push_row(out: &mut String, first: &str, cells: &Vec<String>)
    ensures
        final(out)@ == old(out)@ + csv_row(first@, texts(cells@)),
{
    out.append(first);
    let mut i: usize = 0;
    while i < cells.len()
        invariant
            i <= cells.len(),
            out@ == old(out)@ + first@ + comma_cells(texts(cells@.take(i as int))),
        decreases cells.len() - i,
    {
        let ghost before = out@;
        push_char(out, ',');
        out.append(cells[i].as_str());
        proof {
            let next = texts(cells@.take(i + 1));
            assert(next.drop_last() =~= texts(cells@.take(i as int)));
            assert(next.last() == cells@[i as int]@);
            assert(out@ =~= before + seq![','] + next.last());
        }
        i = i + 1;
    }
    assert(cells@.take(cells.len() as int) =~= cells@);
    push_char(out, '\n');
    assert(final(out)@ =~= old(out)@ + csv_row(first@, texts(cells@)));
}

/// The CSV document exported for a set of results: a header line, one line
/// of statistics for each of effective monthly cost, effective total cost
/// and final equity, a blank line, a second header, and one line per
/// simulation numbered from 1, as far as all three value lists reach.
pub fn export_results_csv_text(results: &FormattedResults) -> (text: String)
    ensures
        text@ == results_csv(*results),
{
    let mut out = String::from_str("Metric,P5,P25,Median,P75,P95,Mean,StdDev,Min,Max\n");
    push_row(&mut out, "Effective Monthly Cost", &results.effective_monthly_stats);
    push_row(&mut out, "Effective Total Cost", &results.effective_cost_stats);
    push_row(&mut out, "Final Equity", &results.equity_stats);
    out.append("\n");
    out.append("Simulation,Effective Monthly,Effective Total,Final Equity\n");
    let ghost head = out@;
    let monthly = &results.effective_monthly_values;
    let total = &results.effective_cost_values;
    let equity = &results.equity_values;
    let mut n: usize = monthly.len();
    if total.len() < n {
        n = total.len();
    }
    if equity.len() < n {
        n = equity.len();
    }
    let ghost m = texts(monthly@);
    let ghost t = texts(total@);
    let ghost e = texts(equity@);
    assert(n == shortest(m.len(), t.len(), e.len()));
    let mut i: usize = 0;
    while i < n
        invariant
            i <= n,
            n <= monthly.len(),
            n <= total.len(),
            n <= equity.len(),
            n <= usize::MAX,
            m == texts(monthly@),
            t == texts(total@),
            e == texts(equity@),
            out@ == head + value_rows(m, t, e, i as nat),
        decreases n - i,
    {
        let ghost before = out@;
        let number = decimal_string((i + 1) as u64);
        out.append(number.as_str());
        push_char(&mut out, ',');
        out.append(monthly[i].as_str());
        push_char(&mut out, ',');
        out.append(total[i].as_str());
        push_char(&mut out, ',');
        out.append(equity[i].as_str());
        push_char(&mut out, '\n');
        proof {
            let cells = seq![m[i as int], t[i as int], e[i as int]];
            assert(cells.drop_last().drop_last().drop_last() =~= Seq::<Seq<char>>::empty());
            assert(cells.drop_last().drop_last() =~= seq![m[i as int]]);
            assert(cells.drop_last() =~= seq![m[i as int], t[i as int]]);
            assert(m[i as int] == monthly@[i as int]@);
            assert(t[i as int] == total@[i as int]@);
            assert(e[i as int] == equity@[i as int]@);
            let c1 = comma_cells(seq![m[i as int]]);
            assert(comma_cells(cells.drop_last().drop_last().drop_last()) =~= Seq::<char>::empty());
            assert(c1 =~= seq![','] + m[i as int]);
            let c2 = comma_cells(seq![m[i as int], t[i as int]]);
            assert(c2 =~= c1 + seq![','] + t[i as int]);
            assert(comma_cells(cells) =~= c2 + seq![','] + e[i as int]);
            assert(out@ =~= before + csv_row(decimal((i + 1) as nat), cells));
        }
        i = i + 1;
    }
    out
}

} // verus!
