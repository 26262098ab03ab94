//! Results as comma-separated text: one line for each row, and a line of
//! column names at the top of each file.

use crate::bench::scenario::{role_name, RawRow, SummaryRow};
use crate::bench::text::{decimal, decimal_text};
use vstd::prelude::*;
use vstd::string::StringExecFns;

verus! {

/// The texts of a list of strings.
pub open spec fn texts(fields: Seq<String>) -> Seq<Seq<char>> {
    fields.map_values(|s: String| s@)
}

/// Fields with a comma between any two neighbours.
pub open spec fn joined(fields: Seq<Seq<char>>) -> Seq<char>
    decreases fields.len(),
{
    if fields.len() == 0 {
        Seq::empty()
    } else if fields.len() == 1 {
        fields[0]
    } else {
        joined(fields.drop_last()).push(',') + fields.last()
    }
}

/// Texts, each with a line break behind it.
pub open spec fn lines(records: Seq<Seq<char>>) -> Seq<char>
    decreases records.len(),
{
    if records.len() == 0 {
        Seq::empty()
    } else {
        (lines(records.drop_last()) + records.last()).push('\n')
    }
}

/// Joins fields by commas.
fn join_fields(fields: &Vec<String>) -> (r: String)
    ensures
        r@ == joined(texts(fields@)),
{
    let mut out = String::new();
    let mut i: usize = 0;
    while i < fields.len()
        invariant
            i <= fields@.len(),
            out@ == joined(texts(fields@.take(i as int))),
        decreases fields@.len() - i,
    {
        proof {
            reveal_strlit(",");
            let next = texts(fields@.take(i + 1));
            assert(next.drop_last() =~= texts(fields@.take(i as int)));
            assert(next.last() == fields@[i as int]@);
        }
        let ghost before = out@;
        if i > 0 {
            out.append(",");
            assert(out@ =~= before.push(','));
        }
        out.append(fields[i].as_str());
        assert(out@ =~= joined(texts(fields@.take(i + 1))));
        i += 1;
    }
    assert(fields@.take(fields@.len() as int) =~= fields@);
    out
}

/// Appends one line.
fn append_line(out: &mut String, record: &String)
    ensures
        final(out)@ == (old(out)@ + record@).push('\n'),
{
    out.append(record.as_str());
    out.append("\n");
    proof {
        reveal_strlit("\n");
    }
    assert(out@ =~= (old(out)@ + record@).push('\n'));
}

/// The names of the columns of raw results.
pub open spec fn raw_columns() -> Seq<Seq<char>> {
    seq![
        "scenario"@,
        "backend"@,
        "trial"@,
        "role"@,
        "thread_id"@,
        "capacity"@,
        "num_consumers"@,
        "ratio"@,
        "ok_ops"@,
        "fail_ops"@,
        "window_ns"@,
        "throughput_ops_s"@,
        "fail_rate_pct"@,
        "lat_p50_ns"@,
        "lat_p99_ns"@,
        "lat_max_ns"@,
        "fail_lat_p50_ns"@,
        "fail_lat_p99_ns"@,
        "payload_bytes"@,
    ]
}

/// The fields of a raw row, in the order of the columns.
pub open spec fn raw_fields(row: RawRow<String>) -> Seq<Seq<char>> {
    seq![
        row.scenario@,
        row.backend@,
        decimal(row.trial as nat),
        role_name(row.role),
        decimal(row.thread_id as nat),
        decimal(row.capacity as nat),
        decimal(row.num_consumers as nat),
        row.ratio@,
        decimal(row.ok_ops as nat),
        decimal(row.fail_ops as nat),
        row.window_ns@,
        row.throughput_ops_s@,
        row.fail_rate_pct@,
        row.lat_p50_ns@,
        row.lat_p99_ns@,
        row.lat_max_ns@,
        row.fail_lat_p50_ns@,
        row.fail_lat_p99_ns@,
        decimal(row.payload_bytes as nat),
    ]
}

/// The line of column names of raw results.
pub fn raw_header() -> (r: String)
    ensures
        r@ == joined(raw_columns()),
{
    let mut names: Vec<String> = Vec::new();
    names.push(String::from_str("scenario"));
    names.push(String::from_str("backend"));
    names.push(String::from_str("trial"));
    names.push(String::from_str("role"));
    names.push(String::from_str("thread_id"));
    names.push(String::from_str("capacity"));
    names.push(String::from_str("num_consumers"));
    names.push(String::from_str("ratio"));
    names.push(String::from_str("ok_ops"));
    names.push(String::from_str("fail_ops"));
    names.push(String::from_str("window_ns"));
    names.push(String::from_str("throughput_ops_s"));
    names.push(String::from_str("fail_rate_pct"));
    names.push(String::from_str("lat_p50_ns"));
    names.push(String::from_str("lat_p99_ns"));
    names.push(String::from_str("lat_max_ns"));
    names.push(String::from_str("fail_lat_p50_ns"));
    names.push(String::from_str("fail_lat_p99_ns"));
    names.push(String::from_str("payload_bytes"));
    assert(texts(names@) =~= raw_columns());
    join_fields(&names)
}

/// The line of a raw row.
pub fn raw_record(row: &RawRow<String>) -> (r: String)
    ensures
        r@ == joined(raw_fields(*row)),
{
    let mut fields: Vec<String> = Vec::new();
    fields.push(row.scenario.clone());
    fields.push(row.backend.clone());
    fields.push(decimal_text(row.trial as u128));
    fields.push(String::from_str(row.role.name()));
    fields.push(decimal_text(row.thread_id as u128));
    fields.push(decimal_text(row.capacity as u128));
    fields.push(decimal_text(row.num_consumers as u128));
    fields.push(row.ratio.clone());
    fields.push(decimal_text(row.ok_ops as u128));
    fields.push(decimal_text(row.fail_ops as u128));
    fields.push(row.window_ns.clone());
    fields.push(row.throughput_ops_s.clone());
    fields.push(row.fail_rate_pct.clone());
    fields.push(row.lat_p50_ns.clone());
    fields.push(row.lat_p99_ns.clone());
    fields.push(row.lat_max_ns.clone());
    fields.push(row.fail_lat_p50_ns.clone());
    fields.push(row.fail_lat_p99_ns.clone());
    fields.push(decimal_text(row.payload_bytes as u128));
    assert(texts(fields@) =~= raw_fields(*row));
    join_fields(&fields)
}

/// The names of the columns of summaries.
pub open spec fn summary_columns() -> Seq<Seq<char>> {
    seq![
        "scenario"@,
        "backend"@,
        "role"@,
        "capacity"@,
        "num_consumers"@,
        "ratio"@,
        "payload_bytes"@,
        "trials"@,
        "tput_mean"@,
        "tput_median"@,
        "tput_min"@,
        "tput_max"@,
        "fail_rate_mean"@,
        "lat_p50_mean"@,
        "lat_p50_median"@,
        "lat_p99_mean"@,
        "lat_p99_median"@,
        "fail_lat_p50_mean"@,
        "fail_lat_p50_median"@,
        "fail_lat_p99_mean"@,
        "fail_lat_p99_median"@,
    ]
}

/// The fields of a summary row, in the order of the columns.
pub open spec fn summary_fields(row: SummaryRow<String>) -> Seq<Seq<char>> {
    seq![
        row.scenario@,
        row.backend@,
        role_name(row.role),
        decimal(row.capacity as nat),
        decimal(row.num_consumers as nat),
        row.ratio@,
        decimal(row.payload_bytes as nat),
        decimal(row.trials as nat),
        row.tput_mean@,
        row.tput_median@,
        row.tput_min@,
        row.tput_max@,
        row.fail_rate_mean@,
        row.lat_p50_mean@,
        row.lat_p50_median@,
        row.lat_p99_mean@,
        row.lat_p99_median@,
        row.fail_lat_p50_mean@,
        row.fail_lat_p50_median@,
        row.fail_lat_p99_mean@,
        row.fail_lat_p99_median@,
    ]
}

/// The line of column names of summaries.
pub fn summary_header() -> (r: String)
    ensures
        r@ == joined(summary_columns()),
{
    let mut names: Vec<String> = Vec::new();
    names.push(String::from_str("scenario"));
    names.push(String::from_str("backend"));
    names.push(String::from_str("role"));
    names.push(String::from_str("capacity"));
    names.push(String::from_str("num_consumers"));
    names.push(String::from_str("ratio"));
    names.push(String::from_str("payload_bytes"));
    names.push(String::from_str("trials"));
    names.push(String::from_str("tput_mean"));
    names.push(String::from_str("tput_median"));
    names.push(String::from_str("tput_min"));
    names.push(String::from_str("tput_max"));
    names.push(String::from_str("fail_rate_mean"));
    names.push(String::from_str("lat_p50_mean"));
    names.push(String::from_str("lat_p50_median"));
    names.push(String::from_str("lat_p99_mean"));
    names.push(String::from_str("lat_p99_median"));
    names.push(String::from_str("fail_lat_p50_mean"));
    names.push(String::from_str("fail_lat_p50_median"));
    names.push(String::from_str("fail_lat_p99_mean"));
    names.push(String::from_str("fail_lat_p99_median"));
    assert(texts(names@) =~= summary_columns());
    join_fields(&names)
}

/// The line of a summary row.
pub fn summary_record(row: &SummaryRow<String>) -> (r: String)
    ensures
        r@ == joined(summary_fields(*row)),
{
    let mut fields: Vec<String> = Vec::new();
    fields.push(row.scenario.clone());
    fields.push(row.backend.clone());
    fields.push(String::from_str(row.role.name()));
    fields.push(decimal_text(row.capacity as u128));
    fields.push(decimal_text(row.num_consumers as u128));
    fields.push(row.ratio.clone());
    fields.push(decimal_text(row.payload_bytes as u128));
    fields.push(decimal_text(row.trials as u128));
    fields.push(row.tput_mean.clone());
    fields.push(row.tput_median.clone());
    fields.push(row.tput_min.clone());
    fields.push(row.tput_max.clone());
    fields.push(row.fail_rate_mean.clone());
    fields.push(row.lat_p50_mean.clone());
    fields.push(row.lat_p50_median.clone());
    fields.push(row.lat_p99_mean.clone());
    fields.push(row.lat_p99_median.clone());
    fields.push(row.fail_lat_p50_mean.clone());
    fields.push(row.fail_lat_p50_median.clone());
    fields.push(row.fail_lat_p99_mean.clone());
    fields.push(row.fail_lat_p99_median.clone());
    assert(texts(fields@) =~= summary_fields(*row));
    join_fields(&fields)
}

/// The lines of raw rows.
pub open spec fn raw_records(rows: Seq<RawRow<String>>) -> Seq<Seq<char>> {
    rows.map_values(|row: RawRow<String>| joined(raw_fields(row)))
}

/// The lines of summary rows.
pub open spec fn summary_records(rows: Seq<SummaryRow<String>>) -> Seq<Seq<char>> {
    rows.map_values(|row: SummaryRow<String>| joined(summary_fields(row)))
}

/// What is added to a file: the column names if the file is new, then the
/// records.
pub open spec fn appended(
    fresh: bool,
    columns: Seq<Seq<char>>,
    records: Seq<Seq<char>>,
) -> Seq<char> {
    if fresh {
        lines(seq![joined(columns)] + records)
    } else {
        lines(records)
    }
}

/// What raw rows add to a file, `fresh` if the file is new.
pub fn raw_csv(rows: &Vec<RawRow<String>>, fresh: bool) -> (r: String)
    ensures
        r@ == appended(fresh, raw_columns(), raw_records(rows@)),
{
    let mut out = String::new();
    let ghost top: Seq<Seq<char>> = if fresh {
        seq![joined(raw_columns())]
    } else {
        Seq::empty()
    };
    if fresh {
        append_line(&mut out, &raw_header());
        proof {
            lemma_one_line(joined(raw_columns()));
        }
        assert(out@ =~= lines(top));
    }
    assert(top + raw_records(rows@.take(0)) =~= top);
    let mut i: usize = 0;
    while i < rows.len()
        invariant
            i <= rows@.len(),
            out@ == lines(top + raw_records(rows@.take(i as int))),
        decreases rows@.len() - i,
    {
        proof {
            let next = top + raw_records(rows@.take(i + 1));
            assert(next.drop_last() =~= top + raw_records(rows@.take(i as int)));
            assert(next.last() == joined(raw_fields(rows@[i as int])));
        }
        append_line(&mut out, &raw_record(&rows[i]));
        i += 1;
    }
    assert(rows@.take(rows@.len() as int) =~= rows@);
    assert(top + raw_records(rows@) =~= if fresh {
        seq![joined(raw_columns())] + raw_records(rows@)
    } else {
        raw_records(rows@)
    });
    out
}

/// What summary rows add to a file, `fresh` if the file is new.
pub fn summary_csv(rows: &Vec<SummaryRow<String>>, fresh: bool) -> (r: String)
    ensures
        r@ == appended(fresh, summary_columns(), summary_records(rows@)),
{
    let mut out = String::new();
    let ghost top: Seq<Seq<char>> = if fresh {
        seq![joined(summary_columns())]
    } else {
        Seq::empty()
    };
    if fresh {
        append_line(&mut out, &summary_header());
        proof {
            lemma_one_line(joined(summary_columns()));
        }
        assert(out@ =~= lines(top));
    }
    assert(top + summary_records(rows@.take(0)) =~= top);
    let mut i: usize = 0;
    while i < rows.len()
        invariant
            i <= rows@.len(),
            out@ == lines(top + summary_records(rows@.take(i as int))),
        decreases rows@.len() - i,
    {
        proof {
            let next = top + summary_records(rows@.take(i + 1));
            assert(next.drop_last() =~= top + summary_records(rows@.take(i as int)));
            assert(next.last() == joined(summary_fields(rows@[i as int])));
        }
        append_line(&mut out, &summary_record(&rows[i]));
        i += 1;
    }
    assert(rows@.take(rows@.len() as int) =~= rows@);
    assert(top + summary_records(rows@) =~= if fresh {
        seq![joined(summary_columns())] + summary_records(rows@)
    } else {
        summary_records(rows@)
    });
    out
}

proof fn lemma_one_line(record: Seq<char>)
    ensures
        lines(seq![record]) == record.push('\n'),
{
    reveal_with_fuel(lines, 2);
    assert(seq![record].drop_last() =~= Seq::<Seq<char>>::empty());
    assert(lines(seq![record]) =~= record.push('\n'));
}

proof fn lemma_lines_of_both(a: Seq<Seq<char>>, b: Seq<Seq<char>>)
    ensures
        lines(a + b) == lines(a) + lines(b),
    decreases b.len(),
{
    if b.len() == 0 {
        assert(a + b =~= a);
        assert(lines(a) + lines(b) =~= lines(a));
    } else {
        lemma_lines_of_both(a, b.drop_last());
        assert((a + b).drop_last() =~= a + b.drop_last());
        assert(lines(a + b) =~= lines(a) + lines(b));
    }
}

/// Rows added to a file in two runs leave the same text as all of them in one.
pub proof fn law_runs_can_be_added_up(
    fresh: bool,
    columns: Seq<Seq<char>>,
    a: Seq<Seq<char>>,
    b: Seq<Seq<char>>,
)
    ensures
        appended(fresh, columns, a + b) == appended(fresh, columns, a) + appended(
            false,
            columns,
            b,
        ),
{
    let top = seq![joined(columns)];
    if fresh {
        assert(top + (a + b) =~= (top + a) + b);
        lemma_lines_of_both(top + a, b);
    } else {
        lemma_lines_of_both(a, b);
    }
}

/// Every record has a field for every column.
pub proof fn law_records_fill_the_columns(raw: RawRow<String>, summary: SummaryRow<String>)
    ensures
        raw_fields(raw).len() == raw_columns().len(),
        summary_fields(summary).len() == summary_columns().len(),
{
}

/// Every field of a raw row stands under the column of its own name.
pub proof fn law_raw_fields_stand_under_their_names(row: RawRow<String>)
    ensures
        raw_columns().len() == 19,
        raw_fields(row).len() == 19,
        raw_columns()[0] == "scenario"@ && raw_fields(row)[0] == row.scenario@,
        raw_columns()[1] == "backend"@ && raw_fields(row)[1] == row.backend@,
        raw_columns()[2] == "trial"@ && raw_fields(row)[2] == decimal(row.trial as nat),
        raw_columns()[3] == "role"@ && raw_fields(row)[3] == role_name(row.role),
        raw_columns()[4] == "thread_id"@ && raw_fields(row)[4] == decimal(row.thread_id as nat),
        raw_columns()[5] == "capacity"@ && raw_fields(row)[5] == decimal(row.capacity as nat),
        raw_columns()[6] == "num_consumers"@ && raw_fields(row)[6] == decimal(row.num_consumers as nat),
        raw_columns()[7] == "ratio"@ && raw_fields(row)[7] == row.ratio@,
        raw_columns()[8] == "ok_ops"@ && raw_fields(row)[8] == decimal(row.ok_ops as nat),
        raw_columns()[9] == "fail_ops"@ && raw_fields(row)[9] == decimal(row.fail_ops as nat),
        raw_columns()[10] == "window_ns"@ && raw_fields(row)[10] == row.window_ns@,
        raw_columns()[11] == "throughput_ops_s"@ && raw_fields(row)[11] == row.throughput_ops_s@,
        raw_columns()[12] == "fail_rate_pct"@ && raw_fields(row)[12] == row.fail_rate_pct@,
        raw_columns()[13] == "lat_p50_ns"@ && raw_fields(row)[13] == row.lat_p50_ns@,
        raw_columns()[14] == "lat_p99_ns"@ && raw_fields(row)[14] == row.lat_p99_ns@,
        raw_columns()[15] == "lat_max_ns"@ && raw_fields(row)[15] == row.lat_max_ns@,
        raw_columns()[16] == "fail_lat_p50_ns"@ && raw_fields(row)[16] == row.fail_lat_p50_ns@,
        raw_columns()[17] == "fail_lat_p99_ns"@ && raw_fields(row)[17] == row.fail_lat_p99_ns@,
        raw_columns()[18] == "payload_bytes"@ && raw_fields(row)[18] == decimal(row.payload_bytes as nat),
{
}

/// Every field of a summary row stands under the column of its own name.
pub proof fn law_summary_fields_stand_under_their_names(row: SummaryRow<String>)
    ensures
        summary_columns().len() == 21,
        summary_fields(row).len() == 21,
        summary_columns()[0] == "scenario"@ && summary_fields(row)[0] == row.scenario@,
        summary_columns()[1] == "backend"@ && summary_fields(row)[1] == row.backend@,
        summary_columns()[2] == "role"@ && summary_fields(row)[2] == role_name(row.role),
        summary_columns()[3] == "capacity"@ && summary_fields(row)[3] == decimal(row.capacity as nat),
        summary_columns()[4] == "num_consumers"@ && summary_fields(row)[4] == decimal(row.num_consumers as nat),
        summary_columns()[5] == "ratio"@ && summary_fields(row)[5] == row.ratio@,
        summary_columns()[6] == "payload_bytes"@ && summary_fields(row)[6] == decimal(row.payload_bytes as nat),
        summary_columns()[7] == "trials"@ && summary_fields(row)[7] == decimal(row.trials as nat),
        summary_columns()[8] == "tput_mean"@ && summary_fields(row)[8] == row.tput_mean@,
        summary_columns()[9] == "tput_median"@ && summary_fields(row)[9] == row.tput_median@,
        summary_columns()[10] == "tput_min"@ && summary_fields(row)[10] == row.tput_min@,
        summary_columns()[11] == "tput_max"@ && summary_fields(row)[11] == row.tput_max@,
        summary_columns()[12] == "fail_rate_mean"@ && summary_fields(row)[12] == row.fail_rate_mean@,
        summary_columns()[13] == "lat_p50_mean"@ && summary_fields(row)[13] == row.lat_p50_mean@,
        summary_columns()[14] == "lat_p50_median"@ && summary_fields(row)[14] == row.lat_p50_median@,
        summary_columns()[15] == "lat_p99_mean"@ && summary_fields(row)[15] == row.lat_p99_mean@,
        summary_columns()[16] == "lat_p99_median"@ && summary_fields(row)[16] == row.lat_p99_median@,
        summary_columns()[17] == "fail_lat_p50_mean"@ && summary_fields(row)[17] == row.fail_lat_p50_mean@,
        summary_columns()[18] == "fail_lat_p50_median"@ && summary_fields(row)[18] == row.fail_lat_p50_median@,
        summary_columns()[19] == "fail_lat_p99_mean"@ && summary_fields(row)[19] == row.fail_lat_p99_mean@,
        summary_columns()[20] == "fail_lat_p99_median"@ && summary_fields(row)[20] == row.fail_lat_p99_median@,
{
}

/// The lines that are written are the columns, and the fields under them, with a
/// comma between any two.
pub proof fn law_lines_hold_the_columns_and_the_fields(
    raw: &RawRow<String>,
    summary: &SummaryRow<String>,
    raw_names: String,
    raw_line: String,
    summary_names: String,
    summary_line: String,
)
    requires
        call_ensures(raw_header, (), raw_names),
        call_ensures(raw_record, (raw,), raw_line),
        call_ensures(summary_header, (), summary_names),
        call_ensures(summary_record, (summary,), summary_line),
    ensures
        raw_names@ == joined(raw_columns()),
        raw_line@ == joined(raw_fields(*raw)),
        summary_names@ == joined(summary_columns()),
        summary_line@ == joined(summary_fields(*summary)),
{
}

/// A single field is its own line, and a further one comes behind a comma.
pub proof fn law_fields_are_joined_by_commas(fields: Seq<Seq<char>>, f: Seq<char>)
    ensures
        joined(seq![f]) == f,
        fields.len() > 0 ==> joined(fields.push(f)) == joined(fields) + seq![','] + f,
{
    if fields.len() > 0 {
        assert(fields.push(f).drop_last() =~= fields);
        assert(joined(fields.push(f)) =~= joined(fields) + seq![','] + f);
    }
}

/// A new file begins with the column names, on a line of their own; then come the
/// records, each on a line of its own, in order. A file that is not new gets the
/// records alone.
pub proof fn law_files_begin_with_the_columns(
    columns: Seq<Seq<char>>,
    records: Seq<Seq<char>>,
    record: Seq<char>,
)
    ensures
        appended(false, columns, Seq::empty()) == Seq::<char>::empty(),
        appended(true, columns, records) == joined(columns) + seq!['\n'] + appended(
            false,
            columns,
            records,
        ),
        appended(false, columns, records.push(record)) == appended(false, columns, records) + record
            + seq!['\n'],
{
    lemma_lines_of_both(seq![joined(columns)], records);
    lemma_one_line(joined(columns));
    assert(joined(columns).push('\n') + lines(records) =~= joined(columns) + seq!['\n'] + lines(
        records,
    ));
    assert(records.push(record).drop_last() =~= records);
    assert(lines(records.push(record)) =~= lines(records) + record + seq!['\n']);
}

/// What rows add to a file are their records, in order.
pub proof fn law_every_row_gets_its_record(
    raw: &Vec<RawRow<String>>,
    summary: &Vec<SummaryRow<String>>,
    fresh: bool,
    raw_text: String,
    summary_text: String,
)
    requires
        call_ensures(raw_csv, (raw, fresh), raw_text),
        call_ensures(summary_csv, (summary, fresh), summary_text),
    ensures
        raw_records(raw@).len() == raw@.len(),
        forall|i: int|
            0 <= i < raw@.len() ==> #[trigger] raw_records(raw@)[i] == joined(raw_fields(raw@[i])),
        raw_text@ == appended(fresh, raw_columns(), raw_records(raw@)),
        summary_records(summary@).len() == summary@.len(),
        forall|i: int|
            0 <= i < summary@.len() ==> #[trigger] summary_records(summary@)[i] == joined(
                summary_fields(summary@[i]),
            ),
        summary_text@ == appended(fresh, summary_columns(), summary_records(summary@)),
{
}

/// Joined fields can be told apart again: as long as no field holds a comma,
/// lists of equally many fields that read the same are the same.
pub proof fn law_fields_can_be_told_apart(a: Seq<Seq<char>>, b: Seq<Seq<char>>)
    requires
        a.len() == b.len(),
        forall|i: int| 0 <= i < a.len() ==> !(#[trigger] a[i]).contains(','),
        forall|i: int| 0 <= i < b.len() ==> !(#[trigger] b[i]).contains(','),
        joined(a) == joined(b),
    ensures
        a == b,
    decreases a.len(),
{
    if a.len() == 1 {
        assert(a =~= b);
    } else if a.len() > 1 {
        let x = joined(a.drop_last());
        let y = joined(b.drop_last());
        let f = a.last();
        let g = b.last();
        let whole = joined(a);
        assert(whole == x.push(',') + f && whole == y.push(',') + g);
        assert(whole.len() == x.len() + 1 + f.len() && whole.len() == y.len() + 1 + g.len());
        assert(whole[x.len() as int] == ',' && whole[y.len() as int] == ',');
        if x.len() < y.len() {
            assert(f[y.len() - x.len() - 1] == ',');
            assert(f.contains(','));
        }
        if y.len() < x.len() {
            assert(g[x.len() - y.len() - 1] == ',');
            assert(g.contains(','));
        }
        assert(x =~= whole.take(x.len() as int) && y =~= whole.take(x.len() as int));
        let after = x.len() as int + 1;
        assert(f =~= whole.skip(after) && g =~= whole.skip(after));
        law_fields_can_be_told_apart(a.drop_last(), b.drop_last());
        assert(a =~= a.drop_last().push(f));
        assert(b =~= b.drop_last().push(g));
    }
}

} // verus!
