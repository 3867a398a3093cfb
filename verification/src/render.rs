//! The table renderer. CSV is rendered by verified code against an exact
//! character-level specification with standard quoting rules; the bordered
//! grid is rendered by prettytable behind a trusted wrapper.

use vstd::prelude::*;
use vstd::string::StrSliceExecFns;
use crate::format::OutputFormat;
use crate::table::Table;

verus! {

/// A field must be quoted when it holds a separator, a quote or a line break.
pub open spec fn needs_quoting(s: Seq<char>) -> bool {
    s.contains(',') || s.contains('"') || s.contains('\n') || s.contains('\r')
}

/// One character of a quoted field: an embedded quote is doubled.
pub open spec fn esc_char(c: char) -> Seq<char> {
    if c == '"' {
        seq!['"', '"']
    } else {
        seq![c]
    }
}

/// A quoted field's body: every embedded quote doubled.
pub open spec fn escape_quotes(s: Seq<char>) -> Seq<char>
    decreases s.len(),
{
    if s.len() == 0 {
        Seq::empty()
    } else {
        esc_char(s[0]) + escape_quotes(s.drop_first())
    }
}

/// A rendered CSV field: quoted with doubled quotes when it needs quoting,
/// verbatim otherwise.
pub open spec fn csv_field(s: Seq<char>) -> Seq<char> {
    if needs_quoting(s) {
        seq!['"'] + escape_quotes(s) + seq!['"']
    } else {
        s
    }
}

/// A rendered CSV record: its fields joined by commas, without terminator.
pub open spec fn csv_record(cells: Seq<Seq<char>>) -> Seq<char>
    decreases cells.len(),
{
    if cells.len() == 0 {
        Seq::empty()
    } else if cells.len() == 1 {
        csv_field(cells[0])
    } else {
        csv_field(cells[0]) + seq![','] + csv_record(cells.drop_first())
    }
}

/// A rendered CSV table: the header record first, then each row's record, in
/// order, each record terminated by a line feed.
pub open spec fn csv_text(header: Seq<Seq<char>>, rows: Seq<Seq<Seq<char>>>) -> Seq<char>
    decreases rows.len(),
{
    if rows.len() == 0 {
        csv_record(header) + seq!['\n']
    } else {
        csv_text(header, rows.drop_last()) + csv_record(rows.last()) + seq!['\n']
    }
}

/// Relies on `String::push`: it appends one character.
#[verifier::external_body]
fn push_char(out: &mut String, c: char)
    ensures
        final (out)@ == old(out)@.push(c),
{
    out.push(c);
}

fn field_needs_quoting(cell: &str) -> (r: bool)
    ensures
        r == needs_quoting(cell@),
{
    let n = cell.unicode_len();
    let mut i: usize = 0;
    while i < n
        invariant
            i <= n,
            n == cell@.len(),
            forall|k: int|
                0 <= k < i ==> !(cell@[k] == ',' || cell@[k] == '"' || cell@[k] == '\n' || cell@[k]
                    == '\r'),
        decreases n - i,
    {
        let c = cell.get_char(i);
        if c == ',' || c == '"' || c == '\n' || c == '\r' {
            assert(cell@.contains(c));
            return true;
        }
        i += 1;
    }
    assert(!cell@.contains(',') && !cell@.contains('"') && !cell@.contains('\n')
        && !cell@.contains('\r'));
    false
}

/// Appending a character to a field extends its escaped body by that
/// character's escape.
proof fn lemma_escape_push(s: Seq<char>, c: char)
    ensures
        escape_quotes(s.push(c)) == escape_quotes(s) + esc_char(c),
    decreases s.len(),
{
    if s.len() == 0 {
        assert(s.push(c).drop_first() =~= Seq::<char>::empty());
        assert(escape_quotes(s.push(c)) == esc_char(c) + escape_quotes(Seq::<char>::empty()));
        assert(escape_quotes(s) + esc_char(c) =~= esc_char(c) + Seq::<char>::empty());
    } else {
        assert(s.push(c).drop_first() =~= s.drop_first().push(c));
        lemma_escape_push(s.drop_first(), c);
        assert(s.push(c)[0] == s[0]);
        assert(esc_char(s[0]) + (escape_quotes(s.drop_first()) + esc_char(c)) =~= (esc_char(s[0])
            + escape_quotes(s.drop_first())) + esc_char(c));
    }
}

fn push_field(out: &mut String, cell: &str)
    ensures
        final (out)@ == old(out)@ + csv_field(cell@),
{
    let ghost base = out@;
    if field_needs_quoting(cell) {
        push_char(out, '"');
        let n = cell.unicode_len();
        let mut i: usize = 0;
        while i < n
            invariant
                i <= n,
                n == cell@.len(),
                out@ == base + seq!['"'] + escape_quotes(cell@.take(i as int)),
            decreases n - i,
        {
            let c = cell.get_char(i);
            let ghost sofar = out@;
            if c == '"' {
                push_char(out, '"');
                push_char(out, '"');
            } else {
                push_char(out, c);
            }
            proof {
                assert(out@ =~= sofar + esc_char(c));
                assert(cell@.take(i as int + 1) =~= cell@.take(i as int).push(c));
                lemma_escape_push(cell@.take(i as int), c);
                assert(out@ =~= base + seq!['"'] + escape_quotes(cell@.take(i as int + 1)));
            }
            i += 1;
        }
        push_char(out, '"');
        proof {
            assert(cell@.take(n as int) =~= cell@);
            assert(out@ =~= base + (seq!['"'] + escape_quotes(cell@) + seq!['"']));
        }
    } else {
        out.append(cell);
    }
}

/// Joining one more field onto a non-empty record appends a comma and the
/// rendered field.
proof fn lemma_record_push(cells: Seq<Seq<char>>, x: Seq<char>)
    requires
        cells.len() >= 1,
    ensures
        csv_record(cells.push(x)) == csv_record(cells) + seq![','] + csv_record(seq![x]),
    decreases cells.len(),
{
    if cells.len() == 1 {
        assert(cells.push(x).drop_first() =~= seq![x]);
        assert(cells.push(x)[0] == cells[0]);
    } else {
        assert(cells.push(x).drop_first() =~= cells.drop_first().push(x));
        lemma_record_push(cells.drop_first(), x);
        assert(cells.push(x)[0] == cells[0]);
        assert(csv_field(cells[0]) + seq![','] + (csv_record(cells.drop_first()) + seq![',']
            + csv_record(seq![x])) =~= (csv_field(cells[0]) + seq![','] + csv_record(
            cells.drop_first(),
        )) + seq![','] + csv_record(seq![x]));
    }
}

fn push_record(out: &mut String, cells: &Vec<String>)
    ensures
        final (out)@ == old(out)@ + csv_record(cells.deep_view()),
{
    let ghost base = out@;
    let ghost dv = cells.deep_view();
    if cells.len() == 0 {
        return ;
    }
    push_field(out, cells[0].as_str());
    proof {
        assert(dv.take(1) =~= seq![dv[0]]);
        assert(csv_record(dv.take(1)) == csv_field(dv[0]));
    }
    let mut j: usize = 1;
    while j < cells.len()
        invariant
            1 <= j <= cells.len(),
            dv == cells.deep_view(),
            dv.len() == cells@.len(),
            out@ == base + csv_record(dv.take(j as int)),
        decreases cells.len() - j,
    {
        push_char(out, ',');
        push_field(out, cells[j].as_str());
        proof {
            assert(dv.take(j as int + 1) =~= dv.take(j as int).push(dv[j as int]));
            lemma_record_push(dv.take(j as int), dv[j as int]);
            assert(csv_record(seq![dv[j as int]]) == csv_field(dv[j as int]));
            assert(out@ =~= base + csv_record(dv.take(j as int + 1)));
        }
        j += 1;
    }
    assert(dv.take(cells.len() as int) =~= dv);
}

/// Renders the header and rows as CSV text, one record per line.
pub fn render_csv(labels: &Vec<String>, rows: &Vec<Vec<String>>) -> (r: String)
    ensures
        r@ == csv_text(labels.deep_view(), rows.deep_view()),
{
    let ghost hd = labels.deep_view();
    let ghost rs = rows.deep_view();
    let mut out = String::new();
    push_record(&mut out, labels);
    push_char(&mut out, '\n');
    proof {
        assert(out@ =~= csv_record(hd) + seq!['\n']);
        assert(rs.take(0) =~= Seq::<Seq<Seq<char>>>::empty());
    }
    let mut i: usize = 0;
    while i < rows.len()
        invariant
            i <= rows.len(),
            hd == labels.deep_view(),
            rs == rows.deep_view(),
            rs.len() == rows@.len(),
            out@ == csv_text(hd, rs.take(i as int)),
        decreases rows.len() - i,
    {
        let ghost sofar = out@;
        push_record(&mut out, &rows[i]);
        push_char(&mut out, '\n');
        proof {
            assert(rows@[i as int].deep_view() == rs[i as int]);
            assert(rs.take(i as int + 1).drop_last() =~= rs.take(i as int));
            assert(rs.take(i as int + 1).last() == rs[i as int]);
            assert(out@ =~= csv_text(hd, rs.take(i as int + 1)));
        }
        i += 1;
    }
    assert(rs.take(rows.len() as int) =~= rs);
    out
}

/// The length of an unquoted field at the head of the input: everything
/// before the first comma or line feed.
pub open spec fn scan_unquoted(s: Seq<char>) -> int
    decreases s.len(),
{
    if s.len() == 0 {
        0
    } else if s[0] == ',' || s[0] == '\n' {
        0
    } else {
        1 + scan_unquoted(s.drop_first())
    }
}

proof fn lemma_scan_unquoted_bounds(s: Seq<char>)
    ensures
        0 <= scan_unquoted(s) <= s.len(),
    decreases s.len(),
{
    if s.len() == 0 {
    } else if s[0] == ',' || s[0] == '\n' {
    } else {
        lemma_scan_unquoted_bounds(s.drop_first());
    }
}

/// The body and remainder of a quoted field, after its opening quote: a
/// doubled quote is one embedded quote, a lone quote closes the field, and an
/// unterminated field fails.
pub open spec fn parse_quoted(s: Seq<char>) -> Option<(Seq<char>, Seq<char>)>
    decreases s.len(),
{
    if s.len() == 0 {
        None
    } else if s[0] == '"' {
        if s.len() >= 2 && s[1] == '"' {
            match parse_quoted(s.skip(2)) {
                Some(p) => Some((seq!['"'] + p.0, p.1)),
                None => None,
            }
        } else {
            Some((Seq::empty(), s.drop_first()))
        }
    } else {
        match parse_quoted(s.drop_first()) {
            Some(p) => Some((seq![s[0]] + p.0, p.1)),
            None => None,
        }
    }
}

/// One field and the remainder: quoted when it opens with a quote, unquoted
/// otherwise.
pub open spec fn parse_field(s: Seq<char>) -> Option<(Seq<char>, Seq<char>)> {
    if s.len() > 0 && s[0] == '"' {
        parse_quoted(s.drop_first())
    } else {
        Some((s.take(scan_unquoted(s)), s.skip(scan_unquoted(s))))
    }
}

proof fn lemma_parse_quoted_len(s: Seq<char>)
    ensures
        parse_quoted(s) matches Some(p) ==> p.1.len() < s.len(),
    decreases s.len(),
{
    if s.len() == 0 {
    } else if s[0] == '"' {
        if s.len() >= 2 && s[1] == '"' {
            lemma_parse_quoted_len(s.skip(2));
        }
    } else {
        lemma_parse_quoted_len(s.drop_first());
    }
}

proof fn lemma_parse_field_len(s: Seq<char>)
    ensures
        parse_field(s) matches Some(p) ==> p.1.len() <= s.len(),
{
    if s.len() > 0 && s[0] == '"' {
        lemma_parse_quoted_len(s.drop_first());
    } else {
        lemma_scan_unquoted_bounds(s);
    }
}

/// One record's fields and the remainder after its terminator: fields
/// separated by commas, the record closed by a line feed or the end of the
/// input.
pub open spec fn parse_record(s: Seq<char>) -> Option<(Seq<Seq<char>>, Seq<char>)>
    decreases s.len() via parse_record_dec
{
    match parse_field(s) {
        None => None,
        Some(p) => {
            if p.1.len() == 0 {
                Some((seq![p.0], p.1))
            } else if p.1[0] == '\n' {
                Some((seq![p.0], p.1.drop_first()))
            } else if p.1[0] == ',' {
                match parse_record(p.1.drop_first()) {
                    Some(q) => Some((seq![p.0] + q.0, q.1)),
                    None => None,
                }
            } else {
                None
            }
        },
    }
}

#[via_fn]
proof fn parse_record_dec(s: Seq<char>) {
    lemma_parse_field_len(s);
}

proof fn lemma_parse_record_len(s: Seq<char>)
    ensures
        parse_record(s) matches Some(q) ==> q.1.len() <= s.len(),
        s.len() > 0 ==> (parse_record(s) matches Some(q) ==> q.1.len() < s.len()),
    decreases s.len(),
{
    lemma_parse_field_len(s);
    match parse_field(s) {
        None => {
        },
        Some(p) => {
            if p.1.len() == 0 {
            } else if p.1[0] == '\n' {
            } else if p.1[0] == ',' {
                lemma_parse_record_len(p.1.drop_first());
            }
        },
    }
}

/// Every record of the input, each consumed with its terminator.
pub open spec fn parse_records(s: Seq<char>) -> Option<Seq<Seq<Seq<char>>>>
    decreases s.len() via parse_records_dec
{
    if s.len() == 0 {
        Some(Seq::empty())
    } else {
        match parse_record(s) {
            Some(q) => match parse_records(q.1) {
                Some(rs) => Some(seq![q.0] + rs),
                None => None,
            },
            None => None,
        }
    }
}

#[via_fn]
proof fn parse_records_dec(s: Seq<char>) {
    if s.len() != 0 {
        lemma_parse_record_len(s);
    }
}

/// A parsed CSV table: the first record is the header, the rest the rows.
pub open spec fn parse_csv(s: Seq<char>) -> Option<(Seq<Seq<char>>, Seq<Seq<Seq<char>>>)> {
    match parse_records(s) {
        Some(rs) => if rs.len() >= 1 {
            Some((rs[0], rs.drop_first()))
        } else {
            None
        },
        None => None,
    }
}

proof fn lemma_drop_first_not_contains(s: Seq<char>, c: char)
    requires
        !s.contains(c),
        s.len() > 0,
    ensures
        !s.drop_first().contains(c),
{
    if s.drop_first().contains(c) {
        let k = choose|k: int| 0 <= k < s.drop_first().len() && s.drop_first()[k] == c;
        assert(s[k + 1] == c);
    }
}

proof fn lemma_scan_unquoted_exact(f: Seq<char>, tail: Seq<char>)
    requires
        !needs_quoting(f),
        tail.len() == 0 || tail[0] == ',' || tail[0] == '\n',
    ensures
        scan_unquoted(f + tail) == f.len(),
    decreases f.len(),
{
    if f.len() == 0 {
        assert(f + tail =~= tail);
    } else {
        if f[0] == ',' {
            assert(f.contains(','));
        }
        if f[0] == '\n' {
            assert(f.contains('\n'));
        }
        assert((f + tail)[0] == f[0]);
        lemma_drop_first_not_contains(f, ',');
        lemma_drop_first_not_contains(f, '"');
        lemma_drop_first_not_contains(f, '\n');
        lemma_drop_first_not_contains(f, '\r');
        assert((f + tail).drop_first() =~= f.drop_first() + tail);
        lemma_scan_unquoted_exact(f.drop_first(), tail);
    }
}

proof fn lemma_parse_quoted_exact(f: Seq<char>, tail: Seq<char>)
    requires
        tail.len() == 0 || tail[0] != '"',
    ensures
        parse_quoted(escape_quotes(f) + seq!['"'] + tail) == Some((f, tail)),
    decreases f.len(),
{
    let s = escape_quotes(f) + seq!['"'] + tail;
    if f.len() == 0 {
        assert(s =~= seq!['"'] + tail);
        assert(s[0] == '"');
        if s.len() >= 2 {
            assert(s[1] == tail[0]);
        }
        assert(s.drop_first() =~= tail);
    } else {
        let rest = escape_quotes(f.drop_first());
        if f[0] == '"' {
            assert(escape_quotes(f) == seq!['"', '"'] + rest);
            assert(s =~= (seq!['"', '"'] + rest) + seq!['"'] + tail);
            assert(s[0] == '"');
            assert(s[1] == '"');
            assert(s.skip(2) =~= rest + seq!['"'] + tail);
            lemma_parse_quoted_exact(f.drop_first(), tail);
            assert(seq!['"'] + f.drop_first() =~= f);
        } else {
            assert(escape_quotes(f) == seq![f[0]] + rest);
            assert(s[0] == f[0]);
            assert(s.drop_first() =~= rest + seq!['"'] + tail);
            lemma_parse_quoted_exact(f.drop_first(), tail);
            assert(seq![f[0]] + f.drop_first() =~= f);
        }
    }
}

proof fn lemma_parse_field_exact(f: Seq<char>, tail: Seq<char>)
    requires
        tail.len() == 0 || tail[0] == ',' || tail[0] == '\n',
    ensures
        parse_field(csv_field(f) + tail) == Some((f, tail)),
{
    let s = csv_field(f) + tail;
    if needs_quoting(f) {
        assert(s =~= (seq!['"'] + escape_quotes(f) + seq!['"']) + tail);
        assert(s[0] == '"');
        assert(s.drop_first() =~= escape_quotes(f) + seq!['"'] + tail);
        lemma_parse_quoted_exact(f, tail);
    } else {
        if s.len() > 0 {
            if f.len() > 0 {
                assert(s[0] == f[0]);
                if f[0] == '"' {
                    assert(f.contains('"'));
                }
            } else {
                assert(s[0] == tail[0]);
            }
        }
        lemma_scan_unquoted_exact(f, tail);
        assert(s.take(f.len() as int) =~= f);
        assert(s.skip(f.len() as int) =~= tail);
    }
}

proof fn lemma_parse_record_exact(cells: Seq<Seq<char>>, rest: Seq<char>)
    requires
        cells.len() >= 1,
    ensures
        parse_record(csv_record(cells) + seq!['\n'] + rest) == Some((cells, rest)),
    decreases cells.len(),
{
    let s = csv_record(cells) + seq!['\n'] + rest;
    if cells.len() == 1 {
        assert(s =~= csv_field(cells[0]) + (seq!['\n'] + rest));
        lemma_parse_field_exact(cells[0], seq!['\n'] + rest);
        assert((seq!['\n'] + rest)[0] == '\n');
        assert((seq!['\n'] + rest).drop_first() =~= rest);
        assert(seq![cells[0]] =~= cells);
    } else {
        let tail0 = seq![','] + (csv_record(cells.drop_first()) + seq!['\n'] + rest);
        assert(s =~= csv_field(cells[0]) + tail0);
        assert(tail0[0] == ',');
        lemma_parse_field_exact(cells[0], tail0);
        assert(tail0.drop_first() =~= csv_record(cells.drop_first()) + seq!['\n'] + rest);
        lemma_parse_record_exact(cells.drop_first(), rest);
        assert(seq![cells[0]] + cells.drop_first() =~= cells);
    }
}

/// The rendered records of the data rows alone, each with its terminator.
pub open spec fn records_text(rows: Seq<Seq<Seq<char>>>) -> Seq<char>
    decreases rows.len(),
{
    if rows.len() == 0 {
        Seq::empty()
    } else {
        records_text(rows.drop_last()) + csv_record(rows.last()) + seq!['\n']
    }
}

proof fn lemma_csv_text_split(header: Seq<Seq<char>>, rows: Seq<Seq<Seq<char>>>)
    ensures
        csv_text(header, rows) == csv_record(header) + seq!['\n'] + records_text(rows),
    decreases rows.len(),
{
    if rows.len() == 0 {
        assert(csv_record(header) + seq!['\n'] + records_text(rows) =~= csv_record(header)
            + seq!['\n']);
    } else {
        lemma_csv_text_split(header, rows.drop_last());
        assert((csv_record(header) + seq!['\n'] + records_text(rows.drop_last())) + csv_record(
            rows.last(),
        ) + seq!['\n'] =~= csv_record(header) + seq!['\n'] + (records_text(rows.drop_last())
            + csv_record(rows.last()) + seq!['\n']));
    }
}

proof fn lemma_records_text_first(rows: Seq<Seq<Seq<char>>>)
    requires
        rows.len() > 0,
    ensures
        records_text(rows) == csv_record(rows[0]) + seq!['\n'] + records_text(rows.drop_first()),
    decreases rows.len(),
{
    if rows.len() == 1 {
        assert(rows.drop_last() =~= Seq::<Seq<Seq<char>>>::empty());
        assert(rows.drop_first() =~= Seq::<Seq<Seq<char>>>::empty());
        assert(rows.last() == rows[0]);
        assert(records_text(rows.drop_last()) + csv_record(rows.last()) + seq!['\n']
            =~= csv_record(rows[0]) + seq!['\n'] + records_text(rows.drop_first()));
    } else {
        lemma_records_text_first(rows.drop_last());
        assert(rows.drop_last()[0] == rows[0]);
        assert(rows.drop_last().drop_first() =~= rows.drop_first().drop_last());
        assert(rows.drop_first().last() == rows.last());
        assert((csv_record(rows[0]) + seq!['\n'] + records_text(rows.drop_first().drop_last()))
            + csv_record(rows.drop_first().last()) + seq!['\n'] =~= csv_record(rows[0])
            + seq!['\n'] + (records_text(rows.drop_first().drop_last()) + csv_record(
            rows.drop_first().last(),
        ) + seq!['\n']));
    }
}

proof fn lemma_parse_records_text(rows: Seq<Seq<Seq<char>>>)
    requires
        forall|i: int| 0 <= i < rows.len() ==> rows[i].len() >= 1,
    ensures
        parse_records(records_text(rows)) == Some(rows),
    decreases rows.len(),
{
    if rows.len() == 0 {
    } else {
        lemma_records_text_first(rows);
        assert(rows[0].len() >= 1);
        lemma_parse_record_exact(rows[0], records_text(rows.drop_first()));
        assert(records_text(rows).len() > 0);
        assert forall|i: int| 0 <= i < rows.drop_first().len() implies rows.drop_first()[i].len()
            >= 1 by {
            assert(rows.drop_first()[i] == rows[i + 1]);
        }
        lemma_parse_records_text(rows.drop_first());
        assert(seq![rows[0]] + rows.drop_first() =~= rows);
    }
}

/// Law: parsing the rendered CSV text by standard CSV rules recovers the
/// header and every row's cells exactly: nothing is lost or reordered by
/// quoting and escaping.
pub proof fn lemma_csv_round_trip(header: Seq<Seq<char>>, rows: Seq<Seq<Seq<char>>>)
    requires
        header.len() >= 1,
        forall|i: int| 0 <= i < rows.len() ==> rows[i].len() >= 1,
    ensures
        parse_csv(csv_text(header, rows)) == Some((header, rows)),
{
    lemma_csv_text_split(header, rows);
    lemma_parse_record_exact(header, records_text(rows));
    lemma_parse_records_text(rows);
    assert(csv_text(header, rows).len() > 0);
    assert((seq![header] + rows)[0] == header);
    assert((seq![header] + rows).drop_first() =~= rows);
}

/// Names the bordered text grid that prettytable renders for a title row,
/// a header and data rows.
pub uninterp spec fn grid_of(
    title: Option<Seq<char>>,
    header: Seq<Seq<char>>,
    rows: Seq<Seq<Seq<char>>>,
) -> Seq<char>;

/// Relies on prettytable (`Table`, `Row`, `Cell` and `Table`'s `Display`):
/// the rendered grid is a function of the title, header and cells alone.
#[verifier::external_body]
fn grid_render(title: &Option<String>, header: &Vec<String>, rows: &Vec<Vec<String>>) -> (r: String)
    ensures
        r@ == grid_of(title.deep_view(), header.deep_view(), rows.deep_view()),
{
    let mut tbl = prettytable::Table::new();
    let header_row = prettytable::Row::new(header.iter().map(|c| prettytable::Cell::new(c)).collect());
    if let Some(t) = title {
        tbl.add_row(prettytable::Row::new(vec![prettytable::Cell::new(t)]));
        tbl.add_row(header_row);
    } else {
        tbl.set_titles(header_row);
    }
    for row in rows.iter() {
        tbl.add_row(prettytable::Row::new(row.iter().map(|c| prettytable::Cell::new(c)).collect()));
    }
    tbl.to_string()
}

/// Serializes a table in the requested format: CSV text, or prettytable's
/// bordered grid with the title row, when there is one, before the header.
pub fn render(table: &Table, format: OutputFormat) -> (r: String)
    ensures
        format == OutputFormat::Csv ==> r@ == csv_text(
            table.labels.deep_view(),
            table.rows.deep_view(),
        ),
        format == OutputFormat::Ascii ==> r@ == grid_of(
            table.title.deep_view(),
            table.labels.deep_view(),
            table.rows.deep_view(),
        ),
{
    match format {
        OutputFormat::Csv => render_csv(&table.labels, &table.rows),
        OutputFormat::Ascii => grid_render(&table.title, &table.labels, &table.rows),
    }
}

} // verus!
