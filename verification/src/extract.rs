//! The row extractor: applies a job's patterns to each line of the input
//! text, in file order, and produces the ordered sequence of extracted rows.
//! A line matching no pattern contributes no row; with several patterns the
//! first that matches the line populates its row.

use vstd::prelude::*;
use rayon::iter::IntoParallelRefIterator;
use rayon::iter::ParallelIterator;
use crate::pattern::Pattern;
use crate::pattern::line_matches;
use crate::pattern::named_capture;

verus! {

/// The index of the first line feed in a text known to hold one.
pub open spec fn first_nl(text: Seq<char>) -> int
    decreases text.len(),
{
    if text.len() == 0 {
        0
    } else if text[0] == '\n' {
        0
    } else {
        1 + first_nl(text.drop_first())
    }
}

proof fn lemma_first_nl(text: Seq<char>)
    requires
        text.contains('\n'),
    ensures
        0 <= first_nl(text) < text.len(),
        text[first_nl(text)] == '\n',
        forall|j: int| 0 <= j < first_nl(text) ==> text[j] != '\n',
    decreases text.len(),
{
    if text[0] == '\n' {
    } else {
        assert(text.drop_first().contains('\n')) by {
            let k = choose|k: int| 0 <= k < text.len() && text[k] == '\n';
            assert(text.drop_first()[k - 1] == '\n');
        }
        lemma_first_nl(text.drop_first());
        assert forall|j: int| 0 <= j < first_nl(text) implies text[j] != '\n' by {
            if j > 0 {
                assert(text.drop_first()[j - 1] != '\n');
            }
        }
    }
}

/// A line with one carriage return dropped from its end, as part of a
/// carriage-return-line-feed ending.
pub open spec fn chomp(line: Seq<char>) -> Seq<char> {
    if line.len() > 0 && line.last() == '\r' {
        line.drop_last()
    } else {
        line
    }
}

/// The lines of a text: split at each line feed, a carriage return
/// immediately before a line feed dropped, and a trailing line end producing
/// no final empty line.
pub open spec fn lines_spec(text: Seq<char>) -> Seq<Seq<char>>
    decreases text.len() via lines_spec_dec
{
    if text.len() == 0 {
        Seq::empty()
    } else if !text.contains('\n') {
        seq![text]
    } else {
        seq![chomp(text.take(first_nl(text)))] + lines_spec(text.skip(first_nl(text) + 1))
    }
}

#[via_fn]
proof fn lines_spec_dec(text: Seq<char>) {
    if text.len() != 0 && text.contains('\n') {
        lemma_first_nl(text);
    }
}

/// Relies on `str::lines`: it splits at line feeds, drops one carriage return
/// immediately before each line feed, and yields no final empty line for a
/// trailing line end.
#[verifier::external_body]
pub fn split_lines(text: &str) -> (r: Vec<String>)
    ensures
        r.deep_view() == lines_spec(text@),
{
    text.lines().map(|l| l.to_string()).collect()
}

/// The expressions a sequence of compiled patterns was compiled from.
pub open spec fn sources_of(patterns: Seq<Pattern>) -> Seq<Seq<char>> {
    patterns.map_values(|p: Pattern| p.spec_source())
}

/// The cell for one label: the text the matching pattern captured under that
/// label, or the empty string when the pattern has no group of that name or
/// the group did not participate in the match.
pub open spec fn cell_of(pattern: Seq<char>, line: Seq<char>, label: Seq<char>) -> Seq<char> {
    match named_capture(pattern, line, label) {
        Some(s) => s,
        None => Seq::empty(),
    }
}

/// The row a matching pattern yields for a line: one cell per declared label,
/// in label order.
pub open spec fn row_of(pattern: Seq<char>, labels: Seq<Seq<char>>, line: Seq<char>) -> Seq<
    Seq<char>,
> {
    labels.map_values(|l: Seq<char>| cell_of(pattern, line, l))
}

/// Whether a line matches at least one of the patterns.
pub open spec fn matches_any(patterns: Seq<Seq<char>>, line: Seq<char>) -> bool {
    exists|i: int| 0 <= i < patterns.len() && line_matches(patterns[i], line)
}

/// The row a line contributes: the first pattern, in declaration order, that
/// matches the line populates it; a line matching none contributes none.
pub open spec fn line_row(patterns: Seq<Seq<char>>, labels: Seq<Seq<char>>, line: Seq<char>) -> Option<
    Seq<Seq<char>>,
>
    decreases patterns.len(),
{
    if patterns.len() == 0 {
        None
    } else if line_matches(patterns[0], line) {
        Some(row_of(patterns[0], labels, line))
    } else {
        line_row(patterns.drop_first(), labels, line)
    }
}

/// The extracted rows for a sequence of lines, in line order.
pub open spec fn rows_spec(
    patterns: Seq<Seq<char>>,
    labels: Seq<Seq<char>>,
    lines: Seq<Seq<char>>,
) -> Seq<Seq<Seq<char>>>
    decreases lines.len(),
{
    if lines.len() == 0 {
        Seq::empty()
    } else {
        rows_spec(patterns, labels, lines.drop_last()) + (match line_row(
            patterns,
            labels,
            lines.last(),
        ) {
            Some(r) => seq![r],
            None => Seq::empty(),
        })
    }
}

/// Builds the row for a line that the given pattern matched: one cell per
/// label, each the captured text or empty.
fn build_row(pattern: &Pattern, labels: &Vec<String>, line: &str) -> (r: Vec<String>)
    ensures
        r.deep_view() == row_of(pattern.spec_source(), labels.deep_view(), line@),
{
    let ghost goal = row_of(pattern.spec_source(), labels.deep_view(), line@);
    let mut out: Vec<String> = Vec::new();
    let mut j: usize = 0;
    while j < labels.len()
        invariant
            j <= labels.len(),
            goal == row_of(pattern.spec_source(), labels.deep_view(), line@),
            goal.len() == labels.deep_view().len(),
            out.deep_view() == goal.take(j as int),
        decreases labels.len() - j,
    {
        let cell = match pattern.capture(line, labels[j].as_str()) {
            Some(s) => s,
            None => String::new(),
        };
        assert(cell@ == cell_of(pattern.spec_source(), line@, labels.deep_view()[j as int]));
        let ghost prevs = out@;
        let ghost prevd = out.deep_view();
        let ghost cellv = cell@;
        out.push(cell);
        proof {
            assert(out@.len() == prevs.len() + 1);
            assert(prevd.len() == prevs.len());
            assert(prevs.len() == j);
            assert forall|k: int| 0 <= k < j + 1 implies #[trigger] out.deep_view()[k]
                == goal.take(j as int + 1)[k] by {
                assert(out.deep_view()[k] == out@[k]@);
                if k < j {
                    assert(out@[k] == prevs[k]);
                    assert(prevs[k]@ == prevd[k]);
                    assert(prevd[k] == goal.take(j as int)[k]);
                } else {
                    assert(out@[k]@ == cellv);
                }
            }
            assert(out.deep_view() =~= goal.take(j as int + 1));
        }
        j += 1;
    }
    assert(goal.take(labels.len() as int) =~= goal);
    out
}

/// The row for one line, by the first matching pattern, if any.
pub fn row_of_line(patterns: &Vec<Pattern>, labels: &Vec<String>, line: &str) -> (r: Option<
    Vec<String>,
>)
    ensures
        r.deep_view() == line_row(sources_of(patterns@), labels.deep_view(), line@),
{
    let ghost srcs = sources_of(patterns@);
    proof {
        assert(srcs.skip(0) =~= srcs);
    }
    let mut i: usize = 0;
    while i < patterns.len()
        invariant
            i <= patterns.len(),
            srcs == sources_of(patterns@),
            srcs.len() == patterns@.len(),
            line_row(srcs, labels.deep_view(), line@) == line_row(
                srcs.skip(i as int),
                labels.deep_view(),
                line@,
            ),
        decreases patterns.len() - i,
    {
        assert(srcs.skip(i as int)[0] == patterns@[i as int].spec_source());
        if patterns[i].matches(line) {
            let row = build_row(&patterns[i], labels, line);
            return Some(row);
        }
        assert(srcs.skip(i as int).drop_first() =~= srcs.skip(i as int + 1));
        i += 1;
    }
    assert(srcs.skip(patterns.len() as int) =~= Seq::<Seq<char>>::empty());
    None
}

/// The extracted rows of the given lines, in line order.
pub fn extract_lines(patterns: &Vec<Pattern>, labels: &Vec<String>, lines: &Vec<String>) -> (r: Vec<
    Vec<String>,
>)
    ensures
        r.deep_view() == rows_spec(sources_of(patterns@), labels.deep_view(), lines.deep_view()),
{
    let ghost srcs = sources_of(patterns@);
    let ghost lns = lines.deep_view();
    let mut out: Vec<Vec<String>> = Vec::new();
    let mut i: usize = 0;
    while i < lines.len()
        invariant
            i <= lines.len(),
            srcs == sources_of(patterns@),
            lns == lines.deep_view(),
            lns.len() == lines@.len(),
            out.deep_view() == rows_spec(srcs, labels.deep_view(), lns.take(i as int)),
        decreases lines.len() - i,
    {
        assert(lns.take(i as int + 1).drop_last() =~= lns.take(i as int));
        assert(lns.take(i as int + 1).last() == lns[i as int]);
        let ghost before = out.deep_view();
        match row_of_line(patterns, labels, lines[i].as_str()) {
            Some(row) => {
                out.push(row);
                assert(out.deep_view() =~= before + seq![row.deep_view()]);
            },
            None => {
                assert(out.deep_view() =~= before + Seq::<Seq<Seq<char>>>::empty());
            },
        }
        i += 1;
    }
    assert(lns.take(lines.len() as int) =~= lns);
    out
}

/// The extracted rows of a text, line by line in file order, sequentially.
pub fn extract_text(patterns: &Vec<Pattern>, labels: &Vec<String>, text: &str) -> (r: Vec<
    Vec<String>,
>)
    ensures
        r.deep_view() == rows_spec(sources_of(patterns@), labels.deep_view(), lines_spec(text@)),
{
    let lines = split_lines(text);
    extract_lines(patterns, labels, &lines)
}

/// Relies on rayon's `par_iter`, `ParallelIterator::map` and `collect` into a
/// `Vec`: an indexed parallel map collects its results in the input's order,
/// so the element at each index is the closure's result for that line.
#[verifier::external_body]
fn par_line_rows(patterns: &Vec<Pattern>, labels: &Vec<String>, lines: &Vec<String>) -> (r: Vec<
    Option<Vec<String>>,
>)
    ensures
        r.deep_view() == Seq::new(
            lines.deep_view().len(),
            |i: int|
                line_row(sources_of(patterns@), labels.deep_view(), lines.deep_view()[i]),
        ),
{
    lines.par_iter().map(|line| row_of_line(patterns, labels, line.as_str())).collect()
}

/// The extracted rows of a text, with per-line matching evaluated in parallel
/// and the results reassembled in original line order: the outcome equals the
/// sequential extraction exactly.
pub fn extract_text_par(patterns: &Vec<Pattern>, labels: &Vec<String>, text: &str) -> (r: Vec<
    Vec<String>,
>)
    ensures
        r.deep_view() == rows_spec(sources_of(patterns@), labels.deep_view(), lines_spec(text@)),
{
    let ghost srcs = sources_of(patterns@);
    let lines = split_lines(text);
    let ghost lns = lines.deep_view();
    let per_line = par_line_rows(patterns, labels, &lines);
    proof {
        assert(per_line.deep_view().len() == per_line@.len());
        assert(per_line.deep_view().len() == lns.len());
    }
    let mut out: Vec<Vec<String>> = Vec::new();
    let mut i: usize = 0;
    while i < per_line.len()
        invariant
            i <= per_line.len(),
            srcs == sources_of(patterns@),
            lns == lines.deep_view(),
            lns.len() == lines@.len(),
            per_line@.len() == lns.len(),
            per_line.deep_view() == Seq::new(
                lns.len(),
                |k: int| line_row(srcs, labels.deep_view(), lns[k]),
            ),
            out.deep_view() == rows_spec(srcs, labels.deep_view(), lns.take(i as int)),
        decreases per_line.len() - i,
    {
        assert(lns.take(i as int + 1).drop_last() =~= lns.take(i as int));
        assert(lns.take(i as int + 1).last() == lns[i as int]);
        assert(per_line.deep_view()[i as int] == per_line@[i as int].deep_view());
        assert(per_line.deep_view()[i as int] == line_row(srcs, labels.deep_view(), lns[i as int]));
        let ghost before = out.deep_view();
        match &per_line[i] {
            Some(row) => {
                let copied = crate::table::clone_strings(row);
                out.push(copied);
                assert(out.deep_view() =~= before + seq![copied.deep_view()]);
            },
            None => {
                assert(out.deep_view() =~= before + Seq::<Seq<Seq<char>>>::empty());
            },
        }
        i += 1;
    }
    assert(lns.take(per_line.len() as int) =~= lns);
    out
}

} // verus!
