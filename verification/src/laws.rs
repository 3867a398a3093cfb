//! Laws of the extractor, stated and proved over the same spec functions that
//! the executable functions' contracts use.

use vstd::prelude::*;
use crate::extract::cell_of;
use crate::extract::line_row;
use crate::extract::matches_any;
use crate::extract::row_of;
use crate::extract::rows_spec;
use crate::pattern::line_matches;
use crate::pattern::named_capture;
use crate::render::csv_text;
use crate::render::parse_csv;
use crate::render::lemma_csv_round_trip;

verus! {

/// The number of lines that match at least one of the patterns.
pub open spec fn count_matching(patterns: Seq<Seq<char>>, lines: Seq<Seq<char>>) -> nat
    decreases lines.len(),
{
    if lines.len() == 0 {
        0
    } else {
        count_matching(patterns, lines.drop_last()) + (if matches_any(patterns, lines.last()) {
            1nat
        } else {
            0nat
        })
    }
}

/// A line contributes a row exactly when some pattern matches it.
proof fn lemma_line_row_some(patterns: Seq<Seq<char>>, labels: Seq<Seq<char>>, line: Seq<char>)
    ensures
        (line_row(patterns, labels, line) is Some) <==> matches_any(patterns, line),
    decreases patterns.len(),
{
    if patterns.len() == 0 {
    } else if line_matches(patterns[0], line) {
        assert(matches_any(patterns, line));
    } else {
        lemma_line_row_some(patterns.drop_first(), labels, line);
        if matches_any(patterns.drop_first(), line) {
            let k = choose|k: int|
                0 <= k < patterns.drop_first().len() && line_matches(
                    patterns.drop_first()[k],
                    line,
                );
            assert(line_matches(patterns[k + 1], line));
        }
        if matches_any(patterns, line) {
            let k = choose|k: int| 0 <= k < patterns.len() && line_matches(patterns[k], line);
            assert(k != 0);
            assert(line_matches(patterns.drop_first()[k - 1], line));
        }
    }
}

/// Law: the number of emitted rows equals the number of lines that match at
/// least one pattern of the view, each qualifying line counted exactly once
/// (the first matching pattern wins; further patterns are not tried).
pub proof fn lemma_row_count(patterns: Seq<Seq<char>>, labels: Seq<Seq<char>>, lines: Seq<
    Seq<char>,
>)
    ensures
        rows_spec(patterns, labels, lines).len() == count_matching(patterns, lines),
    decreases lines.len(),
{
    if lines.len() == 0 {
    } else {
        lemma_row_count(patterns, labels, lines.drop_last());
        lemma_line_row_some(patterns, labels, lines.last());
    }
}

/// Law: in the row a matching pattern yields, the cell for the label at any
/// position is empty exactly when the pattern captured nothing under that
/// label: the pattern has no group of that name, or the group did not
/// participate in the match, or it captured the empty string.
pub proof fn lemma_empty_cell(
    pattern: Seq<char>,
    labels: Seq<Seq<char>>,
    line: Seq<char>,
    j: int,
)
    requires
        0 <= j < labels.len(),
    ensures
        row_of(pattern, labels, line)[j] == cell_of(pattern, line, labels[j]),
        (row_of(pattern, labels, line)[j].len() == 0) <==> (named_capture(pattern, line, labels[j])
            is None || named_capture(pattern, line, labels[j]) == Some(Seq::<char>::empty())),
{
    match named_capture(pattern, line, labels[j]) {
        Some(s) => {
            if s.len() == 0 {
                assert(s =~= Seq::<char>::empty());
            }
        },
        None => {
        },
    }
}

/// Law: extraction preserves input order; the rows of two line sequences, one
/// after the other, are the rows of the first followed by the rows of the
/// second.
pub proof fn lemma_rows_append(
    patterns: Seq<Seq<char>>,
    labels: Seq<Seq<char>>,
    first: Seq<Seq<char>>,
    second: Seq<Seq<char>>,
)
    ensures
        rows_spec(patterns, labels, first + second) == rows_spec(patterns, labels, first)
            + rows_spec(patterns, labels, second),
    decreases second.len(),
{
    if second.len() == 0 {
        assert(first + second =~= first);
        assert(rows_spec(patterns, labels, first) + rows_spec(patterns, labels, second)
            =~= rows_spec(patterns, labels, first));
    } else {
        assert((first + second).drop_last() =~= first + second.drop_last());
        lemma_rows_append(patterns, labels, first, second.drop_last());
        assert((first + second).last() == second.last());
        let tail = match line_row(patterns, labels, second.last()) {
            Some(r) => seq![r],
            None => Seq::<Seq<Seq<char>>>::empty(),
        };
        assert(rows_spec(patterns, labels, first + second) == (rows_spec(patterns, labels, first)
            + rows_spec(patterns, labels, second.drop_last())) + tail);
        assert(rows_spec(patterns, labels, second) == rows_spec(patterns, labels, second.drop_last())
            + tail);
        assert((rows_spec(patterns, labels, first) + rows_spec(patterns, labels, second.drop_last()))
            + tail =~= rows_spec(patterns, labels, first) + (rows_spec(
            patterns,
            labels,
            second.drop_last(),
        ) + tail));
    }
}

proof fn lemma_line_row_width(patterns: Seq<Seq<char>>, labels: Seq<Seq<char>>, line: Seq<char>)
    ensures
        line_row(patterns, labels, line) matches Some(r) ==> r.len() == labels.len(),
    decreases patterns.len(),
{
    if patterns.len() == 0 {
    } else if line_matches(patterns[0], line) {
    } else {
        lemma_line_row_width(patterns.drop_first(), labels, line);
    }
}

/// Law: every emitted row has exactly one cell per declared label.
pub proof fn lemma_row_width(patterns: Seq<Seq<char>>, labels: Seq<Seq<char>>, lines: Seq<
    Seq<char>,
>)
    ensures
        forall|i: int|
            0 <= i < rows_spec(patterns, labels, lines).len() ==> #[trigger] rows_spec(
                patterns,
                labels,
                lines,
            )[i].len() == labels.len(),
    decreases lines.len(),
{
    if lines.len() == 0 {
    } else {
        lemma_row_width(patterns, labels, lines.drop_last());
        lemma_line_row_width(patterns, labels, lines.last());
        let prev = rows_spec(patterns, labels, lines.drop_last());
        let whole = rows_spec(patterns, labels, lines);
        assert forall|i: int| 0 <= i < whole.len() implies #[trigger] whole[i].len()
            == labels.len() by {
            match line_row(patterns, labels, lines.last()) {
                Some(r) => {
                    assert(whole == prev + seq![r]);
                    if i < prev.len() {
                        assert(whole[i] == prev[i]);
                    } else {
                        assert(whole[i] == r);
                    }
                },
                None => {
                    assert(whole =~= prev);
                },
            }
        }
    }
}

/// Law: any table the extractor emits survives the CSV round trip, as long as
/// it has at least one output label.
pub proof fn lemma_extracted_csv_round_trip(
    patterns: Seq<Seq<char>>,
    labels: Seq<Seq<char>>,
    lines: Seq<Seq<char>>,
)
    requires
        labels.len() >= 1,
    ensures
        parse_csv(csv_text(labels, rows_spec(patterns, labels, lines))) == Some(
            (labels, rows_spec(patterns, labels, lines)),
        ),
{
    lemma_row_width(patterns, labels, lines);
    lemma_csv_round_trip(labels, rows_spec(patterns, labels, lines));
}

} // verus!
