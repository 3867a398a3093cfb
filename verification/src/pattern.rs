//! Compiled patterns. A pattern is a compiled regular expression together
//! with its label set: the names of its named capture groups, in declaration
//! order. Matching and capture lookup go through the `regex` crate; what the
//! crate computes is named by uninterpreted spec functions, and everything
//! around those calls is verified.

use vstd::prelude::*;
use vstd::string::StringExecFns;
use crate::error::TablexError;

verus! {

#[verifier::external_type_specification]
#[verifier::external_body]
pub struct ExRegex(regex::Regex);

#[verifier::external_type_specification]
#[verifier::external_body]
pub struct ExRegexError(regex::Error);

/// Names the expression a compiled `regex::Regex` holds, as
/// `regex::Regex::as_str` returns it.
pub uninterp spec fn regex_source(re: regex::Regex) -> Seq<char>;

/// Names whether `regex::Regex::new` accepts an expression.
pub uninterp spec fn regex_ok(pattern: Seq<char>) -> bool;

/// Names what `regex::Regex::capture_names` yields for a pattern: one entry
/// per capture group in declaration order, `None` for an unnamed group (the
/// implicit whole-match group comes first and is unnamed).
pub uninterp spec fn capture_names_of(pattern: Seq<char>) -> Seq<Option<Seq<char>>>;

/// Names whether `regex::Regex::is_match` finds a match of the pattern
/// anywhere in a line.
pub uninterp spec fn line_matches(pattern: Seq<char>, line: Seq<char>) -> bool;

/// Names the text that the capture group called `name` captured in the
/// leftmost match of the pattern on the line: `None` when the line does not
/// match, when the pattern has no group of that name, or when the group did
/// not participate in the match.
pub uninterp spec fn named_capture(pattern: Seq<char>, line: Seq<char>, name: Seq<char>) -> Option<
    Seq<char>,
>;

/// Relies on `regex::Regex::new`: it compiles the expression or rejects it,
/// and `as_str` on the compiled value returns the expression unchanged.
#[verifier::external_body]
fn regex_new(pattern: &str) -> (r: Result<regex::Regex, regex::Error>)
    ensures
        r is Ok <==> regex_ok(pattern@),
        (r matches Ok(re) ==> regex_source(re) == pattern@),
{
    regex::Regex::new(pattern)
}

/// Relies on `regex::Regex::capture_names`: it yields every capture group's
/// name in declaration order, `None` for each unnamed group.
#[verifier::external_body]
fn regex_capture_names(re: &regex::Regex) -> (r: Vec<Option<String>>)
    ensures
        r.deep_view() == capture_names_of(regex_source(*re)),
{
    re.capture_names().map(|n| n.map(|s| s.to_string())).collect()
}

/// Relies on `regex::Regex::is_match`: whether the line matches the pattern.
#[verifier::external_body]
fn regex_is_match(re: &regex::Regex, line: &str) -> (r: bool)
    ensures
        r == line_matches(regex_source(*re), line@),
{
    re.is_match(line)
}

/// Relies on `regex::Regex::captures` and `regex::Captures::name`: the text
/// the group called `name` captured in the leftmost match, if any.
#[verifier::external_body]
fn regex_named_capture(re: &regex::Regex, line: &str, name: &str) -> (r: Option<String>)
    ensures
        r.deep_view() == named_capture(regex_source(*re), line@, name@),
{
    re.captures(line).and_then(|c| c.name(name)).map(|m| m.as_str().to_string())
}

/// The names among a pattern's capture groups, in declaration order: unnamed
/// groups contribute no label.
pub open spec fn named_of(names: Seq<Option<Seq<char>>>) -> Seq<Seq<char>>
    decreases names.len(),
{
    if names.len() == 0 {
        Seq::empty()
    } else {
        let rest = named_of(names.drop_last());
        match names.last() {
            Some(n) => rest.push(n),
            None => rest,
        }
    }
}

/// A pattern's label set: the names of its named capture groups, in
/// declaration order.
pub open spec fn labels_spec(pattern: Seq<char>) -> Seq<Seq<char>> {
    named_of(capture_names_of(pattern))
}

/// A compiled regular expression and its label set.
pub struct Pattern {
    source: String,
    re: regex::Regex,
    labels: Vec<String>,
}

impl Pattern {
    #[verifier::type_invariant]
    spec fn inv(self) -> bool {
        &&& regex_ok(self.source@)
        &&& regex_source(self.re) == self.source@
        &&& self.labels.deep_view() == labels_spec(self.source@)
    }

    /// The expression this pattern was compiled from.
    pub closed spec fn spec_source(self) -> Seq<char> {
        self.source@
    }

    /// The pattern's label set.
    pub closed spec fn spec_labels(self) -> Seq<Seq<char>> {
        self.labels.deep_view()
    }

    /// Compiles an expression. Compilation failure is fatal for the job that
    /// references the expression; there is no partial compilation.
    pub fn compile(expression: &str) -> (r: Result<Pattern, TablexError>)
        ensures
            r is Ok <==> regex_ok(expression@),
            (r matches Ok(p) ==> p.spec_source() == expression@ && p.spec_labels() == labels_spec(
                expression@,
            )),
            (r matches Err(e) ==> (e matches TablexError::Pattern { expression: x } && x@
                == expression@)),
    {
        match regex_new(expression) {
            Ok(re) => {
                let labels = regex_capture_names_filtered(&re);
                Ok(Pattern { source: String::from_str(expression), re, labels })
            },
            Err(_) => Err(TablexError::Pattern { expression: String::from_str(expression) }),
        }
    }

    /// The expression the pattern was compiled from.
    pub fn source(&self) -> (r: &str)
        ensures
            r@ == self.spec_source(),
    {
        proof {
            use_type_invariant(&*self);
        }
        self.source.as_str()
    }

    /// The pattern's labels, in declaration order.
    pub fn labels(&self) -> (r: &Vec<String>)
        ensures
            r.deep_view() == self.spec_labels(),
            r.deep_view() == labels_spec(self.spec_source()),
    {
        proof {
            use_type_invariant(&*self);
        }
        &self.labels
    }

    /// Whether the line matches this pattern.
    pub fn matches(&self, line: &str) -> (r: bool)
        ensures
            r == line_matches(self.spec_source(), line@),
    {
        proof {
            use_type_invariant(&*self);
        }
        regex_is_match(&self.re, line)
    }

    /// The text the group called `name` captured in the leftmost match of
    /// this pattern on the line, if any.
    pub fn capture(&self, line: &str, name: &str) -> (r: Option<String>)
        ensures
            r.deep_view() == named_capture(self.spec_source(), line@, name@),
    {
        proof {
            use_type_invariant(&*self);
        }
        regex_named_capture(&self.re, line, name)
    }
}

/// Keeps the named entries of a capture-name listing, in order.
fn regex_capture_names_filtered(re: &regex::Regex) -> (r: Vec<String>)
    ensures
        r.deep_view() == labels_spec(regex_source(*re)),
{
    let names = regex_capture_names(re);
    let mut out: Vec<String> = Vec::new();
    let mut i: usize = 0;
    while i < names.len()
        invariant
            i <= names.len(),
            names.deep_view() == capture_names_of(regex_source(*re)),
            out.deep_view() == named_of(names.deep_view().take(i as int)),
        decreases names.len() - i,
    {
        assert(names.deep_view().take(i as int + 1).drop_last() =~= names.deep_view().take(
            i as int,
        ));
        assert(names.deep_view().take(i as int + 1).last() == names.deep_view()[i as int]);
        match &names[i] {
            Some(n) => {
                let copied = String::from_str(n.as_str());
                out.push(copied);
                assert(out.deep_view() =~= named_of(names.deep_view().take(i as int + 1)));
            },
            None => {
                assert(out.deep_view() =~= named_of(names.deep_view().take(i as int + 1)));
            },
        }
        i += 1;
    }
    assert(names.deep_view().take(names.len() as int) =~= names.deep_view());
    out
}

} // verus!
