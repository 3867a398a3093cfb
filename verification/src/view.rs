//! Views and their resolution. A view is one extraction job: compiled
//! patterns, the declared output label set, and an input reference. It is
//! resolved either ad hoc from a single expression, or by name from a loaded
//! configuration mapping; a missing name is fatal.

use vstd::prelude::*;
use vstd::string::StrSliceExecFns;
use vstd::string::StringExecFns;
use crate::error::TablexError;
use crate::extract::lines_spec;
use crate::extract::rows_spec;
use crate::extract::sources_of;
use crate::extract::extract_text;
use crate::extract::extract_text_par;
use crate::pattern::Pattern;
use crate::pattern::labels_spec;
use crate::pattern::regex_ok;
use crate::table::Table;
use crate::table::clone_strings;

verus! {

/// Where the input text comes from: a named file, or the standard input
/// stream when no path was given.
pub enum InputRef {
    File(String),
    StdIn,
}

/// A fully resolved extraction job: compiled patterns tried in declaration
/// order, the declared output labels, an input reference, and the view's name
/// as grid title in the named flow.
pub struct Job {
    pub title: Option<String>,
    pub patterns: Vec<Pattern>,
    pub labels: Vec<String>,
    pub input: InputRef,
}

/// One named entry of the configuration mapping.
pub struct ViewConfig {
    pub name: String,
    pub patterns: Vec<String>,
    pub labels: Vec<String>,
    pub file: String,
}

/// The loaded configuration: a mapping from view names to view entries.
pub struct Config {
    pub views: Vec<ViewConfig>,
}

/// The first configuration entry carrying the requested name, if any.
pub open spec fn lookup_spec(entries: Seq<ViewConfig>, name: Seq<char>) -> Option<ViewConfig>
    decreases entries.len(),
{
    if entries.len() == 0 {
        None
    } else if entries[0].name@ == name {
        Some(entries[0])
    } else {
        lookup_spec(entries.drop_first(), name)
    }
}

/// Character-for-character string equality.
fn str_eq(a: &str, b: &str) -> (r: bool)
    ensures
        r == (a@ == b@),
{
    let alen = a.unicode_len();
    let blen = b.unicode_len();
    if alen != blen {
        return false;
    }
    let mut i: usize = 0;
    while i < alen
        invariant
            i <= alen,
            alen == a@.len(),
            alen == b@.len(),
            forall|j: int| 0 <= j < i ==> a@[j] == b@[j],
        decreases alen - i,
    {
        let ca = a.get_char(i);
        let cb = b.get_char(i);
        if ca != cb {
            return false;
        }
        i += 1;
    }
    assert(a@ =~= b@);
    true
}

fn find_entry<'a>(entries: &'a Vec<ViewConfig>, name: &str) -> (r: Option<&'a ViewConfig>)
    ensures
        (match r {
            Some(e) => lookup_spec(entries@, name@) == Some(*e),
            None => lookup_spec(entries@, name@) is None,
        }),
{
    let mut i: usize = 0;
    proof {
        assert(entries@.skip(0) =~= entries@);
    }
    while i < entries.len()
        invariant
            i <= entries.len(),
            lookup_spec(entries@, name@) == lookup_spec(entries@.skip(i as int), name@),
        decreases entries.len() - i,
    {
        assert(entries@.skip(i as int)[0] == entries@[i as int]);
        if str_eq(entries[i].name.as_str(), name) {
            return Some(&entries[i]);
        }
        assert(entries@.skip(i as int).drop_first() =~= entries@.skip(i as int + 1));
        i += 1;
    }
    assert(entries@.skip(entries.len() as int) =~= Seq::<ViewConfig>::empty());
    None
}

/// Compiles every expression, in order; the first one that fails to compile
/// aborts with its pattern error.
fn compile_all(exprs: &Vec<String>) -> (r: Result<Vec<Pattern>, TablexError>)
    ensures
        r is Ok <==> (forall|i: int|
            0 <= i < exprs.deep_view().len() ==> regex_ok(exprs.deep_view()[i])),
        (r matches Ok(ps) ==> sources_of(ps@) == exprs.deep_view()),
        (r matches Err(e) ==> exists|i: int|
            0 <= i < exprs.deep_view().len() && !regex_ok(exprs.deep_view()[i]) && (forall|j: int|
                0 <= j < i ==> regex_ok(exprs.deep_view()[j])) && (e
                matches TablexError::Pattern { expression: x } && x@ == exprs.deep_view()[i])),
{
    let ghost dv = exprs.deep_view();
    let mut out: Vec<Pattern> = Vec::new();
    let mut i: usize = 0;
    while i < exprs.len()
        invariant
            i <= exprs.len(),
            dv == exprs.deep_view(),
            dv.len() == exprs@.len(),
            sources_of(out@) == dv.take(i as int),
            out@.len() == i,
            forall|j: int| 0 <= j < i ==> regex_ok(dv[j]),
        decreases exprs.len() - i,
    {
        assert(dv[i as int] == exprs@[i as int]@);
        match Pattern::compile(exprs[i].as_str()) {
            Ok(p) => {
                let ghost prevs = out@;
                out.push(p);
                proof {
                    assert forall|k: int| 0 <= k < i + 1 implies #[trigger] sources_of(out@)[k]
                        == dv.take(i as int + 1)[k] by {
                        if k < i {
                            assert(out@[k] == prevs[k]);
                            assert(sources_of(prevs)[k] == dv.take(i as int)[k]);
                        }
                    }
                    assert(sources_of(out@) =~= dv.take(i as int + 1));
                }
            },
            Err(e) => {
                assert(!regex_ok(dv[i as int]));
                return Err(e);
            },
        }
        i += 1;
    }
    assert(dv.take(exprs.len() as int) =~= dv);
    Ok(out)
}

/// Resolves an ad-hoc view: one expression supplied directly, the declared
/// label set equal to that pattern's own labels, and the input the given file
/// path or standard input when none was given.
pub fn resolve_adhoc(expression: &str, input_path: Option<String>) -> (r: Result<
    Job,
    TablexError,
>)
    ensures
        r is Ok <==> regex_ok(expression@),
        (r matches Ok(v) ==> {
            &&& sources_of(v.patterns@) =~= seq![expression@]
            &&& v.labels.deep_view() == labels_spec(expression@)
            &&& v.title is None
            &&& (match input_path {
                Some(p) => v.input matches InputRef::File(f) && f@ == p@,
                None => v.input is StdIn,
            })
        }),
        (r matches Err(e) ==> (e matches TablexError::Pattern { expression: x } && x@
            == expression@)),
{
    let pattern = match Pattern::compile(expression) {
        Ok(p) => p,
        Err(e) => {
            return Err(e);
        },
    };
    let labels = clone_strings(pattern.labels());
    let input = match input_path {
        Some(p) => InputRef::File(p),
        None => InputRef::StdIn,
    };
    let mut patterns: Vec<Pattern> = Vec::new();
    patterns.push(pattern);
    proof {
        assert(sources_of(patterns@) =~= seq![expression@]);
    }
    Ok(Job { title: None, patterns, labels, input })
}

/// Resolves a named view from the configuration mapping. A name absent from
/// the configuration is a fatal resolution error; a pattern of the entry that
/// does not compile is a fatal pattern error.
pub fn resolve_named(config: &Config, name: &str) -> (r: Result<Job, TablexError>)
    ensures
        r is Ok <==> (lookup_spec(config.views@, name@) matches Some(entry) && (forall|i: int|
            0 <= i < entry.patterns.deep_view().len() ==> regex_ok(entry.patterns.deep_view()[i]))),
        (lookup_spec(config.views@, name@) is None ==> (r matches Err(e) && e
            matches TablexError::Resolution { name: n } && n@ == name@)),
        (r matches Ok(v) ==> lookup_spec(config.views@, name@) matches Some(entry) && {
            &&& sources_of(v.patterns@) == entry.patterns.deep_view()
            &&& v.labels.deep_view() == entry.labels.deep_view()
            &&& (v.title matches Some(t) && t@ == name@)
            &&& (v.input matches InputRef::File(f) && f@ == entry.file@)
        }),
        (lookup_spec(config.views@, name@) matches Some(entry) ==> (r matches Err(e) ==> (e
            matches TablexError::Pattern { expression: x } && exists|i: int|
            0 <= i < entry.patterns.deep_view().len() && !regex_ok(entry.patterns.deep_view()[i])
                && x@ == entry.patterns.deep_view()[i]))),
{
    let entry = match find_entry(&config.views, name) {
        Some(e) => e,
        None => {
            return Err(TablexError::Resolution { name: String::from_str(name) });
        },
    };
    let patterns = match compile_all(&entry.patterns) {
        Ok(ps) => ps,
        Err(e) => {
            return Err(e);
        },
    };
    let labels = clone_strings(&entry.labels);
    let file = entry.file.clone();
    Ok(Job { title: Some(String::from_str(name)), patterns, labels, input: InputRef::File(file) })
}

/// Builds the table for a resolved view and its input text: the declared
/// labels as header and one row per matching line, in line order. Parallel
/// and sequential extraction produce the same table.
pub fn build_table(job: &Job, text: &str, parallel: bool) -> (t: Table)
    ensures
        t.labels.deep_view() == job.labels.deep_view(),
        t.title.deep_view() == job.title.deep_view(),
        t.rows.deep_view() == rows_spec(
            sources_of(job.patterns@),
            job.labels.deep_view(),
            lines_spec(text@),
        ),
{
    let rows = if parallel {
        extract_text_par(&job.patterns, &job.labels, text)
    } else {
        extract_text(&job.patterns, &job.labels, text)
    };
    let labels = clone_strings(&job.labels);
    let title = match &job.title {
        Some(t) => Some(t.clone()),
        None => None,
    };
    Table { title, labels, rows }
}

/// The configuration file's path, resolved from the base-directory
/// environment value with a home-directory fallback: no base directory at all
/// is a fatal condition for the named flow.
pub fn config_path(xdg_config_home: Option<String>, home: Option<String>) -> (r: Option<String>)
    ensures
        (xdg_config_home matches Some(x) ==> (r matches Some(p) && p@ == x@
            + "/tablex/config.toml"@)),
        (xdg_config_home is None ==> (home matches Some(h) ==> (r matches Some(p) && p@ == h@
            + "/tablex/config.toml"@))),
        (xdg_config_home is None && home is None ==> r is None),
{
    match xdg_config_home {
        Some(x) => Some(x.concat("/tablex/config.toml")),
        None => match home {
            Some(h) => Some(h.concat("/tablex/config.toml")),
            None => None,
        },
    }
}

} // verus!
