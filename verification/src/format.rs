//! The output-format selector: grid (`ascii`) or CSV (`csv`), chosen by a
//! case-insensitive textual name.

use vstd::prelude::*;
use vstd::string::StrSliceExecFns;
use vstd::string::StringExecFns;

verus! {

/// The two supported serializations of a table.
#[derive(Debug, Clone, Copy, PartialEq, Eq, Structural)]
pub enum OutputFormat {
    Csv,
    Ascii,
}

/// Two characters are equal up to ASCII case.
pub open spec fn ci_eq_char(a: char, b: char) -> bool {
    ||| a == b
    ||| (65 <= a as int <= 90 && a as int + 32 == b as int)
    ||| (65 <= b as int <= 90 && b as int + 32 == a as int)
}

/// Two strings are equal up to ASCII case, character by character.
pub open spec fn ci_eq(a: Seq<char>, b: Seq<char>) -> bool {
    a.len() == b.len() && (forall|i: int| 0 <= i < a.len() ==> ci_eq_char(a[i], b[i]))
}

fn ci_eq_char_exec(a: char, b: char) -> (r: bool)
    ensures
        r == ci_eq_char(a, b),
{
    let au = a as u32;
    let bu = b as u32;
    au == bu || (65 <= au && au <= 90 && au + 32 == bu) || (65 <= bu && bu <= 90 && bu + 32 == au)
}

fn ci_eq_str(a: &str, b: &str) -> (r: bool)
    ensures
        r == ci_eq(a@, b@),
{
    let alen = a.unicode_len();
    let blen = b.unicode_len();
    if alen != blen {
        return false;
    }
    let mut i: usize = 0;
    while i < alen
        invariant
            i <= alen,
            alen == a@.len(),
            alen == b@.len(),
            forall|j: int| 0 <= j < i ==> ci_eq_char(a@[j], b@[j]),
        decreases alen - i,
    {
        let ca = a.get_char(i);
        let cb = b.get_char(i);
        if !ci_eq_char_exec(ca, cb) {
            assert(!ci_eq_char(a@[i as int], b@[i as int]));
            return false;
        }
        i += 1;
    }
    true
}

/// Parses the textual output-format selector, case-insensitively: `csv` or
/// `ascii`, anything else is rejected.
pub fn parse_output_format(src: &str) -> (r: Result<OutputFormat, String>)
    ensures
        (r == Ok::<OutputFormat, String>(OutputFormat::Csv)) <==> ci_eq(src@, "csv"@),
        (r == Ok::<OutputFormat, String>(OutputFormat::Ascii)) <==> ci_eq(src@, "ascii"@),
        r is Err <==> (!ci_eq(src@, "csv"@) && !ci_eq(src@, "ascii"@)),
        r matches Err(m) ==> m@ == "Outputformat does not exists!"@,
{
    proof {
        reveal_strlit("csv");
        reveal_strlit("ascii");
    }
    if ci_eq_str(src, "csv") {
        Ok(OutputFormat::Csv)
    } else if ci_eq_str(src, "ascii") {
        Ok(OutputFormat::Ascii)
    } else {
        Err(String::from_str("Outputformat does not exists!"))
    }
}

} // verus!
