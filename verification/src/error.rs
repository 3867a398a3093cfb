//! The fatal error taxonomy: every failure aborts the whole run, there is no
//! local recovery or partial output anywhere in the core.

use vstd::prelude::*;

verus! {

/// A fatal condition. `Pattern`: an expression failed to compile.
/// `Resolution`: a named view is absent from the configuration. `Io`: a read
/// or write failed. `Config`: the configuration file is missing or malformed.
#[derive(Debug)]
pub enum TablexError {
    Pattern { expression: String },
    Resolution { name: String },
    Io { detail: String },
    Config { detail: String },
}

impl TablexError {
    /// A fixed diagnostic phrase for the error's category.
    pub fn category(&self) -> (r: &'static str)
        ensures
            (self is Pattern ==> r@ == "regex does not compile"@),
            (self is Resolution ==> r@ == "no views by that name found"@),
            (self is Io ==> r@ == "read or write failed"@),
            (self is Config ==> r@ == "bad configuration"@),
    {
        match self {
            TablexError::Pattern { .. } => "regex does not compile",
            TablexError::Resolution { .. } => "no views by that name found",
            TablexError::Io { .. } => "read or write failed",
            TablexError::Config { .. } => "bad configuration",
        }
    }
}

} // verus!
