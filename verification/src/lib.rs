//! Extracts structured rows from line-oriented text by matching regular
//! expressions with named capture groups against each line, and renders the
//! extracted rows as a table: a bordered grid or CSV.

use vstd::prelude::*;

pub mod error;
pub mod extract;
pub mod format;
pub mod laws;
pub mod pattern;
pub mod render;
pub mod table;
pub mod view;

pub use error::TablexError;
pub use format::OutputFormat;
pub use format::parse_output_format;
pub use pattern::Pattern;
pub use table::Table;
pub use view::Config;
pub use view::InputRef;
pub use view::Job;
pub use view::ViewConfig;

verus! {

} // verus!
