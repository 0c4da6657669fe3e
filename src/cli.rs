use vstd::prelude::*;

verus! {

/// How listings are printed.
#[derive(Clone, Copy, Debug, PartialEq, Eq, Structural)]
pub enum OutputFormat {
    /// Human-readable table.
    Table,
    Json,
    Yaml,
}

/// Prints listings in one output format.
pub struct OutputFormatter {
    pub format: OutputFormat,
}

impl OutputFormatter {
    pub fn new(format: OutputFormat) -> (r: OutputFormatter)
        ensures
            r.format == format,
    {
        OutputFormatter { format }
    }
}

/// State of the terminal interface.
#[derive(Clone, Copy, Debug, PartialEq, Eq, Structural)]
pub enum AppState {
    Loading,
    Browsing,
    Searching,
    Details,
    Scanning,
}

/// Screen of the terminal interface.
#[derive(Clone, Copy, Debug, PartialEq, Eq, Structural)]
pub enum View {
    ProjectList,
    ProjectDetails,
    Help,
    Errors,
}

/// Order of the project list.
#[derive(Clone, Copy, Debug, PartialEq, Eq, Structural)]
pub enum SortMode {
    Path,
    Type,
    Date,
}

} // verus!
