//! The run configuration: an ordered, non-empty list of source names (a path
//! or `-` for standard input) and the two numbering flags.

use vstd::prelude::*;

verus! {

/// An immutable configuration, built once by the argument resolver.
///
/// Nonblank numbering overrides all-line numbering, so a well-formed
/// configuration never has both flags set; `Config::new` enforces that, and
/// the default source list is the single token `-`.
#[derive(Debug)]
pub struct Config {
    /// The sources to read, in order; `-` names standard input.
    pub sources: Vec<String>,
    /// Number every line.
    pub number_all_lines: bool,
    /// Number only non-blank lines; overrides `number_all_lines`.
    pub number_nonblank_lines: bool,
}

impl Config {
    /// The invariant established at build time: at least one source, and the
    /// two flags never both active.
    pub open spec fn wf(&self) -> bool {
        &&& self.sources@.len() > 0
        &&& !(self.number_all_lines && self.number_nonblank_lines)
    }

    /// Builds a configuration: an empty source list defaults to `-` alone,
    /// and nonblank numbering switches all-line numbering off.
    pub fn new(sources: Vec<String>, number_all: bool, number_nonblank: bool) -> (c: Config)
        ensures
            c.wf(),
            c.number_nonblank_lines == number_nonblank,
            c.number_all_lines == (number_all && !number_nonblank),
            sources@.len() > 0 ==> c.sources@ == sources@,
            sources@.len() == 0 ==> c.sources@.len() == 1 && c.sources@[0]@ == "-"@,
    {
        let mut sources = sources;
        if sources.len() == 0 {
            sources.push(String::from_str("-"));
        }
        Config {
            sources,
            number_all_lines: number_all && !number_nonblank,
            number_nonblank_lines: number_nonblank,
        }
    }
}

} // verus!
