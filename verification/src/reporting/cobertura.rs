//! The part of the Cobertura report that is counted rather than written:
//! its lines, and the errors of its export.

use crate::traces::{Trace, TraceMap};
use vstd::prelude::*;

verus! {

/// Why a report could not be made.
#[derive(Debug, Clone, Copy, PartialEq, Eq, Structural)]
pub enum Error {
    /// The cause is not known.
    Unknown,
    /// The report could not be written out.
    ExportError,
}

impl Error {
    /// What the error is, in words.
    pub fn description(&self) -> (text: String)
        ensures
            text@ == match self {
                Error::ExportError => "Export Error"@,
                Error::Unknown => "Unknown Error"@,
            },
    {
        match self {
            Error::ExportError => "Export Error".to_string(),
            Error::Unknown => "Unknown Error".to_string(),
        }
    }

    /// The error behind this one: there is never one.
    pub fn cause(&self) -> (behind: Option<Error>)
        ensures
            behind is None,
    {
        None
    }
}

/// One line of a report.
#[derive(Debug, Clone, Copy, PartialEq, Eq, Structural)]
pub enum Line {
    /// A line without branches: its number and how often it ran.
    Plain { number: u64, hits: u64 },
}

/// The report's line for one record of the coverage sink.
pub open spec fn line_of(trace: Trace) -> Line {
    Line::Plain { number: trace.line, hits: trace.hits }
}

/// The report's line for one record of the coverage sink.
pub fn render_line(trace: &Trace) -> (line: Line)
    ensures
        line == line_of(*trace),
{
    Line::Plain { number: trace.line, hits: trace.hits }
}

/// The report's lines for the records of the coverage sink, in their order.
pub fn render_lines(traces: &TraceMap) -> (lines: Vec<Line>)
    ensures
        lines@ == traces@.map_values(|t: Trace| line_of(t)),
{
    let mut lines: Vec<Line> = Vec::new();
    let mut i: usize = 0;
    while i < traces.len()
        invariant
            i <= traces@.len(),
            lines@ == traces@.take(i as int).map_values(|t: Trace| line_of(t)),
        decreases traces@.len() - i,
    {
        match traces.get(i) {
            Some(trace) => {
                lines.push(render_line(&trace));
                assert(lines@ =~= traces@.take(i + 1).map_values(|t: Trace| line_of(t)));
            },
            None => {},
        }
        i += 1;
    }
    assert(traces@.take(i as int) =~= traces@);
    lines
}

} // verus!
