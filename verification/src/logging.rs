use vstd::prelude::*;

verus! {

/// One line of a benchmark log, as structured data. Rendering these to
/// text and writing them to a file is display work that stays outside the
/// library.
#[derive(Clone, Copy, Debug, PartialEq, Eq, Structural)]
pub enum LogEntry {
    /// Marks the start of the series-creation insertions.
    BeginInsertSeries,
    /// Marks the start of the point-distribution insertions.
    BeginInsertPoints,
    /// Marks the start of the select phase.
    BeginSelectQueries,
    /// Periodic progress line of an insert phase.
    InsertProgress { average_ms: u64, query_ms: u64 },
    /// Per-query progress line of the select phase.
    SelectProgress { index: usize, average_ms: u64, query_ms: u64 },
    /// Summary line closing an insert phase.
    InsertSummary { queries: usize, total_ms: u64 },
    /// Summary line closing the select phase.
    SelectSummary { queries: usize, total_ms: u64, points_per_series: usize },
}

/// Append-only sink for the log lines of one test case. The runner owns
/// one per test case; whoever runs the benchmark drains the entries into
/// whatever destination it likes afterwards.
pub struct ResultLogger {
    entries: Vec<LogEntry>,
}

impl View for ResultLogger {
    type V = Seq<LogEntry>;

    closed spec fn view(&self) -> Seq<LogEntry> {
        self.entries@
    }
}

impl ResultLogger {
    pub fn new() -> (r: ResultLogger)
        ensures
            r@ == Seq::<LogEntry>::empty(),
    {
        ResultLogger { entries: Vec::new() }
    }

    pub fn append(&mut self, entry: LogEntry)
        ensures
            final(self)@ == old(self)@.push(entry),
    {
        self.entries.push(entry);
    }

    pub fn len(&self) -> (r: usize)
        ensures
            r == self@.len(),
    {
        self.entries.len()
    }

    pub fn entries(&self) -> (r: &Vec<LogEntry>)
        ensures
            r@ == self@,
    {
        &self.entries
    }
}

} // verus!
