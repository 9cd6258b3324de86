//! Progress reports of long-running operations.

use vstd::prelude::*;
use crate::json::decimal_string;
use crate::text::decimal_text;
use crate::text::join3;

verus! {

broadcast use vstd::string::group_string_axioms;

/// Where a long-running operation stands.
#[derive(Debug, Clone, Copy, PartialEq, Eq)]
pub enum ProgressPhase {
    Started,
    Progress,
    Completed,
    Failed,
}

/// One report of a long-running operation.
#[derive(Debug)]
pub struct ProgressUpdate {
    /// What ties the reports of one operation together.
    pub correlation_id: String,
    pub phase: ProgressPhase,
    pub message: String,
    pub completed_count: Option<usize>,
    pub total: Option<usize>,
}

/// The mathematical value of a `ProgressUpdate`.
pub ghost struct ProgressUpdateView {
    pub correlation_id: Seq<char>,
    pub phase: ProgressPhase,
    pub message: Seq<char>,
    pub completed_count: Option<usize>,
    pub total: Option<usize>,
}

impl View for ProgressUpdate {
    type V = ProgressUpdateView;

    open spec fn view(&self) -> ProgressUpdateView {
        ProgressUpdateView {
            correlation_id: self.correlation_id@,
            phase: self.phase,
            message: self.message@,
            completed_count: self.completed_count,
            total: self.total,
        }
    }
}

/// The report that an operation of `total` items has started.
pub open spec fn started_update(id: Seq<char>, message: Seq<char>, total: usize)
    -> ProgressUpdateView {
    ProgressUpdateView {
        correlation_id: id,
        phase: ProgressPhase::Started,
        message,
        completed_count: None,
        total: Some(total),
    }
}

/// The report that `completed` items are done.
pub open spec fn progress_update(id: Seq<char>, message: Seq<char>, completed: usize)
    -> ProgressUpdateView {
    ProgressUpdateView {
        correlation_id: id,
        phase: ProgressPhase::Progress,
        message,
        completed_count: Some(completed),
        total: None,
    }
}

/// The report that an operation has ended.
pub open spec fn completed_update(id: Seq<char>, message: Seq<char>) -> ProgressUpdateView {
    ProgressUpdateView {
        correlation_id: id,
        phase: ProgressPhase::Completed,
        message,
        completed_count: None,
        total: None,
    }
}

/// The report that an operation has failed.
pub open spec fn failed_update(id: Seq<char>, message: Seq<char>) -> ProgressUpdateView {
    ProgressUpdateView {
        correlation_id: id,
        phase: ProgressPhase::Failed,
        message,
        completed_count: None,
        total: None,
    }
}

/// The message of the report that `completed` items are done.
pub open spec fn processed_message(completed: usize) -> Seq<char> {
    "Processed "@ + decimal_text(completed as nat) + " items"@
}

/// The message of the report that `completed` items are done.
pub fn processed_text(completed: usize) -> (out: String)
    ensures
        out@ == processed_message(completed),
{
    let digits = decimal_string(completed as u64);
    join3("Processed ", digits.as_str(), " items")
}

impl ProgressUpdate {
    pub fn started(correlation_id: String, message: String, total: usize) -> (update: Self)
        ensures
            update@ == started_update(correlation_id@, message@, total),
    {
        ProgressUpdate {
            correlation_id,
            phase: ProgressPhase::Started,
            message,
            completed_count: None,
            total: Some(total),
        }
    }

    pub fn progress(correlation_id: String, message: String, completed: usize) -> (update: Self)
        ensures
            update@ == progress_update(correlation_id@, message@, completed),
    {
        ProgressUpdate {
            correlation_id,
            phase: ProgressPhase::Progress,
            message,
            completed_count: Some(completed),
            total: None,
        }
    }

    pub fn completed(correlation_id: String, message: String) -> (update: Self)
        ensures
            update@ == completed_update(correlation_id@, message@),
    {
        ProgressUpdate {
            correlation_id,
            phase: ProgressPhase::Completed,
            message,
            completed_count: None,
            total: None,
        }
    }

    pub fn failed(correlation_id: String, message: String) -> (update: Self)
        ensures
            update@ == failed_update(correlation_id@, message@),
    {
        ProgressUpdate {
            correlation_id,
            phase: ProgressPhase::Failed,
            message,
            completed_count: None,
            total: None,
        }
    }
}

/// The views of a sequence of reports.
pub open spec fn updates_view(updates: Seq<ProgressUpdate>) -> Seq<ProgressUpdateView> {
    Seq::new(updates.len(), |i: int| updates[i]@)
}

/// A sink of progress reports: it keeps them in the order in which they
/// came.
#[derive(Debug)]
pub struct ProgressReporter {
    pub updates: Vec<ProgressUpdate>,
}

impl ProgressReporter {
    /// The reports so far.
    pub open spec fn reported(&self) -> Seq<ProgressUpdateView> {
        updates_view(self.updates@)
    }

    /// A reporter without reports.
    pub fn new() -> (reporter: Self)
        ensures
            reporter.reported().len() == 0,
    {
        ProgressReporter { updates: Vec::new() }
    }

    /// Takes one report.
    pub fn report_progress(&mut self, update: ProgressUpdate)
        ensures
            final(self).reported() == old(self).reported().push(update@),
    {
        let ghost before = self.reported();
        self.updates.push(update);
        assert(self.reported() =~= before.push(update@));
    }

    /// The number of reports so far.
    pub fn len(&self) -> (n: usize)
        ensures
            n == self.reported().len(),
    {
        self.updates.len()
    }
}

} // verus!
