//! Reports of problems, kept for the status sink.

use crate::handle::IoErrorKind;
use vstd::prelude::*;

verus! {

/// How serious a reported problem is.
#[derive(Clone, Copy, Debug, PartialEq, Eq, Structural)]
pub enum Severity {
    /// The engine goes on without what failed.
    Warning,
    /// An operation failed that the engine asked for.
    Error,
    /// The engine cannot go on, or the call boundary was misused.
    Fatal,
}

/// What went wrong.
#[derive(Clone, Copy, Debug, PartialEq, Eq, Structural)]
pub enum Problem {
    /// Text handed over by the engine itself.
    EngineMessage,
    OpenInputFailed(IoErrorKind),
    OpenOutputFailed(IoErrorKind),
    OpenStdoutFailed(IoErrorKind),
    PrimaryInputMissing,
    PrimaryInputFailed(IoErrorKind),
    DigestOpenFailed(IoErrorKind),
    CloseOutputFailed(IoErrorKind),
    SeekFailed(IoErrorKind),
    ReadFailed(IoErrorKind),
    GetcFailed(IoErrorKind),
    UngetcFailed(IoErrorKind),
    /// A handle that is not open was used.
    UnknownHandle,
    /// A seek mode that does not exist was asked for.
    UnknownWhence(i32),
}

/// One report: its severity, the problem, and the name or text it concerns.
pub struct Report {
    pub severity: Severity,
    pub problem: Problem,
    pub subject: Vec<u8>,
}

/// A report, over plain values.
pub struct ReportView {
    pub severity: Severity,
    pub problem: Problem,
    pub subject: Seq<u8>,
}

impl View for Report {
    type V = ReportView;

    open spec fn view(&self) -> ReportView {
        ReportView { severity: self.severity, problem: self.problem, subject: self.subject@ }
    }
}

} // verus!
