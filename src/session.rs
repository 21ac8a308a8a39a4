//! The state of one engine invocation: the resolution stack, the tables of
//! open handles, and the notifications and reports that it produced.

use crate::compress::{gzip, gzip_of};
use crate::digest::{md5_digest, md5_of};
use crate::events::{EventView, IoEvent};
use crate::format::FileFormat;
use crate::handle::{
    getc_spec, input_fingerprint, input_wf, read_exact_spec, seek_spec, ungetc_spec, InputHandle,
    InputOrigin, InputView, IoErrorKind, OutputHandle, OutputView, SeekFrom,
};
use crate::provider::{copy_bytes, stdout_answer, stdout_taken, stored, Answer, OpenResult, ProviderView};
use crate::stack::{first_primary, index_of, output_target, resolve, resolve_gz, stdout_target, IoStack};
use crate::status::{Problem, Report, ReportView, Severity};
use vstd::prelude::*;

verus! {

/// The state of a session, over plain values.
pub struct SessionView {
    pub stack: Seq<ProviderView>,
    /// The input table: a token is a position, and a closed handle leaves
    /// `None` behind, so no token is ever reused.
    pub inputs: Seq<Option<InputView>>,
    pub outputs: Seq<Option<OutputView>>,
    pub events: Seq<EventView>,
    pub reports: Seq<ReportView>,
}

/// The invariant of a session: handles are well formed and deliver to a
/// provider of the stack.
pub open spec fn session_wf(s: SessionView) -> bool {
    &&& forall|i: int| 0 <= i < s.inputs.len() && #[trigger] s.inputs[i] is Some ==> input_wf(s.inputs[i]->Some_0)
    &&& forall|i: int| 0 <= i < s.outputs.len() && #[trigger] s.outputs[i] is Some ==> s.outputs[i]->Some_0.target < s.stack.len()
}

/// `t` names an open input handle.
pub open spec fn live_input(s: SessionView, t: int) -> bool {
    0 <= t < s.inputs.len() && s.inputs[t] is Some
}

/// `t` names an open output handle.
pub open spec fn live_output(s: SessionView, t: int) -> bool {
    0 <= t < s.outputs.len() && s.outputs[t] is Some
}

/// `s` with one more report.
pub open spec fn with_report(s: SessionView, severity: Severity, problem: Problem, subject: Seq<u8>) -> SessionView {
    SessionView { reports: s.reports.push(ReportView { severity, problem, subject }), ..s }
}

/// `s` with one more notification.
pub open spec fn with_event(s: SessionView, e: EventView) -> SessionView {
    SessionView { events: s.events.push(e), ..s }
}

/// `s` after a handle that is not open was used: a fatal report.
pub open spec fn misused(s: SessionView) -> SessionView {
    with_report(s, Severity::Fatal, Problem::UnknownHandle, Seq::empty())
}

/// `s` with the input handle `t` replaced by `h`.
pub open spec fn with_input(s: SessionView, t: int, h: InputView) -> SessionView {
    SessionView { inputs: s.inputs.update(t, Some(h)), ..s }
}

/// A handle positioned at the start of `data`.
pub open spec fn fresh_input(name: Seq<u8>, data: Seq<u8>, origin: InputOrigin) -> InputView {
    InputView { name, origin, data, pos: 0, pushback: None, seeked: false }
}

/// Opening an input: a found input is registered under the next token and
/// announced under the name it was found under; a missing one is announced
/// under the name requested; a failure is a warning.
pub open spec fn input_open_spec(s: SessionView, name: Seq<u8>, format: FileFormat, gz: bool) -> (Option<int>, SessionView) {
    match resolve_gz(s.stack, name, format, gz) {
        Answer::Found { name: n, data, origin } => (
            Some(s.inputs.len() as int),
            SessionView {
                inputs: s.inputs.push(Some(fresh_input(n, data, origin))),
                events: s.events.push(EventView::InputOpened(n, origin)),
                ..s
            },
        ),
        Answer::NotFound => (None, with_event(s, EventView::InputNotAvailable(name))),
        Answer::Failed(e) => (None, with_report(s, Severity::Warning, Problem::OpenInputFailed(e), name)),
    }
}

/// Opening the primary input: its absence, like its failure, is fatal.
pub open spec fn input_open_primary_spec(s: SessionView) -> (Option<int>, SessionView) {
    match first_primary(s.stack) {
        Answer::Found { name: n, data, origin } => (
            Some(s.inputs.len() as int),
            SessionView {
                inputs: s.inputs.push(Some(fresh_input(n, data, origin))),
                events: s.events.push(EventView::PrimaryInputOpened(origin)),
                ..s
            },
        ),
        Answer::NotFound => (None, with_report(s, Severity::Fatal, Problem::PrimaryInputMissing, Seq::empty())),
        Answer::Failed(e) => (None, with_report(s, Severity::Fatal, Problem::PrimaryInputFailed(e), Seq::empty())),
    }
}

/// Opening an output: it goes to the first provider that takes outputs.
pub open spec fn output_open_spec(s: SessionView, name: Seq<u8>, gz: bool) -> (Option<int>, SessionView) {
    match output_target(s.stack) {
        Some(i) => (
            Some(s.outputs.len() as int),
            SessionView {
                outputs: s.outputs.push(Some(OutputView { name, target: i as nat, gz, data: Seq::empty() })),
                events: s.events.push(EventView::OutputOpened(name)),
                ..s
            },
        ),
        None => (None, s),
    }
}

/// Opening standard output; a refusal is a warning.
pub open spec fn output_open_stdout_spec(s: SessionView) -> (Option<int>, SessionView) {
    match stdout_target(s.stack) {
        Some(i) => match stdout_answer(s.stack[i]) {
            OpenResult::Failed(e) => (None, with_report(s, Severity::Warning, Problem::OpenStdoutFailed(e), Seq::empty())),
            _ => (
                Some(s.outputs.len() as int),
                SessionView {
                    stack: s.stack.update(i, stdout_taken(s.stack[i])),
                    outputs: s.outputs.push(
                        Some(OutputView { name: Seq::empty(), target: i as nat, gz: false, data: Seq::empty() }),
                    ),
                    events: s.events.push(EventView::StdoutOpened),
                    ..s
                },
            ),
        },
        None => (None, s),
    }
}

/// Writing: the whole buffer is appended; `true` reports an error.
pub open spec fn output_write_spec(s: SessionView, t: int, buf: Seq<u8>) -> (bool, SessionView) {
    if live_output(s, t) {
        let h = s.outputs[t]->Some_0;
        (false, SessionView { outputs: s.outputs.update(t, Some(OutputView { data: h.data + buf, ..h })), ..s })
    } else {
        (true, misused(s))
    }
}

/// Flushing: nothing is pending, so only a handle that is not open fails.
pub open spec fn output_flush_spec(s: SessionView, t: int) -> (bool, SessionView) {
    if live_output(s, t) {
        (false, s)
    } else {
        (true, misused(s))
    }
}

/// Closing an output: it leaves the table, its bytes (gzip-framed if asked)
/// go to its provider, and it is announced with the fingerprint of the bytes
/// written.
pub open spec fn output_close_spec(s: SessionView, t: int) -> (bool, SessionView) {
    if live_output(s, t) {
        let h = s.outputs[t]->Some_0;
        let s1 = SessionView { outputs: s.outputs.update(t, None), ..s };
        let closed = EventView::OutputClosed(h.name, md5_of(h.data));
        if h.gz {
            match gzip_of(h.data) {
                Some(z) => (
                    false,
                    with_event(
                        SessionView { stack: s.stack.update(h.target as int, stored(s.stack[h.target as int], h.name, z)), ..s1 },
                        closed,
                    ),
                ),
                None => (
                    true,
                    with_event(with_report(s1, Severity::Warning, Problem::CloseOutputFailed(IoErrorKind::InvalidData), h.name), closed),
                ),
            }
        } else {
            (
                false,
                with_event(
                    SessionView { stack: s.stack.update(h.target as int, stored(s.stack[h.target as int], h.name, h.data)), ..s1 },
                    closed,
                ),
            )
        }
    } else {
        (true, misused(s))
    }
}

/// Closing an input: it leaves the table and is announced with its
/// fingerprint.
pub open spec fn input_close_spec(s: SessionView, t: int) -> (bool, SessionView) {
    if live_input(s, t) {
        let h = s.inputs[t]->Some_0;
        (
            false,
            with_event(
                SessionView { inputs: s.inputs.update(t, None), ..s },
                EventView::InputClosed(h.name, input_fingerprint(h)),
            ),
        )
    } else {
        (true, misused(s))
    }
}

/// The fingerprint of a named file of TeX format, read without a handle of
/// the engine's. Absence is no error; a failure to open is reported.
pub open spec fn get_file_md5_spec(s: SessionView, name: Seq<u8>) -> (Option<Seq<u8>>, SessionView) {
    match resolve(s.stack, name, FileFormat::Tex) {
        Answer::Found { name: n, data, origin } => (
            Some(md5_of(data)),
            with_event(with_event(s, EventView::InputOpened(n, origin)), EventView::InputClosed(n, Some(md5_of(data)))),
        ),
        Answer::NotFound => (None, s),
        Answer::Failed(e) => (None, with_report(s, Severity::Error, Problem::DigestOpenFailed(e), name)),
    }
}

/// The result of an operation on an input handle, or `InvalidInput` and a
/// fatal report where `t` is not open.
pub open spec fn input_op<R>(s: SessionView, t: int, step: (Result<R, IoErrorKind>, InputView)) -> (Result<R, IoErrorKind>, SessionView) {
    if live_input(s, t) {
        (step.0, with_input(s, t, step.1))
    } else {
        (Err(IoErrorKind::InvalidInput), misused(s))
    }
}

/// The handle behind an input token, where it is open.
pub open spec fn input_at(s: SessionView, t: int) -> InputView {
    s.inputs[t]->Some_0
}

/// An optional digest as an optional sequence.
pub open spec fn digest_of(d: Option<[u8; 16]>) -> Option<Seq<u8>> {
    match d {
        Some(d) => Some(d@),
        None => None,
    }
}

/// Closing, in order, every output handle still open from position `i` on.
pub open spec fn drain_outputs(s: SessionView, i: int) -> SessionView
    decreases s.outputs.len() - i,
{
    if i < 0 || i >= s.outputs.len() {
        s
    } else if live_output(s, i) {
        drain_outputs(output_close_spec(s, i).1, i + 1)
    } else {
        drain_outputs(s, i + 1)
    }
}

/// Closing, in order, every input handle still open from position `i` on.
pub open spec fn drain_inputs(s: SessionView, i: int) -> SessionView
    decreases s.inputs.len() - i,
{
    if i < 0 || i >= s.inputs.len() {
        s
    } else if live_input(s, i) {
        drain_inputs(input_close_spec(s, i).1, i + 1)
    } else {
        drain_inputs(s, i + 1)
    }
}

/// The state of one engine invocation.
pub struct ExecutionState {
    io: IoStack,
    input_handles: Vec<Option<InputHandle>>,
    output_handles: Vec<Option<OutputHandle>>,
    events: Vec<IoEvent>,
    reports: Vec<Report>,
}

impl View for ExecutionState {
    type V = SessionView;

    closed spec fn view(&self) -> SessionView {
        SessionView {
            stack: self.io@,
            inputs: self.input_handles@.map_values(
                |o: Option<InputHandle>|
                    match o {
                        Some(h) => Some(h@),
                        None => None,
                    },
            ),
            outputs: self.output_handles@.map_values(
                |o: Option<OutputHandle>|
                    match o {
                        Some(h) => Some(h@),
                        None => None,
                    },
            ),
            events: self.events@.map_values(|e: IoEvent| e@),
            reports: self.reports@.map_values(|r: Report| r@),
        }
    }
}

impl ExecutionState {
    /// A session over `io`, with empty tables.
    pub fn new(io: IoStack) -> (r: ExecutionState)
        ensures
            session_wf(r@),
            r@ == (SessionView {
                stack: io@,
                inputs: Seq::empty(),
                outputs: Seq::empty(),
                events: Seq::empty(),
                reports: Seq::empty(),
            }),
    {
        let r = ExecutionState {
            io,
            input_handles: Vec::new(),
            output_handles: Vec::new(),
            events: Vec::new(),
            reports: Vec::new(),
        };
        assert(r@.inputs =~= Seq::<Option<InputView>>::empty());
        assert(r@.outputs =~= Seq::<Option<OutputView>>::empty());
        assert(r@.events =~= Seq::<EventView>::empty());
        assert(r@.reports =~= Seq::<ReportView>::empty());
        r
    }

    /// Ends the session: the stack, the notifications and the reports.
    pub fn into_parts(self) -> (r: (IoStack, Vec<IoEvent>, Vec<Report>))
        ensures
            r.0@ == self@.stack,
            r.1@.map_values(|e: IoEvent| e@) == self@.events,
            r.2@.map_values(|r: Report| r@) == self@.reports,
    {
        (self.io, self.events, self.reports)
    }

    /// The notifications so far.
    pub fn events(&self) -> (r: &[IoEvent])
        ensures
            r@.map_values(|e: IoEvent| e@) == self@.events,
    {
        self.events.as_slice()
    }

    /// The reports so far.
    pub fn reports(&self) -> (r: &[Report])
        ensures
            r@.map_values(|r: Report| r@) == self@.reports,
    {
        self.reports.as_slice()
    }

    /// The resolution stack.
    pub fn io(&self) -> (r: &IoStack)
        ensures
            r@ == self@.stack,
    {
        &self.io
    }

    /// Opens an input for the engine; see `input_open_spec`.
    pub fn input_open(&mut self, name: &[u8], format: FileFormat, is_gz: bool) -> (r: Option<usize>)
        requires
            session_wf(old(self)@),
        ensures
            session_wf(final(self)@),
            r matches Some(t) ==> t < usize::MAX,
            (index_of(r), final(self)@) == input_open_spec(old(self)@, name@, format, is_gz),
    {
        match self.io.input_open_name_format_gz(name, format, is_gz) {
            OpenResult::Opened(ih) => {
                // the name may have had an extension put to it
                self.event(IoEvent::InputOpened(copy_bytes(ih.name()), ih.origin()));
                Some(self.push_input(ih))
            },
            OpenResult::NotAvailable => {
                self.event(IoEvent::InputNotAvailable(copy_bytes(name)));
                None
            },
            OpenResult::Failed(e) => {
                self.report(Severity::Warning, Problem::OpenInputFailed(e), copy_bytes(name));
                None
            },
        }
    }

    /// Opens the engine's primary input; see `input_open_primary_spec`.
    pub fn input_open_primary(&mut self) -> (r: Option<usize>)
        requires
            session_wf(old(self)@),
        ensures
            session_wf(final(self)@),
            r matches Some(t) ==> t < usize::MAX,
            (index_of(r), final(self)@) == input_open_primary_spec(old(self)@),
    {
        match self.io.input_open_primary() {
            OpenResult::Opened(ih) => {
                self.event(IoEvent::PrimaryInputOpened(ih.origin()));
                Some(self.push_input(ih))
            },
            OpenResult::NotAvailable => {
                self.report(Severity::Fatal, Problem::PrimaryInputMissing, Vec::new());
                None
            },
            OpenResult::Failed(e) => {
                self.report(Severity::Fatal, Problem::PrimaryInputFailed(e), Vec::new());
                None
            },
        }
    }

    /// Opens an output for the engine; see `output_open_spec`.
    pub fn output_open(&mut self, name: &[u8], is_gz: bool) -> (r: Option<usize>)
        requires
            session_wf(old(self)@),
        ensures
            session_wf(final(self)@),
            r matches Some(t) ==> t < usize::MAX,
            (index_of(r), final(self)@) == output_open_spec(old(self)@, name@, is_gz),
    {
        match self.io.output_open_name() {
            Some(target) => {
                self.event(IoEvent::OutputOpened(copy_bytes(name)));
                let oh = OutputHandle::new(copy_bytes(name), target, is_gz);
                Some(self.push_output(oh))
            },
            None => None,
        }
    }

    /// Opens standard output for the engine; see `output_open_stdout_spec`.
    pub fn output_open_stdout(&mut self) -> (r: Option<usize>)
        requires
            session_wf(old(self)@),
        ensures
            session_wf(final(self)@),
            r matches Some(t) ==> t < usize::MAX,
            (index_of(r), final(self)@) == output_open_stdout_spec(old(self)@),
    {
        let ghost s0 = self@;
        match self.io.output_open_stdout() {
            OpenResult::Opened(target) => {
                assert(self@ == SessionView { stack: s0.stack.update(target as int, stdout_taken(s0.stack[target as int])), ..s0 });
                self.event(IoEvent::StdoutOpened);
                let oh = OutputHandle::new(Vec::new(), target, false);
                assert(oh@.name =~= Seq::<u8>::empty());
                Some(self.push_output(oh))
            },
            OpenResult::NotAvailable => {
                assert(self@ =~= s0);
                None
            },
            OpenResult::Failed(e) => {
                assert(self@ =~= s0);
                self.report(Severity::Warning, Problem::OpenStdoutFailed(e), Vec::new());
                None
            },
        }
    }

    /// Writes a whole buffer; `true` reports an error.
    pub fn output_write(&mut self, handle: usize, buf: &[u8]) -> (r: bool)
        requires
            session_wf(old(self)@),
        ensures
            session_wf(final(self)@),
            (r, final(self)@) == output_write_spec(old(self)@, handle as int, buf@),
    {
        match self.take_output(handle) {
            Some(mut oh) => {
                oh.write_all(buf);
                let ghost h1 = oh@;
                self.put_output(handle, oh);
                proof {
                    assert(self@.outputs =~= old(self)@.outputs.update(handle as int, Some(h1)));
                }
                false
            },
            None => {
                self.misuse();
                true
            },
        }
    }

    /// Flushes an output; `true` reports an error.
    pub fn output_flush(&mut self, handle: usize) -> (r: bool)
        requires
            session_wf(old(self)@),
        ensures
            session_wf(final(self)@),
            (r, final(self)@) == output_flush_spec(old(self)@, handle as int),
    {
        if handle < self.output_handles.len() && self.output_handles[handle].is_some() {
            false
        } else {
            self.misuse();
            true
        }
    }

    /// Closes an output; see `output_close_spec`. `true` reports an error.
    pub fn output_close(&mut self, handle: usize) -> (r: bool)
        requires
            session_wf(old(self)@),
        ensures
            session_wf(final(self)@),
            (r, final(self)@) == output_close_spec(old(self)@, handle as int),
    {
        match self.take_output(handle) {
            Some(oh) => {
                let target = oh.target();
                let gz = oh.is_gz();
                let (name, data, digest) = oh.into_parts();
                let mut rv = false;
                if gz {
                    match gzip(data.as_slice()) {
                        Some(z) => {
                            self.io.store(target, copy_bytes(name.as_slice()), z);
                        },
                        None => {
                            self.report(
                                Severity::Warning,
                                Problem::CloseOutputFailed(IoErrorKind::InvalidData),
                                copy_bytes(name.as_slice()),
                            );
                            rv = true;
                        },
                    }
                } else {
                    self.io.store(target, copy_bytes(name.as_slice()), data);
                }
                self.event(IoEvent::OutputClosed(name, digest));
                rv
            },
            None => {
                self.misuse();
                true
            },
        }
    }

    /// The size of an input's whole stream; 0 and a fatal report where the
    /// handle is not open.
    pub fn input_get_size(&mut self, handle: usize) -> (r: usize)
        requires
            session_wf(old(self)@),
        ensures
            session_wf(final(self)@),
            live_input(old(self)@, handle as int) ==> r == input_at(old(self)@, handle as int).data.len()
                && final(self)@ == old(self)@,
            !live_input(old(self)@, handle as int) ==> r == 0 && final(self)@ == misused(old(self)@),
    {
        if handle < self.input_handles.len() {
            match &self.input_handles[handle] {
                Some(ih) => {
                    return ih.get_size();
                },
                None => {},
            }
        }
        self.misuse();
        0
    }

    /// Moves an input's position; see `seek_spec`.
    pub fn input_seek(&mut self, handle: usize, pos: SeekFrom) -> (r: Result<u64, IoErrorKind>)
        requires
            session_wf(old(self)@),
        ensures
            session_wf(final(self)@),
            (r, final(self)@) == input_op(old(self)@, handle as int, seek_spec(input_at(old(self)@, handle as int), pos)),
    {
        match self.take_input(handle) {
            Some(mut ih) => {
                let r = ih.try_seek(pos);
                let ghost h1 = ih@;
                self.put_input(handle, ih);
                proof {
                    assert(self@.inputs =~= old(self)@.inputs.update(handle as int, Some(h1)));
                    assert(self@ =~= with_input(old(self)@, handle as int, h1));
                }
                r
            },
            None => {
                self.misuse();
                Err(IoErrorKind::InvalidInput)
            },
        }
    }

    /// Reads exactly `len` bytes from an input; see `read_exact_spec`.
    pub fn input_read(&mut self, handle: usize, len: usize) -> (r: Result<Vec<u8>, IoErrorKind>)
        requires
            session_wf(old(self)@),
        ensures
            session_wf(final(self)@),
            live_input(old(self)@, handle as int) ==> match read_exact_spec(input_at(old(self)@, handle as int), len as nat) {
                Some(p) => r is Ok && r->Ok_0@ == p.0 && final(self)@ == with_input(old(self)@, handle as int, p.1),
                None => r == Err::<Vec<u8>, IoErrorKind>(IoErrorKind::UnexpectedEof) && final(self)@ == old(self)@,
            },
            !live_input(old(self)@, handle as int) ==> r == Err::<Vec<u8>, IoErrorKind>(IoErrorKind::InvalidInput)
                && final(self)@ == misused(old(self)@),
    {
        match self.take_input(handle) {
            Some(mut ih) => {
                let r = ih.read_exact(len);
                let ghost h1 = ih@;
                self.put_input(handle, ih);
                proof {
                    assert(self@.inputs =~= old(self)@.inputs.update(handle as int, Some(h1)));
                    assert(self@ =~= with_input(old(self)@, handle as int, h1));
                }
                proof {
                    if r is Err {
                        assert(self@ =~= old(self)@) by {
                            assert(self@.inputs =~= old(self)@.inputs);
                        }
                    }
                }
                r
            },
            None => {
                self.misuse();
                Err(IoErrorKind::InvalidInput)
            },
        }
    }

    /// Reads one byte from an input; see `getc_spec`.
    pub fn input_getc(&mut self, handle: usize) -> (r: Result<u8, IoErrorKind>)
        requires
            session_wf(old(self)@),
        ensures
            session_wf(final(self)@),
            (r, final(self)@) == input_op(old(self)@, handle as int, getc_spec(input_at(old(self)@, handle as int))),
    {
        match self.take_input(handle) {
            Some(mut ih) => {
                let r = ih.getc();
                let ghost h1 = ih@;
                self.put_input(handle, ih);
                proof {
                    assert(self@.inputs =~= old(self)@.inputs.update(handle as int, Some(h1)));
                    assert(self@ =~= with_input(old(self)@, handle as int, h1));
                }
                r
            },
            None => {
                self.misuse();
                Err(IoErrorKind::InvalidInput)
            },
        }
    }

    /// Hands one byte back to an input; see `ungetc_spec`.
    pub fn input_ungetc(&mut self, handle: usize, byte: u8) -> (r: Result<(), IoErrorKind>)
        requires
            session_wf(old(self)@),
        ensures
            session_wf(final(self)@),
            (r, final(self)@) == input_op(old(self)@, handle as int, ungetc_spec(input_at(old(self)@, handle as int), byte)),
    {
        match self.take_input(handle) {
            Some(mut ih) => {
                let r = ih.ungetc(byte);
                let ghost h1 = ih@;
                self.put_input(handle, ih);
                proof {
                    assert(self@.inputs =~= old(self)@.inputs.update(handle as int, Some(h1)));
                    assert(self@ =~= with_input(old(self)@, handle as int, h1));
                }
                r
            },
            None => {
                self.misuse();
                Err(IoErrorKind::InvalidInput)
            },
        }
    }

    /// Closes an input; see `input_close_spec`. `true` reports an error.
    pub fn input_close(&mut self, handle: usize) -> (r: bool)
        requires
            session_wf(old(self)@),
        ensures
            session_wf(final(self)@),
            (r, final(self)@) == input_close_spec(old(self)@, handle as int),
    {
        match self.take_input(handle) {
            Some(ih) => {
                let (name, digest) = ih.into_name_digest();
                self.event(IoEvent::InputClosed(name, digest));
                false
            },
            None => {
                // a handle that is not open means the engine misused the boundary
                self.misuse();
                true
            },
        }
    }

    /// The fingerprint of a file of TeX format; see `get_file_md5_spec`.
    pub fn get_file_md5(&mut self, name: &[u8]) -> (r: Option<[u8; 16]>)
        requires
            session_wf(old(self)@),
        ensures
            session_wf(final(self)@),
            (digest_of(r), final(self)@) == get_file_md5_spec(old(self)@, name@),
    {
        match self.io.input_open_name_format(name, FileFormat::Tex) {
            OpenResult::Opened(ih) => {
                self.event(IoEvent::InputOpened(copy_bytes(ih.name()), ih.origin()));
                let (n, data) = ih.into_name_data();
                let d = md5_digest(data.as_slice());
                self.event(IoEvent::InputClosed(n, Some(d)));
                Some(d)
            },
            OpenResult::NotAvailable => None,
            OpenResult::Failed(e) => {
                self.report(Severity::Error, Problem::DigestOpenFailed(e), copy_bytes(name));
                None
            },
        }
    }

    fn report(&mut self, severity: Severity, problem: Problem, subject: Vec<u8>)
        requires
            session_wf(old(self)@),
        ensures
            session_wf(final(self)@),
            final(self)@ == with_report(old(self)@, severity, problem, subject@),
    {
        self.reports.push(Report { severity, problem, subject });
        assert(self@.reports =~= old(self)@.reports.push(ReportView { severity, problem, subject: subject@ }));
        assert(self@ =~= with_report(old(self)@, severity, problem, subject@));
    }

    fn event(&mut self, e: IoEvent)
        requires
            session_wf(old(self)@),
        ensures
            session_wf(final(self)@),
            final(self)@ == with_event(old(self)@, e@),
    {
        self.events.push(e);
        assert(self@.events =~= old(self)@.events.push(e@));
        assert(self@ =~= with_event(old(self)@, e@));
    }

    fn misuse(&mut self)
        requires
            session_wf(old(self)@),
        ensures
            session_wf(final(self)@),
            final(self)@ == misused(old(self)@),
    {
        self.report(Severity::Fatal, Problem::UnknownHandle, Vec::new());
    }

    /// Ends the invocation's use of its handles: every output still open is
    /// closed and delivered, then every input, each in token order.
    pub fn finish(&mut self)
        requires
            session_wf(old(self)@),
        ensures
            session_wf(final(self)@),
            final(self)@ == drain_inputs(drain_outputs(old(self)@, 0), 0),
            forall|t: int| !live_output(final(self)@, t) && !live_input(final(self)@, t),
    {
        let mut i: usize = 0;
        while i < self.output_handles.len()
            invariant
                session_wf(self@),
                i <= self@.outputs.len(),
                self@.outputs.len() == old(self)@.outputs.len(),
                self@.inputs == old(self)@.inputs,
                drain_outputs(old(self)@, 0) == drain_outputs(self@, i as int),
                forall|t: int| 0 <= t < i ==> !live_output(self@, t),
            decreases self@.outputs.len() - i,
        {
            if self.output_handles[i].is_some() {
                let ghost before = self@;
                self.output_close(i);
                assert(self@.outputs == before.outputs.update(i as int, None));
                assert forall|t: int| 0 <= t <= i implies !live_output(self@, t) by {
                    if t < i {
                        assert(!live_output(before, t));
                    }
                }
            } else {
                assert(self@.outputs[i as int] is None);
            }
            i = i + 1;
        }
        let ghost mid = self@;
        let mut j: usize = 0;
        while j < self.input_handles.len()
            invariant
                session_wf(self@),
                j <= self@.inputs.len(),
                self@.inputs.len() == mid.inputs.len(),
                self@.outputs == mid.outputs,
                forall|t: int| !live_output(mid, t),
                drain_inputs(mid, 0) == drain_inputs(self@, j as int),
                forall|t: int| 0 <= t < j ==> !live_input(self@, t),
            decreases self@.inputs.len() - j,
        {
            if self.input_handles[j].is_some() {
                let ghost before = self@;
                self.input_close(j);
                assert(self@.inputs == before.inputs.update(j as int, None));
                assert forall|t: int| 0 <= t <= j implies !live_input(self@, t) by {
                    if t < j {
                        assert(!live_input(before, t));
                    }
                }
            } else {
                assert(self@.inputs[j as int] is None);
            }
            j = j + 1;
        }
        assert forall|t: int| !live_output(self@, t) && !live_input(self@, t) by {
            assert(!live_output(mid, t));
        }
    }

    /// Reports a problem about `subject`.
    pub fn report_problem(&mut self, severity: Severity, problem: Problem, subject: Vec<u8>)
        requires
            session_wf(old(self)@),
        ensures
            session_wf(final(self)@),
            final(self)@ == with_report(old(self)@, severity, problem, subject@),
    {
        self.report(severity, problem, subject);
    }

    /// Reports text that the engine hands over as a warning.
    pub fn issue_warning(&mut self, text: &[u8])
        requires
            session_wf(old(self)@),
        ensures
            session_wf(final(self)@),
            final(self)@ == with_report(old(self)@, Severity::Warning, Problem::EngineMessage, text@),
    {
        self.report(Severity::Warning, Problem::EngineMessage, copy_bytes(text));
    }

    /// Reports text that the engine hands over as an error.
    pub fn issue_error(&mut self, text: &[u8])
        requires
            session_wf(old(self)@),
        ensures
            session_wf(final(self)@),
            final(self)@ == with_report(old(self)@, Severity::Error, Problem::EngineMessage, text@),
    {
        self.report(Severity::Error, Problem::EngineMessage, copy_bytes(text));
    }

    fn push_input(&mut self, h: InputHandle) -> (r: usize)
        requires
            session_wf(old(self)@),
            input_wf(h@),
        ensures
            session_wf(final(self)@),
            r == old(self)@.inputs.len(),
            r < usize::MAX,
            final(self)@ == (SessionView { inputs: old(self)@.inputs.push(Some(h@)), ..old(self)@ }),
    {
        let r = self.input_handles.len();
        self.input_handles.push(Some(h));
        let n = self.input_handles.len();
        assert(n == r + 1);
        assert(self@.inputs =~= old(self)@.inputs.push(Some(h@)));
        assert(self@ =~= SessionView { inputs: old(self)@.inputs.push(Some(h@)), ..old(self)@ });
        r
    }

    fn push_output(&mut self, h: OutputHandle) -> (r: usize)
        requires
            session_wf(old(self)@),
            h@.target < old(self)@.stack.len(),
        ensures
            session_wf(final(self)@),
            r == old(self)@.outputs.len(),
            r < usize::MAX,
            final(self)@ == (SessionView { outputs: old(self)@.outputs.push(Some(h@)), ..old(self)@ }),
    {
        let r = self.output_handles.len();
        self.output_handles.push(Some(h));
        let n = self.output_handles.len();
        assert(n == r + 1);
        assert(self@.outputs =~= old(self)@.outputs.push(Some(h@)));
        assert(self@ =~= SessionView { outputs: old(self)@.outputs.push(Some(h@)), ..old(self)@ });
        r
    }

    fn take_input(&mut self, t: usize) -> (r: Option<InputHandle>)
        requires
            session_wf(old(self)@),
        ensures
            session_wf(final(self)@),
            live_input(old(self)@, t as int) ==> r is Some && r->Some_0@ == input_at(old(self)@, t as int)
                && final(self)@ == (SessionView { inputs: old(self)@.inputs.update(t as int, None), ..old(self)@ }),
            !live_input(old(self)@, t as int) ==> r is None && final(self)@ == old(self)@,
    {
        if t >= self.input_handles.len() {
            return None;
        }
        let mut slot: Option<InputHandle> = None;
        self.input_handles.set_and_swap(t, &mut slot);
        assert(self@.inputs =~= old(self)@.inputs.update(t as int, None));
        assert(self@ =~= SessionView { inputs: old(self)@.inputs.update(t as int, None), ..old(self)@ });
        if slot.is_none() {
            self.input_handles.set(t, None);
            assert(self@.inputs =~= old(self)@.inputs);
            assert(self@ =~= old(self)@);
        }
        slot
    }

    fn put_input(&mut self, t: usize, h: InputHandle)
        requires
            session_wf(old(self)@),
            t < old(self)@.inputs.len(),
            input_wf(h@),
        ensures
            session_wf(final(self)@),
            final(self)@ == with_input(old(self)@, t as int, h@),
    {
        self.input_handles.set(t, Some(h));
        assert(self@.inputs =~= old(self)@.inputs.update(t as int, Some(h@)));
        assert(self@ =~= with_input(old(self)@, t as int, h@));
    }

    fn take_output(&mut self, t: usize) -> (r: Option<OutputHandle>)
        requires
            session_wf(old(self)@),
        ensures
            session_wf(final(self)@),
            live_output(old(self)@, t as int) ==> r is Some && r->Some_0@ == old(self)@.outputs[t as int]->Some_0
                && final(self)@ == (SessionView { outputs: old(self)@.outputs.update(t as int, None), ..old(self)@ }),
            !live_output(old(self)@, t as int) ==> r is None && final(self)@ == old(self)@,
    {
        if t >= self.output_handles.len() {
            return None;
        }
        let mut slot: Option<OutputHandle> = None;
        self.output_handles.set_and_swap(t, &mut slot);
        assert(self@.outputs =~= old(self)@.outputs.update(t as int, None));
        assert(self@ =~= SessionView { outputs: old(self)@.outputs.update(t as int, None), ..old(self)@ });
        if slot.is_none() {
            self.output_handles.set(t, None);
            assert(self@.outputs =~= old(self)@.outputs);
            assert(self@ =~= old(self)@);
        }
        slot
    }

    fn put_output(&mut self, t: usize, h: OutputHandle)
        requires
            session_wf(old(self)@),
            t < old(self)@.outputs.len(),
            h@.target < old(self)@.stack.len(),
        ensures
            session_wf(final(self)@),
            final(self)@ == (SessionView { outputs: old(self)@.outputs.update(t as int, Some(h@)), ..old(self)@ }),
    {
        self.output_handles.set(t, Some(h));
        assert(self@.outputs =~= old(self)@.outputs.update(t as int, Some(h@)));
        assert(self@ =~= SessionView { outputs: old(self)@.outputs.update(t as int, Some(h@)), ..old(self)@ });
    }
}

} // verus!
