//! The engine's side of the call boundary, over plain values: handles are
//! numbers with 0 as the absent sentinel, and results follow the engine's
//! conventions (0 for success, -1 for end of stream or failure). The richer
//! error is reported to the session first.

use crate::format::{c_format_to_rust, format_of_code};
use crate::handle::{getc_spec, read_exact_spec, seek_spec, ungetc_spec, IoErrorKind, SeekFrom};
use crate::session::{
    get_file_md5_spec, input_at, input_close_spec, input_op, input_open_primary_spec,
    input_open_spec, live_input, misused, output_close_spec, output_flush_spec,
    output_open_spec, output_open_stdout_spec, output_write_spec, session_wf, with_report,
    ExecutionState, SessionView,
};
use crate::status::{Problem, Severity};
use vstd::prelude::*;

verus! {

/// The value that stands for the end of a stream, or for a failure.
pub const EOF: i32 = -1;

/// Seek from the start of the stream.
pub const SEEK_SET: i32 = 0;

/// Seek from the current position.
pub const SEEK_CUR: i32 = 1;

/// Seek from the end of the stream.
pub const SEEK_END: i32 = 2;

/// The handle number of a token: 0 for none, else one more than the token.
pub open spec fn handle_number(t: Option<int>) -> int {
    match t {
        Some(t) => t + 1,
        None => 0,
    }
}

/// The token that a non-zero handle number stands for.
pub open spec fn token_of(handle: usize) -> int {
    handle - 1
}

fn number(t: Option<usize>) -> (r: usize)
    requires
        t matches Some(t) ==> t < usize::MAX,
    ensures
        r == handle_number(crate::stack::index_of(t)),
{
    match t {
        Some(t) => t + 1,
        None => 0,
    }
}

/// The seek that a mode and an offset ask for; `None` for a mode that does
/// not exist. A negative offset from the start is no position.
pub open spec fn seek_request(offset: isize, whence: i32) -> Option<Option<SeekFrom>> {
    if whence == SEEK_SET {
        Some(
            if offset < 0 {
                None
            } else {
                Some(SeekFrom::Start(offset as u64))
            },
        )
    } else if whence == SEEK_CUR {
        Some(Some(SeekFrom::Current(offset as i64)))
    } else if whence == SEEK_END {
        Some(Some(SeekFrom::End(offset as i64)))
    } else {
        None
    }
}

/// Maps a seek mode and an offset to a seek.
pub fn whence_to_seek(offset: isize, whence: i32) -> (r: Option<Option<SeekFrom>>)
    ensures
        r == seek_request(offset, whence),
{
    if whence == SEEK_SET {
        if offset < 0 {
            Some(None)
        } else {
            Some(Some(SeekFrom::Start(offset as u64)))
        }
    } else if whence == SEEK_CUR {
        Some(Some(SeekFrom::Current(offset as i64)))
    } else if whence == SEEK_END {
        Some(Some(SeekFrom::End(offset as i64)))
    } else {
        None
    }
}

/// Opens an output; 0 where none is available.
pub fn output_open(es: &mut ExecutionState, name: &[u8], is_gz: i32) -> (r: usize)
    requires
        session_wf(old(es)@),
    ensures
        session_wf(final(es)@),
        ({
            let (t, s) = output_open_spec(old(es)@, name@, is_gz != 0);
            r == handle_number(t) && final(es)@ == s
        }),
{
    let t = es.output_open(name, is_gz != 0);
    number(t)
}

/// Opens standard output; 0 where it is not available.
pub fn output_open_stdout(es: &mut ExecutionState) -> (r: usize)
    requires
        session_wf(old(es)@),
    ensures
        session_wf(final(es)@),
        ({
            let (t, s) = output_open_stdout_spec(old(es)@);
            r == handle_number(t) && final(es)@ == s
        }),
{
    let t = es.output_open_stdout();
    number(t)
}

/// Writes one byte; the byte, or `EOF` on failure.
pub fn output_putc(es: &mut ExecutionState, handle: usize, c: i32) -> (r: i32)
    requires
        session_wf(old(es)@),
    ensures
        session_wf(final(es)@),
        ({
            let (failed, s) = if handle == 0 {
                (true, misused(old(es)@))
            } else {
                output_write_spec(old(es)@, token_of(handle), seq![c as u8])
            };
            r == (if failed {
                EOF
            } else {
                c
            }) && final(es)@ == s
        }),
{
    #[verifier::truncate]
    let b = c as u8;
    let buf: [u8; 1] = [b];
    assert(buf@ =~= seq![c as u8]);
    let failed = if handle == 0 {
        {
            es.report_problem(Severity::Fatal, Problem::UnknownHandle, Vec::new());
            true
        }
    } else {
        es.output_write(handle - 1, &buf)
    };
    if failed {
        EOF
    } else {
        c
    }
}

/// Writes a whole buffer; its length, or 0 on failure.
pub fn output_write(es: &mut ExecutionState, handle: usize, data: &[u8]) -> (r: usize)
    requires
        session_wf(old(es)@),
    ensures
        session_wf(final(es)@),
        ({
            let (failed, s) = if handle == 0 {
                (true, misused(old(es)@))
            } else {
                output_write_spec(old(es)@, token_of(handle), data@)
            };
            r == (if failed {
                0
            } else {
                data@.len()
            }) && final(es)@ == s
        }),
{
    let failed = if handle == 0 {
        {
            es.report_problem(Severity::Fatal, Problem::UnknownHandle, Vec::new());
            true
        }
    } else {
        es.output_write(handle - 1, data)
    };
    if failed {
        0
    } else {
        data.len()
    }
}

/// Flushes an output; 0, or 1 on failure.
pub fn output_flush(es: &mut ExecutionState, handle: usize) -> (r: i32)
    requires
        session_wf(old(es)@),
    ensures
        session_wf(final(es)@),
        ({
            let (failed, s) = if handle == 0 {
                (true, misused(old(es)@))
            } else {
                output_flush_spec(old(es)@, token_of(handle))
            };
            r == (if failed {
                1i32
            } else {
                0i32
            }) && final(es)@ == s
        }),
{
    let failed = if handle == 0 {
        {
            es.report_problem(Severity::Fatal, Problem::UnknownHandle, Vec::new());
            true
        }
    } else {
        es.output_flush(handle - 1)
    };
    if failed {
        1
    } else {
        0
    }
}

/// Closes an output; 0, or 1 on failure. Closing the absent handle does
/// nothing.
pub fn output_close(es: &mut ExecutionState, handle: usize) -> (r: i32)
    requires
        session_wf(old(es)@),
    ensures
        session_wf(final(es)@),
        handle == 0 ==> r == 0 && final(es)@ == old(es)@,
        handle != 0 ==> ({
            let (failed, s) = output_close_spec(old(es)@, token_of(handle));
            r == (if failed {
                1i32
            } else {
                0i32
            }) && final(es)@ == s
        }),
{
    if handle == 0 {
        return 0;
    }
    if es.output_close(handle - 1) {
        1
    } else {
        0
    }
}

/// Opens an input of the format with number `format`; 0 where it is not
/// available or the format number is unknown.
pub fn input_open(es: &mut ExecutionState, name: &[u8], format: i32, is_gz: i32) -> (r: usize)
    requires
        session_wf(old(es)@),
    ensures
        session_wf(final(es)@),
        match format_of_code(format) {
            Some(f) => {
                let (t, s) = input_open_spec(old(es)@, name@, f, is_gz != 0);
                r == handle_number(t) && final(es)@ == s
            },
            None => r == 0 && final(es)@ == old(es)@,
        },
{
    match c_format_to_rust(format) {
        Some(f) => {
            let t = es.input_open(name, f, is_gz != 0);
            number(t)
        },
        None => 0,
    }
}

/// Opens the primary input; 0 where it cannot be had, which is fatal.
pub fn input_open_primary(es: &mut ExecutionState) -> (r: usize)
    requires
        session_wf(old(es)@),
    ensures
        session_wf(final(es)@),
        ({
            let (t, s) = input_open_primary_spec(old(es)@);
            r == handle_number(t) && final(es)@ == s
        }),
{
    let t = es.input_open_primary();
    number(t)
}

/// The size of an input's stream; 0 where the handle is not open.
pub fn input_get_size(es: &mut ExecutionState, handle: usize) -> (r: usize)
    requires
        session_wf(old(es)@),
    ensures
        session_wf(final(es)@),
        handle != 0 && live_input(old(es)@, token_of(handle)) ==> r == input_at(
            old(es)@,
            token_of(handle),
        ).data.len() && final(es)@ == old(es)@,
        !(handle != 0 && live_input(old(es)@, token_of(handle))) ==> r == 0 && final(es)@ == misused(
            old(es)@,
        ),
{
    if handle == 0 {
        es.report_problem(Severity::Fatal, Problem::UnknownHandle, Vec::new());
        0
    } else {
        es.input_get_size(handle - 1)
    }
}

/// The session after a handle operation whose handle number may be 0.
pub open spec fn input_step<R>(s: SessionView, handle: usize, step: (Result<R, IoErrorKind>, crate::handle::InputView)) -> (Result<R, IoErrorKind>, SessionView) {
    if handle == 0 {
        (Err(IoErrorKind::InvalidInput), misused(s))
    } else {
        input_op(s, token_of(handle), step)
    }
}

/// Seeks an input; the new position, or 0 on failure. A mode that does not
/// exist is a fatal report and sets the internal-error flag; a failed seek
/// is an error report.
pub fn input_seek(es: &mut ExecutionState, handle: usize, offset: isize, whence: i32) -> (r: (usize, bool))
    requires
        session_wf(old(es)@),
    ensures
        session_wf(final(es)@),
        match seek_request(offset, whence) {
            None => r == (0usize, true) && final(es)@ == with_report(
                old(es)@,
                Severity::Fatal,
                Problem::UnknownWhence(whence),
                Seq::empty(),
            ),
            Some(None) => r == (0usize, false) && final(es)@ == with_report(
                old(es)@,
                Severity::Error,
                Problem::SeekFailed(IoErrorKind::InvalidInput),
                Seq::empty(),
            ),
            Some(Some(pos)) => {
                let (res, s) = input_step(
                    old(es)@,
                    handle,
                    seek_spec(input_at(old(es)@, token_of(handle)), pos),
                );
                !r.1 && match res {
                    Ok(p) => if p <= usize::MAX {
                        r.0 == p && final(es)@ == s
                    } else {
                        r.0 == 0 && final(es)@ == with_report(
                            s,
                            Severity::Error,
                            Problem::SeekFailed(IoErrorKind::InvalidInput),
                            Seq::empty(),
                        )
                    },
                    Err(e) => r.0 == 0 && final(es)@ == with_report(
                        s,
                        Severity::Error,
                        Problem::SeekFailed(e),
                        Seq::empty(),
                    ),
                }
            },
        },
{
    match whence_to_seek(offset, whence) {
        None => {
            es.report_problem(Severity::Fatal, Problem::UnknownWhence(whence), Vec::new());
            (0, true)
        },
        Some(None) => {
            es.report_problem(Severity::Error, Problem::SeekFailed(IoErrorKind::InvalidInput), Vec::new());
            (0, false)
        },
        Some(Some(pos)) => {
            let res = if handle == 0 {
                es.report_problem(Severity::Fatal, Problem::UnknownHandle, Vec::new());
                Err(IoErrorKind::InvalidInput)
            } else {
                es.input_seek(handle - 1, pos)
            };
            match res {
                Ok(p) => {
                    if p as u128 <= usize::MAX as u128 {
                        (p as usize, false)
                    } else {
                        es.report_problem(
                            Severity::Error,
                            Problem::SeekFailed(IoErrorKind::InvalidInput),
                            Vec::new(),
                        );
                        (0, false)
                    }
                },
                Err(e) => {
                    es.report_problem(Severity::Error, Problem::SeekFailed(e), Vec::new());
                    (0, false)
                },
            }
        },
    }
}

/// Reads exactly `len` bytes; their number, or -1 with a warning on failure.
pub fn input_read(es: &mut ExecutionState, handle: usize, len: usize) -> (r: (isize, Vec<u8>))
    requires
        session_wf(old(es)@),
    ensures
        session_wf(final(es)@),
        len > isize::MAX ==> r.0 == -1 && final(es)@ == with_report(
            old(es)@,
            Severity::Warning,
            Problem::ReadFailed(IoErrorKind::InvalidInput),
            Seq::empty(),
        ),
        len <= isize::MAX && !(handle != 0 && live_input(old(es)@, token_of(handle))) ==> r.0 == -1
            && final(es)@ == with_report(
            misused(old(es)@),
            Severity::Warning,
            Problem::ReadFailed(IoErrorKind::InvalidInput),
            Seq::empty(),
        ),
        len <= isize::MAX && handle != 0 && live_input(old(es)@, token_of(handle)) ==> match read_exact_spec(
            input_at(old(es)@, token_of(handle)),
            len as nat,
        ) {
            Some(p) => r.0 == len && r.1@ == p.0 && final(es)@ == crate::session::with_input(
                old(es)@,
                token_of(handle),
                p.1,
            ),
            None => r.0 == -1 && final(es)@ == with_report(
                old(es)@,
                Severity::Warning,
                Problem::ReadFailed(IoErrorKind::UnexpectedEof),
                Seq::empty(),
            ),
        },
{
    if len > isize::MAX as usize {
        es.report_problem(Severity::Warning, Problem::ReadFailed(IoErrorKind::InvalidInput), Vec::new());
        return (-1, Vec::new());
    }
    let res = if handle == 0 {
        es.report_problem(Severity::Fatal, Problem::UnknownHandle, Vec::new());
        Err(IoErrorKind::InvalidInput)
    } else {
        es.input_read(handle - 1, len)
    };
    match res {
        Ok(data) => (len as isize, data),
        Err(e) => {
            es.report_problem(Severity::Warning, Problem::ReadFailed(e), Vec::new());
            (-1, Vec::new())
        },
    }
}

/// What reading one byte gives the engine: the byte, or `EOF` at the end of
/// the stream, which is no failure.
pub open spec fn getc_code(r: Result<u8, IoErrorKind>) -> i32 {
    match r {
        Ok(b) => b as i32,
        Err(_) => EOF,
    }
}

/// Reads one byte; `EOF` at the end of the stream, or with a warning on any
/// other failure.
pub fn input_getc(es: &mut ExecutionState, handle: usize) -> (r: i32)
    requires
        session_wf(old(es)@),
    ensures
        session_wf(final(es)@),
        ({
            let (res, s) = input_step(old(es)@, handle, getc_spec(input_at(old(es)@, token_of(handle))));
            r == getc_code(res) && final(es)@ == match res {
                Err(e) => if e == IoErrorKind::UnexpectedEof {
                    s
                } else {
                    with_report(s, Severity::Warning, Problem::GetcFailed(e), Seq::empty())
                },
                Ok(_) => s,
            }
        }),
{
    let res = if handle == 0 {
        es.report_problem(Severity::Fatal, Problem::UnknownHandle, Vec::new());
        Err(IoErrorKind::InvalidInput)
    } else {
        es.input_getc(handle - 1)
    };
    match res {
        Ok(b) => b as i32,
        Err(IoErrorKind::UnexpectedEof) => EOF,
        Err(e) => {
            es.report_problem(Severity::Warning, Problem::GetcFailed(e), Vec::new());
            EOF
        },
    }
}

/// Hands one byte back; 0, or -1 with a warning on failure.
pub fn input_ungetc(es: &mut ExecutionState, handle: usize, ch: i32) -> (r: i32)
    requires
        session_wf(old(es)@),
    ensures
        session_wf(final(es)@),
        ({
            let (res, s) = input_step(
                old(es)@,
                handle,
                ungetc_spec(input_at(old(es)@, token_of(handle)), ch as u8),
            );
            match res {
                Ok(_) => r == 0 && final(es)@ == s,
                Err(e) => r == -1 && final(es)@ == with_report(
                    s,
                    Severity::Warning,
                    Problem::UngetcFailed(e),
                    Seq::empty(),
                ),
            }
        }),
{
    #[verifier::truncate]
    let b = ch as u8;
    let res = if handle == 0 {
        es.report_problem(Severity::Fatal, Problem::UnknownHandle, Vec::new());
        Err(IoErrorKind::InvalidInput)
    } else {
        es.input_ungetc(handle - 1, b)
    };
    match res {
        Ok(()) => 0,
        Err(e) => {
            es.report_problem(Severity::Warning, Problem::UngetcFailed(e), Vec::new());
            -1
        },
    }
}

/// Closes an input; 0, or 1 for a handle that is not open. Closing the
/// absent handle does nothing.
pub fn input_close(es: &mut ExecutionState, handle: usize) -> (r: i32)
    requires
        session_wf(old(es)@),
    ensures
        session_wf(final(es)@),
        handle == 0 ==> r == 0 && final(es)@ == old(es)@,
        handle != 0 ==> ({
            let (failed, s) = input_close_spec(old(es)@, token_of(handle));
            r == (if failed {
                1i32
            } else {
                0i32
            }) && final(es)@ == s
        }),
{
    if handle == 0 {
        return 0;
    }
    if es.input_close(handle - 1) {
        1
    } else {
        0
    }
}

/// Computes the fingerprint of a named file into `digest`; 0 where it was
/// computed, 1 where the file could not be had, with `digest` untouched.
pub fn get_file_md5(es: &mut ExecutionState, path: &[u8], digest: &mut [u8; 16]) -> (r: i32)
    requires
        session_wf(old(es)@),
    ensures
        session_wf(final(es)@),
        ({
            let (d, s) = get_file_md5_spec(old(es)@, path@);
            final(es)@ == s && match d {
                Some(d) => r == 0 && final(digest)@ == d,
                None => r == 1 && *final(digest) == *old(digest),
            }
        }),
{
    match es.get_file_md5(path) {
        Some(d) => {
            *digest = d;
            0
        },
        None => 1,
    }
}

} // verus!
