//! Input and output handles: one byte stream each, with the name it was
//! opened under and what its fingerprint needs.

use crate::digest::{md5_digest, md5_of};
use crate::format::append_bytes;
use vstd::prelude::*;

verus! {

/// Why an operation on a resource did not succeed.
#[derive(Clone, Copy, Debug, PartialEq, Eq, Structural)]
pub enum IoErrorKind {
    PermissionDenied,
    InvalidData,
    InvalidInput,
    UnexpectedEof,
    AlreadyOpened,
    Other,
}

/// Which kind of backend produced an input.
#[derive(Clone, Copy, Debug, PartialEq, Eq, Structural)]
pub enum InputOrigin {
    Memory,
    Pinned,
    Other,
}

/// Where a seek is measured from.
#[derive(Clone, Copy, Debug, PartialEq, Eq, Structural)]
pub enum SeekFrom {
    Start(u64),
    Current(i64),
    End(i64),
}

/// An input stream over bytes that a provider produced.
pub struct InputHandle {
    name: Vec<u8>,
    origin: InputOrigin,
    data: Vec<u8>,
    pos: u64,
    pushback: Option<u8>,
    seeked: bool,
}

/// The state of an input handle.
pub struct InputView {
    /// The name the handle was opened under.
    pub name: Seq<u8>,
    pub origin: InputOrigin,
    /// The whole content of the stream.
    pub data: Seq<u8>,
    /// The position of the next byte read from the stream.
    pub pos: nat,
    /// A byte handed back, returned by the next read before the stream.
    pub pushback: Option<u8>,
    /// A seek has moved the position, so the fingerprint is lost.
    pub seeked: bool,
}

impl View for InputHandle {
    type V = InputView;

    closed spec fn view(&self) -> InputView {
        InputView {
            name: self.name@,
            origin: self.origin,
            data: self.data@,
            pos: self.pos as nat,
            pushback: self.pushback,
            seeked: self.seeked,
        }
    }
}

/// The invariant of an input handle: until a seek, reads never pass the end.
pub open spec fn input_wf(h: InputView) -> bool {
    h.seeked || h.pos <= h.data.len()
}

/// The bytes that `pos` and `pushback` make available to reads.
pub open spec fn available(h: InputView) -> nat {
    (if h.pushback is Some {
        1nat
    } else {
        0nat
    }) + (if h.pos < h.data.len() {
        (h.data.len() - h.pos) as nat
    } else {
        0nat
    })
}

/// The byte handed back, as a sequence of zero or one bytes.
pub open spec fn pushed_back(h: InputView) -> Seq<u8> {
    match h.pushback {
        Some(b) => seq![b],
        None => Seq::empty(),
    }
}

/// What reading exactly `len` bytes returns and leaves, or `None` where fewer
/// bytes are available. Nothing is consumed by a read of no bytes.
pub open spec fn read_exact_spec(h: InputView, len: nat) -> Option<(Seq<u8>, InputView)> {
    if len == 0 {
        Some((Seq::empty(), h))
    } else if len > available(h) {
        None
    } else {
        let rest = len - pushed_back(h).len();
        let taken = if rest == 0 {
            Seq::empty()
        } else {
            h.data.subrange(h.pos as int, h.pos + rest)
        };
        Some(
            (
                pushed_back(h) + taken,
                InputView { pos: (h.pos + rest) as nat, pushback: None, ..h },
            ),
        )
    }
}

/// The position that a seek aims at, if it is a valid position.
pub open spec fn seek_target(h: InputView, pos: SeekFrom) -> Option<nat> {
    let t: int = match pos {
        SeekFrom::Start(o) => o as int,
        SeekFrom::Current(o) => h.pos + o,
        SeekFrom::End(o) => h.data.len() + o,
    };
    if 0 <= t <= u64::MAX {
        Some(t as nat)
    } else {
        None
    }
}

/// What a seek returns and leaves. A seek that lands elsewhere than the
/// current position loses the fingerprint; any seek drops a byte handed back.
pub open spec fn seek_spec(h: InputView, pos: SeekFrom) -> (Result<u64, IoErrorKind>, InputView) {
    match seek_target(h, pos) {
        Some(t) => (
            Ok(t as u64),
            InputView { pos: t, pushback: None, seeked: h.seeked || t != h.pos, ..h },
        ),
        None => (Err(IoErrorKind::InvalidInput), h),
    }
}

/// What reading one byte returns and leaves: the byte handed back if there
/// is one, else the next byte of the stream; `UnexpectedEof` at its end.
pub open spec fn getc_spec(h: InputView) -> (Result<u8, IoErrorKind>, InputView) {
    match h.pushback {
        Some(b) => (Ok(b), InputView { pushback: None, ..h }),
        None => if h.pos < h.data.len() {
            (Ok(h.data[h.pos as int]), InputView { pos: h.pos + 1, ..h })
        } else {
            (Err(IoErrorKind::UnexpectedEof), h)
        },
    }
}

/// What handing a byte back returns and leaves: one byte can wait, and a
/// second one before a read is refused.
pub open spec fn ungetc_spec(h: InputView, byte: u8) -> (Result<(), IoErrorKind>, InputView) {
    if h.pushback is Some {
        (Err(IoErrorKind::InvalidInput), h)
    } else {
        (Ok(()), InputView { pushback: Some(byte), ..h })
    }
}

/// The fingerprint of an input handle: the digest of the bytes that were read
/// through it, absent once a seek moved its position.
pub open spec fn input_fingerprint(h: InputView) -> Option<Seq<u8>> {
    if h.seeked {
        None
    } else {
        Some(md5_of(h.data.subrange(0, h.pos as int)))
    }
}

impl InputHandle {
    /// A fresh handle over `data`, positioned at its start.
    pub fn new(name: Vec<u8>, data: Vec<u8>, origin: InputOrigin) -> (r: InputHandle)
        ensures
            input_wf(r@),
            r@ == (InputView { name: name@, origin, data: data@, pos: 0, pushback: None, seeked: false }),
    {
        InputHandle { name, origin, data, pos: 0, pushback: None, seeked: false }
    }

    pub fn name(&self) -> (r: &[u8])
        ensures
            r@ == self@.name,
    {
        self.name.as_slice()
    }

    pub fn origin(&self) -> (r: InputOrigin)
        ensures
            r == self@.origin,
    {
        self.origin
    }

    /// The size of the whole stream.
    pub fn get_size(&self) -> (r: usize)
        ensures
            r == self@.data.len(),
    {
        self.data.len()
    }

    /// Moves the position. A seek that lands elsewhere than the current
    /// position loses the fingerprint; any seek drops a byte handed back.
    pub fn try_seek(&mut self, pos: SeekFrom) -> (r: Result<u64, IoErrorKind>)
        requires
            input_wf(old(self)@),
        ensures
            input_wf(final(self)@),
            (r, final(self)@) == seek_spec(old(self)@, pos),
    {
        let t: i128 = match pos {
            SeekFrom::Start(o) => o as i128,
            SeekFrom::Current(o) => self.pos as i128 + o as i128,
            SeekFrom::End(o) => self.data.len() as i128 + o as i128,
        };
        if t < 0 || t > u64::MAX as i128 {
            return Err(IoErrorKind::InvalidInput);
        }
        let t = t as u64;
        if t != self.pos {
            self.seeked = true;
        }
        self.pos = t;
        self.pushback = None;
        Ok(t)
    }

    /// Reads one byte: the byte handed back if there is one, else the next
    /// byte of the stream; `UnexpectedEof` at its end.
    pub fn getc(&mut self) -> (r: Result<u8, IoErrorKind>)
        requires
            input_wf(old(self)@),
        ensures
            input_wf(final(self)@),
            (r, final(self)@) == getc_spec(old(self)@),
    {
        if let Some(b) = self.pushback {
            self.pushback = None;
            return Ok(b);
        }
        if self.pos < self.data.len() as u64 {
            let b = self.data[self.pos as usize];
            self.pos = self.pos + 1;
            Ok(b)
        } else {
            Err(IoErrorKind::UnexpectedEof)
        }
    }

    /// Hands one byte back, to be returned by the next read. Only one byte
    /// can wait: a second one before a read is refused.
    pub fn ungetc(&mut self, byte: u8) -> (r: Result<(), IoErrorKind>)
        requires
            input_wf(old(self)@),
        ensures
            input_wf(final(self)@),
            (r, final(self)@) == ungetc_spec(old(self)@, byte),
    {
        if self.pushback.is_some() {
            return Err(IoErrorKind::InvalidInput);
        }
        self.pushback = Some(byte);
        Ok(())
    }

    /// Reads exactly `len` bytes, or nothing and `UnexpectedEof` where fewer
    /// are available.
    pub fn read_exact(&mut self, len: usize) -> (r: Result<Vec<u8>, IoErrorKind>)
        requires
            input_wf(old(self)@),
        ensures
            input_wf(final(self)@),
            match read_exact_spec(old(self)@, len as nat) {
                Some(p) => r is Ok && r->Ok_0@ == p.0 && final(self)@ == p.1,
                None => r == Err::<Vec<u8>, IoErrorKind>(IoErrorKind::UnexpectedEof)
                    && final(self)@ == old(self)@,
            },
    {
        let mut out: Vec<u8> = Vec::new();
        if len == 0 {
            return Ok(out);
        }
        let in_stream: u64 = if self.pos < self.data.len() as u64 {
            self.data.len() as u64 - self.pos
        } else {
            0
        };
        let ahead: u64 = if self.pushback.is_some() {
            1
        } else {
            0
        };
        if len as u64 - ahead > in_stream {
            return Err(IoErrorKind::UnexpectedEof);
        }
        let mut rest: usize = len;
        if let Some(b) = self.pushback {
            out.push(b);
            rest = rest - 1;
        }
        assert(out@ =~= pushed_back(self@));
        if rest > 0 {
            let start: usize = self.pos as usize;
            let end: usize = start + rest;
            let mut i: usize = start;
            assert(out@ =~= pushed_back(self@) + self.data@.subrange(start as int, i as int));
            while i < end
                invariant
                    start <= i <= end,
                    end <= self.data@.len(),
                    out@ == pushed_back(self@) + self.data@.subrange(start as int, i as int),
                decreases end - i,
            {
                out.push(self.data[i]);
                i = i + 1;
                assert(out@ =~= pushed_back(self@) + self.data@.subrange(start as int, i as int));
            }
            self.pos = end as u64;
        }
        self.pushback = None;
        Ok(out)
    }

    /// Ends the handle: the name it was opened under and its whole content.
    pub fn into_name_data(self) -> (r: (Vec<u8>, Vec<u8>))
        ensures
            r.0@ == self@.name,
            r.1@ == self@.data,
    {
        (self.name, self.data)
    }

    /// Ends the handle: the name it was opened under and its fingerprint.
    pub fn into_name_digest(self) -> (r: (Vec<u8>, Option<[u8; 16]>))
        requires
            input_wf(self@),
        ensures
            r.0@ == self@.name,
            r.1 is Some == input_fingerprint(self@) is Some,
            r.1 matches Some(d) ==> input_fingerprint(self@) == Some(d@),
    {
        if self.seeked {
            (self.name, None)
        } else {
            let len = self.data.len();
            let p: usize = if self.pos < len as u64 {
                self.pos as usize
            } else {
                len
            };
            assert(p == self.pos);
            let read = vstd::slice::slice_subrange(self.data.as_slice(), 0, p);
            let d = md5_digest(read);
            (self.name, Some(d))
        }
    }
}

/// An output stream, collected until the handle is closed.
pub struct OutputHandle {
    name: Vec<u8>,
    target: usize,
    gz: bool,
    data: Vec<u8>,
}

/// The state of an output handle.
pub struct OutputView {
    /// The name the handle was opened under.
    pub name: Seq<u8>,
    /// The position, in the stack, of the provider that receives the bytes.
    pub target: nat,
    /// The bytes are stored gzip-framed.
    pub gz: bool,
    /// The bytes written so far.
    pub data: Seq<u8>,
}

impl View for OutputHandle {
    type V = OutputView;

    closed spec fn view(&self) -> OutputView {
        OutputView { name: self.name@, target: self.target as nat, gz: self.gz, data: self.data@ }
    }
}

impl OutputHandle {
    /// A fresh handle with nothing written.
    pub fn new(name: Vec<u8>, target: usize, gz: bool) -> (r: OutputHandle)
        ensures
            r@ == (OutputView { name: name@, target: target as nat, gz, data: Seq::empty() }),
    {
        OutputHandle { name, target, gz, data: Vec::new() }
    }

    pub fn name(&self) -> (r: &[u8])
        ensures
            r@ == self@.name,
    {
        self.name.as_slice()
    }

    pub fn target(&self) -> (r: usize)
        ensures
            r == self@.target,
    {
        self.target
    }

    pub fn is_gz(&self) -> (r: bool)
        ensures
            r == self@.gz,
    {
        self.gz
    }

    /// Writes the whole buffer.
    pub fn write_all(&mut self, buf: &[u8])
        ensures
            final(self)@ == (OutputView { data: old(self)@.data + buf@, ..old(self)@ }),
    {
        append_bytes(&mut self.data, buf);
    }

    /// Ends the handle: its name, the bytes written, and their fingerprint.
    pub fn into_parts(self) -> (r: (Vec<u8>, Vec<u8>, [u8; 16]))
        ensures
            r.0@ == self@.name,
            r.1@ == self@.data,
            r.2@ == md5_of(self@.data),
    {
        let d = md5_digest(self.data.as_slice());
        (self.name, self.data, d)
    }
}

} // verus!
