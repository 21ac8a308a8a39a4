//! The resolution stack: providers queried in a fixed order, with fallback
//! over a format's candidate extensions and transparent gzip framing.

use crate::compress::{gunzip, gunzip_of};
use crate::format::{
    format_extensions, format_to_extension, has_extension, has_file_name, name_has_extension,
    name_has_file_name, name_with_extension, with_extension, FileFormat,
};
use crate::handle::{InputHandle, IoErrorKind};
use crate::provider::{
    accepts_output, input_answer, input_opened, primary_answer, stdout_answer, stdout_taken,
    stored, Answer, OpenResult, Provider, ProviderView,
};
use vstd::prelude::*;

verus! {

/// The answer of the first provider that does not answer `NotFound`.
pub open spec fn first_answer(ps: Seq<ProviderView>, name: Seq<u8>) -> Answer
    decreases ps.len(),
{
    if ps.len() == 0 {
        Answer::NotFound
    } else {
        match input_answer(ps[0], name) {
            Answer::NotFound => first_answer(ps.drop_first(), name),
            a => a,
        }
    }
}

/// The primary input, from the first provider that does not answer `NotFound`.
pub open spec fn first_primary(ps: Seq<ProviderView>) -> Answer
    decreases ps.len(),
{
    if ps.len() == 0 {
        Answer::NotFound
    } else {
        match primary_answer(ps[0]) {
            Answer::NotFound => first_primary(ps.drop_first()),
            a => a,
        }
    }
}

/// The first answer other than `NotFound` for `name` with one of `exts` put
/// to it, tried in order.
pub open spec fn candidates_answer(ps: Seq<ProviderView>, name: Seq<u8>, exts: Seq<Seq<u8>>) -> Answer
    decreases exts.len(),
{
    if exts.len() == 0 {
        Answer::NotFound
    } else {
        match first_answer(ps, with_extension(name, exts[0])) {
            Answer::NotFound => candidates_answer(ps, name, exts.drop_first()),
            a => a,
        }
    }
}

/// The answer to a request for `name` of format `format`: the name as given
/// first; where no provider has it and it carries no extension, the format's
/// candidate extensions in order.
pub open spec fn resolve(ps: Seq<ProviderView>, name: Seq<u8>, format: FileFormat) -> Answer {
    match first_answer(ps, name) {
        Answer::NotFound => if has_extension(name) || !has_file_name(name) {
            Answer::NotFound
        } else {
            candidates_answer(ps, name, format_extensions(format))
        },
        a => a,
    }
}

/// `resolve`, with a found input decoded from gzip where `gz` asks for it.
pub open spec fn resolve_gz(ps: Seq<ProviderView>, name: Seq<u8>, format: FileFormat, gz: bool) -> Answer {
    let a = resolve(ps, name, format);
    if gz {
        match a {
            Answer::Found { name: n, data, origin } => match gunzip_of(data) {
                Some(d) => Answer::Found { name: n, data: d, origin },
                None => Answer::Failed(IoErrorKind::InvalidData),
            },
            _ => a,
        }
    } else {
        a
    }
}

/// The position of the first provider that takes named outputs.
pub open spec fn output_target(ps: Seq<ProviderView>) -> Option<int>
    decreases ps.len(),
{
    if ps.len() == 0 {
        None
    } else if accepts_output(ps[0]) {
        Some(0)
    } else {
        match output_target(ps.drop_first()) {
            Some(i) => Some(i + 1),
            None => None,
        }
    }
}

/// The position of the first provider that answers a request for standard
/// output with other than `NotAvailable`.
pub open spec fn stdout_target(ps: Seq<ProviderView>) -> Option<int>
    decreases ps.len(),
{
    if ps.len() == 0 {
        None
    } else if !(stdout_answer(ps[0]) is NotAvailable) {
        Some(0)
    } else {
        match stdout_target(ps.drop_first()) {
            Some(i) => Some(i + 1),
            None => None,
        }
    }
}

/// A position found by a search that started at `i`, counted from the start.
pub open spec fn shifted(r: Option<int>, i: int) -> Option<int> {
    match r {
        Some(j) => Some(j + i),
        None => None,
    }
}

/// An index as an optional integer.
pub open spec fn index_of(r: Option<usize>) -> Option<int> {
    match r {
        Some(i) => Some(i as int),
        None => None,
    }
}

/// The ordered providers that resolve names.
pub struct IoStack {
    providers: Vec<Provider>,
}

impl View for IoStack {
    type V = Seq<ProviderView>;

    closed spec fn view(&self) -> Seq<ProviderView> {
        self.providers@.map_values(|p: Provider| p@)
    }
}

impl IoStack {
    /// A stack over `providers`, queried in their order.
    pub fn new(providers: Vec<Provider>) -> (r: IoStack)
        ensures
            r@ == providers@.map_values(|p: Provider| p@),
    {
        IoStack { providers }
    }

    /// The number of providers.
    pub fn len(&self) -> (r: usize)
        ensures
            r == self@.len(),
    {
        self.providers.len()
    }

    /// The provider at position `i`.
    pub fn provider(&self, i: usize) -> (r: &Provider)
        requires
            i < self@.len(),
        ensures
            r@ == self@[i as int],
    {
        &self.providers[i]
    }

    /// Opens `name` exactly as given, from the first provider that has it or
    /// fails on it.
    pub fn input_open_name(&self, name: &[u8]) -> (r: OpenResult<InputHandle>)
        ensures
            input_opened(r, first_answer(self@, name@)),
    {
        let mut i: usize = 0;
        assert(self@.subrange(0, self@.len() as int) =~= self@);
        while i < self.providers.len()
            invariant
                i <= self@.len(),
                self@.len() == self.providers@.len(),
                first_answer(self@, name@) == first_answer(self@.subrange(i as int, self@.len() as int), name@),
            decreases self@.len() - i,
        {
            let r = self.providers[i].input_open_name(name);
            let ghost rest = self@.subrange(i as int, self@.len() as int);
            assert(rest[0] == self@[i as int]);
            assert(rest.drop_first() =~= self@.subrange(i + 1, self@.len() as int));
            match r {
                OpenResult::NotAvailable => {},
                _ => {
                    return r;
                },
            }
            i = i + 1;
        }
        OpenResult::NotAvailable
    }

    /// Opens the primary input.
    pub fn input_open_primary(&self) -> (r: OpenResult<InputHandle>)
        ensures
            input_opened(r, first_primary(self@)),
    {
        let mut i: usize = 0;
        assert(self@.subrange(0, self@.len() as int) =~= self@);
        while i < self.providers.len()
            invariant
                i <= self@.len(),
                self@.len() == self.providers@.len(),
                first_primary(self@) == first_primary(self@.subrange(i as int, self@.len() as int)),
            decreases self@.len() - i,
        {
            let r = self.providers[i].input_open_primary();
            let ghost rest = self@.subrange(i as int, self@.len() as int);
            assert(rest[0] == self@[i as int]);
            assert(rest.drop_first() =~= self@.subrange(i + 1, self@.len() as int));
            match r {
                OpenResult::NotAvailable => {},
                _ => {
                    return r;
                },
            }
            i = i + 1;
        }
        OpenResult::NotAvailable
    }

    /// Opens `name` of format `format`, trying the format's extensions where
    /// the name carries none and no provider has it as given.
    pub fn input_open_name_format(&self, name: &[u8], format: FileFormat) -> (r: OpenResult<InputHandle>)
        ensures
            input_opened(r, resolve(self@, name@, format)),
    {
        let r = self.input_open_name(name);
        match r {
            OpenResult::NotAvailable => {},
            _ => {
                return r;
            },
        }
        if name_has_extension(name) || !name_has_file_name(name) {
            return OpenResult::NotAvailable;
        }
        let exts = format_to_extension(format);
        let ghost all = format_extensions(format);
        let mut i: usize = 0;
        assert(all.subrange(0, all.len() as int) =~= all);
        while i < exts.len()
            invariant
                i <= exts@.len(),
                exts@.len() == all.len(),
                forall|k: int| 0 <= k < exts@.len() ==> #[trigger] exts@[k]@ == all[k],
                first_answer(self@, name@) is NotFound,
                all == format_extensions(format),
                !has_extension(name@),
                has_file_name(name@),
                candidates_answer(self@, name@, all) == candidates_answer(
                    self@,
                    name@,
                    all.subrange(i as int, all.len() as int),
                ),
            decreases exts@.len() - i,
        {
            proof {
                assert(exts@[i as int]@ == all[i as int]);
            }
            let candidate = name_with_extension(name, exts[i].as_slice());
            let r = self.input_open_name(candidate.as_slice());
            let ghost rest = all.subrange(i as int, all.len() as int);
            assert(rest[0] == all[i as int]);
            assert(rest.drop_first() =~= all.subrange(i + 1, all.len() as int));
            match r {
                OpenResult::NotAvailable => {},
                _ => {
                    return r;
                },
            }
            i = i + 1;
        }
        OpenResult::NotAvailable
    }

    /// `input_open_name_format`, with the found stream decoded from gzip
    /// where `is_gz` asks for it; a stream that does not decode fails with
    /// `InvalidData`.
    pub fn input_open_name_format_gz(&self, name: &[u8], format: FileFormat, is_gz: bool) -> (r:
        OpenResult<InputHandle>)
        ensures
            input_opened(r, resolve_gz(self@, name@, format, is_gz)),
    {
        let base = self.input_open_name_format(name, format);
        if !is_gz {
            return base;
        }
        match base {
            OpenResult::Opened(ih) => {
                let origin = ih.origin();
                let (n, data) = ih.into_name_data();
                match gunzip(data.as_slice()) {
                    Some(d) => OpenResult::Opened(InputHandle::new(n, d, origin)),
                    None => OpenResult::Failed(IoErrorKind::InvalidData),
                }
            },
            _ => base,
        }
    }

    /// The position of the first provider that takes named outputs.
    pub fn output_open_name(&self) -> (r: Option<usize>)
        ensures
            index_of(r) == output_target(self@),
            r matches Some(i) ==> i < self@.len(),
    {
        let mut i: usize = 0;
        assert(self@.subrange(0, self@.len() as int) =~= self@);
        while i < self.providers.len()
            invariant
                i <= self@.len(),
                self@.len() == self.providers@.len(),
                output_target(self@) == shifted(
                    output_target(self@.subrange(i as int, self@.len() as int)),
                    i as int,
                ),
            decreases self@.len() - i,
        {
            let ghost rest = self@.subrange(i as int, self@.len() as int);
            assert(rest[0] == self@[i as int]);
            assert(rest.drop_first() =~= self@.subrange(i + 1, self@.len() as int));
            if self.providers[i].accepts_output() {
                return Some(i);
            }
            i = i + 1;
        }
        None
    }

    /// Opens standard output from the first provider that serves it; that
    /// provider counts it as handed out.
    pub fn output_open_stdout(&mut self) -> (r: OpenResult<usize>)
        ensures
            r matches OpenResult::Opened(i) ==> i < old(self)@.len() && stdout_target(old(self)@) == Some(
                i as int,
            ),
            match stdout_target(old(self)@) {
                Some(i) => match stdout_answer(old(self)@[i]) {
                    OpenResult::Opened(_) => r == OpenResult::<usize>::Opened(i as usize)
                        && final(self)@ == old(self)@.update(i, stdout_taken(old(self)@[i])),
                    OpenResult::Failed(e) => r == OpenResult::<usize>::Failed(e) && final(self)@
                        == old(self)@,
                    OpenResult::NotAvailable => false,
                },
                None => r is NotAvailable && final(self)@ == old(self)@,
            },
    {
        let mut i: usize = 0;
        assert(self@.subrange(0, self@.len() as int) =~= self@);
        while i < self.providers.len()
            invariant
                i <= self@.len(),
                self@.len() == self.providers@.len(),
                self@ == old(self)@,
                stdout_target(self@) == shifted(
                    stdout_target(self@.subrange(i as int, self@.len() as int)),
                    i as int,
                ),
            decreases self@.len() - i,
        {
            let ghost rest = self@.subrange(i as int, self@.len() as int);
            assert(rest[0] == self@[i as int]);
            assert(rest.drop_first() =~= self@.subrange(i + 1, self@.len() as int));
            let r = self.providers[i].output_open_stdout();
            match r {
                OpenResult::Opened(()) => {
                    assert(self@ =~= old(self)@.update(i as int, stdout_taken(old(self)@[i as int])));
                    return OpenResult::Opened(i);
                },
                OpenResult::Failed(e) => {
                    assert(self@ =~= old(self)@);
                    return OpenResult::Failed(e);
                },
                OpenResult::NotAvailable => {
                    assert(self@ =~= old(self)@);
                },
            }
            i = i + 1;
        }
        OpenResult::NotAvailable
    }

    /// Delivers the bytes of a closed output to the provider at `target`.
    pub fn store(&mut self, target: usize, name: Vec<u8>, data: Vec<u8>)
        requires
            target < old(self)@.len(),
        ensures
            final(self)@ == old(self)@.update(target as int, stored(old(self)@[target as int], name@, data@)),
    {
        self.providers[target].store(name, data);
        assert(self@ =~= old(self)@.update(target as int, stored(old(self)@[target as int], name@, data@)));
    }
}

} // verus!
