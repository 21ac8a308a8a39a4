//! Providers: backends that resolve names to byte streams, each answering
//! `Found`, `NotFound` or `Failed`.

use crate::format::{append_bytes, bytes_eq};
use crate::handle::{input_wf, InputHandle, InputOrigin, InputView, IoErrorKind};
use vstd::prelude::*;

verus! {

/// The outcome of opening a resource.
pub enum OpenResult<T> {
    Opened(T),
    NotAvailable,
    Failed(IoErrorKind),
}

/// The answer to an input request, over plain values.
pub enum Answer {
    Found { name: Seq<u8>, data: Seq<u8>, origin: InputOrigin },
    NotFound,
    Failed(IoErrorKind),
}

/// `r` stands for the answer `a`; a found input comes as a fresh handle.
pub open spec fn input_opened(r: OpenResult<InputHandle>, a: Answer) -> bool {
    match r {
        OpenResult::Opened(h) => match a {
            Answer::Found { name, data, origin } => input_wf(h@) && h@ == (InputView {
                name,
                origin,
                data,
                pos: 0,
                pushback: None,
                seeked: false,
            }),
            _ => false,
        },
        OpenResult::NotAvailable => a is NotFound,
        OpenResult::Failed(e) => a == Answer::Failed(e),
    }
}

/// A copy of a byte string.
pub fn copy_bytes(v: &[u8]) -> (r: Vec<u8>)
    ensures
        r@ == v@,
{
    vstd::slice::slice_to_vec(v)
}

/// The position of the first entry of `files` whose key is `name`.
pub open spec fn first_match<V>(files: Seq<(Seq<u8>, V)>, name: Seq<u8>) -> Option<int>
    decreases files.len(),
{
    if files.len() == 0 {
        None
    } else if files[0].0 == name {
        Some(0)
    } else {
        match first_match(files.drop_first(), name) {
            Some(i) => Some(i + 1),
            None => None,
        }
    }
}

/// The content stored under `name`.
pub open spec fn mem_lookup(files: Seq<(Seq<u8>, Seq<u8>)>, name: Seq<u8>) -> Option<Seq<u8>> {
    match first_match(files, name) {
        Some(i) => Some(files[i].1),
        None => None,
    }
}

/// The files after `data` is written under `name`, over what was there.
pub open spec fn mem_store(files: Seq<(Seq<u8>, Seq<u8>)>, name: Seq<u8>, data: Seq<u8>) -> Seq<
    (Seq<u8>, Seq<u8>),
> {
    match first_match(files, name) {
        Some(i) => files.update(i, (name, data)),
        None => files.push((name, data)),
    }
}

/// The first match is the first position whose name is `name`.
pub proof fn lemma_first_match<V>(files: Seq<(Seq<u8>, V)>, name: Seq<u8>, i: int)
    requires
        0 <= i <= files.len(),
        forall|k: int| 0 <= k < i ==> files[k].0 != name,
        i == files.len() || files[i].0 == name,
    ensures
        first_match(files, name) == (if i == files.len() {
            None
        } else {
            Some(i)
        }),
    decreases i,
{
    if i > 0 {
        let rest = files.drop_first();
        assert forall|k: int| 0 <= k < i - 1 implies rest[k].0 != name by {
            assert(rest[k] == files[k + 1]);
        }
        if i < files.len() {
            assert(rest[i - 1] == files[i]);
        }
        lemma_first_match(rest, name, i - 1);
    }
}

/// What is stored under a name is what a later lookup of it finds.
pub proof fn lemma_store_lookup(files: Seq<(Seq<u8>, Seq<u8>)>, name: Seq<u8>, data: Seq<u8>)
    ensures
        mem_lookup(mem_store(files, name, data), name) == Some(data),
{
    let after = mem_store(files, name, data);
    match first_match(files, name) {
        Some(i) => {
            lemma_first_match_bounds(files, name);
            lemma_first_match_prefix(files, name);
            assert forall|k: int| 0 <= k < i implies after[k].0 != name by {
                assert(after[k] == files[k]);
            }
            lemma_first_match(after, name, i);
        },
        None => {
            lemma_first_match_prefix(files, name);
            assert forall|k: int| 0 <= k < files.len() implies after[k].0 != name by {
                assert(after[k] == files[k]);
            }
            lemma_first_match(after, name, files.len() as int);
        },
    }
}

/// A first match lies within the files and carries the name.
pub proof fn lemma_first_match_bounds<V>(files: Seq<(Seq<u8>, V)>, name: Seq<u8>)
    ensures
        first_match(files, name) matches Some(i) ==> 0 <= i < files.len() && files[i].0 == name,
    decreases files.len(),
{
    if files.len() > 0 && files[0].0 != name {
        lemma_first_match_bounds(files.drop_first(), name);
    }
}

/// No entry before the first match carries the name; none at all where there
/// is no match.
pub proof fn lemma_first_match_prefix<V>(files: Seq<(Seq<u8>, V)>, name: Seq<u8>)
    ensures
        first_match(files, name) matches Some(i) ==> forall|k: int| 0 <= k < i ==> files[k].0 != name,
        first_match(files, name) is None ==> forall|k: int| 0 <= k < files.len() ==> files[k].0 != name,
    decreases files.len(),
{
    if files.len() > 0 && files[0].0 != name {
        let rest = files.drop_first();
        lemma_first_match_prefix(rest, name);
        lemma_first_match_bounds(rest, name);
        assert forall|k: int|
            0 <= k < files.len() && first_match(rest, name) is Some && k < first_match(
                rest,
                name,
            )->Some_0 + 1 implies files[k].0 != name by {
            if k > 0 {
                assert(files[k] == rest[k - 1]);
            }
        }
        assert forall|k: int| 0 <= k < files.len() && first_match(rest, name) is None implies files[k].0
            != name by {
            if k > 0 {
                assert(files[k] == rest[k - 1]);
            }
        }
    }
}

/// A scratch store of named byte buffers, kept in memory.
pub struct MemoryIo {
    files: Vec<(Vec<u8>, Vec<u8>)>,
}

impl View for MemoryIo {
    type V = Seq<(Seq<u8>, Seq<u8>)>;

    closed spec fn view(&self) -> Seq<(Seq<u8>, Seq<u8>)> {
        self.files@.map_values(|p: (Vec<u8>, Vec<u8>)| (p.0@, p.1@))
    }
}

impl MemoryIo {
    /// An empty store.
    pub fn new() -> (r: MemoryIo)
        ensures
            r@ == Seq::<(Seq<u8>, Seq<u8>)>::empty(),
    {
        let r = MemoryIo { files: Vec::new() };
        assert(r@ =~= Seq::<(Seq<u8>, Seq<u8>)>::empty());
        r
    }

    /// The position of the first entry named `name`.
    fn find(&self, name: &[u8]) -> (r: Option<usize>)
        ensures
            r matches Some(i) ==> first_match(self@, name@) == Some(i as int),
            r matches Some(i) ==> i < self.files@.len(),
            r is None ==> first_match(self@, name@) is None,
    {
        let mut i: usize = 0;
        while i < self.files.len()
            invariant
                i <= self.files@.len(),
                self@.len() == self.files@.len(),
                forall|k: int| 0 <= k < i ==> self@[k].0 != name@,
            decreases self.files@.len() - i,
        {
            if bytes_eq(self.files[i].0.as_slice(), name) {
                proof {
                    lemma_first_match(self@, name@, i as int);
                }
                return Some(i);
            }
            i = i + 1;
        }
        proof {
            lemma_first_match(self@, name@, i as int);
        }
        None
    }

    /// A copy of the content stored under `name`.
    pub fn lookup(&self, name: &[u8]) -> (r: Option<Vec<u8>>)
        ensures
            r matches Some(v) ==> mem_lookup(self@, name@) == Some(v@),
            r is None ==> mem_lookup(self@, name@) is None,
    {
        match self.find(name) {
            Some(i) => Some(copy_bytes(self.files[i].1.as_slice())),
            None => None,
        }
    }

    /// Stores `data` under `name`, over what was there.
    pub fn store(&mut self, name: Vec<u8>, data: Vec<u8>)
        ensures
            final(self)@ == mem_store(old(self)@, name@, data@),
    {
        match self.find(name.as_slice()) {
            Some(i) => {
                self.files.set(i, (name, data));
                assert(self@ =~= mem_store(old(self)@, name@, data@));
            },
            None => {
                self.files.push((name, data));
                assert(self@ =~= mem_store(old(self)@, name@, data@));
            },
        }
    }
}

/// One input known ahead of time: its name and what reading it gave.
pub struct PinnedIo {
    name: Vec<u8>,
    content: Result<Vec<u8>, IoErrorKind>,
}

/// The output sink that stands for standard output; it can be opened once.
pub struct StdoutIo {
    opened: bool,
    written: Vec<u8>,
}

/// A backend of the resolution stack.
pub enum Provider {
    Memory(MemoryIo),
    Pinned(PinnedIo),
    Stdout(StdoutIo),
}

/// The state of a provider, over plain values.
pub enum ProviderView {
    /// Named buffers, looked up by first match.
    Memory(Seq<(Seq<u8>, Seq<u8>)>),
    /// A name and what reading it gave.
    Pinned(Seq<u8>, Result<Seq<u8>, IoErrorKind>),
    /// Whether it was opened, and what was written to it.
    Stdout(bool, Seq<u8>),
}

impl View for Provider {
    type V = ProviderView;

    closed spec fn view(&self) -> ProviderView {
        match self {
            Provider::Memory(m) => ProviderView::Memory(m@),
            Provider::Pinned(p) => ProviderView::Pinned(
                p.name@,
                match p.content {
                    Ok(v) => Ok(v@),
                    Err(e) => Err(e),
                },
            ),
            Provider::Stdout(s) => ProviderView::Stdout(s.opened, s.written@),
        }
    }
}

/// What a pinned input answers.
pub open spec fn pinned_answer(name: Seq<u8>, content: Result<Seq<u8>, IoErrorKind>) -> Answer {
    match content {
        Ok(data) => Answer::Found { name, data, origin: InputOrigin::Pinned },
        Err(e) => Answer::Failed(e),
    }
}

/// What a provider answers to a request for the input `name`.
pub open spec fn input_answer(p: ProviderView, name: Seq<u8>) -> Answer {
    match p {
        ProviderView::Memory(files) => match mem_lookup(files, name) {
            Some(data) => Answer::Found { name, data, origin: InputOrigin::Memory },
            None => Answer::NotFound,
        },
        ProviderView::Pinned(n, content) => if n == name {
            pinned_answer(n, content)
        } else {
            Answer::NotFound
        },
        ProviderView::Stdout(_, _) => Answer::NotFound,
    }
}

/// What a provider answers to a request for the primary input.
pub open spec fn primary_answer(p: ProviderView) -> Answer {
    match p {
        ProviderView::Pinned(n, content) => pinned_answer(n, content),
        _ => Answer::NotFound,
    }
}

/// Whether a provider takes named outputs.
pub open spec fn accepts_output(p: ProviderView) -> bool {
    p is Memory
}

/// What a provider answers to a request for standard output.
pub open spec fn stdout_answer(p: ProviderView) -> OpenResult<()> {
    match p {
        ProviderView::Stdout(opened, _) => if opened {
            OpenResult::Failed(IoErrorKind::AlreadyOpened)
        } else {
            OpenResult::Opened(())
        },
        _ => OpenResult::NotAvailable,
    }
}

/// A provider after it has handed out standard output.
pub open spec fn stdout_taken(p: ProviderView) -> ProviderView {
    match p {
        ProviderView::Stdout(_, w) => ProviderView::Stdout(true, w),
        _ => p,
    }
}

/// A provider after a closed output has delivered `data` under `name`.
pub open spec fn stored(p: ProviderView, name: Seq<u8>, data: Seq<u8>) -> ProviderView {
    match p {
        ProviderView::Memory(files) => ProviderView::Memory(mem_store(files, name, data)),
        ProviderView::Stdout(o, w) => ProviderView::Stdout(o, w + data),
        _ => p,
    }
}

impl Provider {
    /// An empty scratch store.
    pub fn memory() -> (r: Provider)
        ensures
            r@ == ProviderView::Memory(Seq::empty()),
    {
        Provider::Memory(MemoryIo::new())
    }

    /// A pinned input named `name` with what reading it gave.
    pub fn pinned(name: Vec<u8>, content: Result<Vec<u8>, IoErrorKind>) -> (r: Provider)
        ensures
            r@ == ProviderView::Pinned(
                name@,
                match content {
                    Ok(v) => Ok(v@),
                    Err(e) => Err(e),
                },
            ),
    {
        Provider::Pinned(PinnedIo { name, content })
    }

    /// A standard-output sink that was not opened yet.
    pub fn stdout() -> (r: Provider)
        ensures
            r@ == ProviderView::Stdout(false, Seq::empty()),
    {
        Provider::Stdout(StdoutIo { opened: false, written: Vec::new() })
    }

    /// What was written to a standard-output sink.
    pub fn written(&self) -> (r: Option<&[u8]>)
        ensures
            match self@ {
                ProviderView::Stdout(_, w) => r matches Some(s) && s@ == w,
                _ => r is None,
            },
    {
        match self {
            Provider::Stdout(s) => Some(s.written.as_slice()),
            _ => None,
        }
    }

    /// A copy of what a scratch store holds under `name`.
    pub fn stored_content(&self, name: &[u8]) -> (r: Option<Vec<u8>>)
        ensures
            match self@ {
                ProviderView::Memory(files) => match mem_lookup(files, name@) {
                    Some(d) => r matches Some(v) && v@ == d,
                    None => r is None,
                },
                _ => r is None,
            },
    {
        match self {
            Provider::Memory(m) => m.lookup(name),
            _ => None,
        }
    }

    /// Opens the input `name`.
    pub fn input_open_name(&self, name: &[u8]) -> (r: OpenResult<InputHandle>)
        ensures
            input_opened(r, input_answer(self@, name@)),
    {
        match self {
            Provider::Memory(m) => match m.lookup(name) {
                Some(data) => OpenResult::Opened(
                    InputHandle::new(copy_bytes(name), data, InputOrigin::Memory),
                ),
                None => OpenResult::NotAvailable,
            },
            Provider::Pinned(p) => {
                if bytes_eq(p.name.as_slice(), name) {
                    p.open()
                } else {
                    OpenResult::NotAvailable
                }
            },
            Provider::Stdout(_) => OpenResult::NotAvailable,
        }
    }

    /// Opens the primary input.
    pub fn input_open_primary(&self) -> (r: OpenResult<InputHandle>)
        ensures
            input_opened(r, primary_answer(self@)),
    {
        match self {
            Provider::Pinned(p) => p.open(),
            _ => OpenResult::NotAvailable,
        }
    }

    /// Whether the provider takes named outputs.
    pub fn accepts_output(&self) -> (r: bool)
        ensures
            r == accepts_output(self@),
    {
        match self {
            Provider::Memory(_) => true,
            _ => false,
        }
    }

    /// Opens standard output, once.
    pub fn output_open_stdout(&mut self) -> (r: OpenResult<()>)
        ensures
            r == stdout_answer(old(self)@),
            r is Opened ==> final(self)@ == stdout_taken(old(self)@),
            !(r is Opened) ==> final(self)@ == old(self)@,
    {
        match self {
            Provider::Stdout(s) => {
                if s.opened {
                    OpenResult::Failed(IoErrorKind::AlreadyOpened)
                } else {
                    s.opened = true;
                    OpenResult::Opened(())
                }
            },
            _ => OpenResult::NotAvailable,
        }
    }

    /// Delivers the bytes of a closed output.
    pub fn store(&mut self, name: Vec<u8>, data: Vec<u8>)
        ensures
            final(self)@ == stored(old(self)@, name@, data@),
    {
        match self {
            Provider::Memory(m) => m.store(name, data),
            Provider::Stdout(s) => append_bytes(&mut s.written, data.as_slice()),
            Provider::Pinned(_) => {},
        }
    }
}

impl PinnedIo {
    fn open(&self) -> (r: OpenResult<InputHandle>)
        ensures
            input_opened(
                r,
                pinned_answer(
                    self.name@,
                    match self.content {
                        Ok(v) => Ok(v@),
                        Err(e) => Err(e),
                    },
                ),
            ),
    {
        match &self.content {
            Ok(data) => OpenResult::Opened(
                InputHandle::new(
                    copy_bytes(self.name.as_slice()),
                    copy_bytes(data.as_slice()),
                    InputOrigin::Pinned,
                ),
            ),
            Err(e) => OpenResult::Failed(*e),
        }
    }
}

} // verus!
