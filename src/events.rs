//! Notifications of what an engine opened and closed, and the observers
//! that receive them.

use crate::handle::InputOrigin;
use vstd::prelude::*;

verus! {

/// One notification about the engine's inputs and outputs.
pub enum IoEvent {
    OutputOpened(Vec<u8>),
    StdoutOpened,
    /// The name and the fingerprint of the bytes written.
    OutputClosed(Vec<u8>, [u8; 16]),
    /// The name the input was found under, and its origin.
    InputOpened(Vec<u8>, InputOrigin),
    PrimaryInputOpened(InputOrigin),
    /// The name as requested.
    InputNotAvailable(Vec<u8>),
    /// The name and the fingerprint of the bytes read, absent after a seek.
    InputClosed(Vec<u8>, Option<[u8; 16]>),
}

/// A notification, over plain values.
pub enum EventView {
    OutputOpened(Seq<u8>),
    StdoutOpened,
    OutputClosed(Seq<u8>, Seq<u8>),
    InputOpened(Seq<u8>, InputOrigin),
    PrimaryInputOpened(InputOrigin),
    InputNotAvailable(Seq<u8>),
    InputClosed(Seq<u8>, Option<Seq<u8>>),
}

impl View for IoEvent {
    type V = EventView;

    open spec fn view(&self) -> EventView {
        match self {
            IoEvent::OutputOpened(n) => EventView::OutputOpened(n@),
            IoEvent::StdoutOpened => EventView::StdoutOpened,
            IoEvent::OutputClosed(n, d) => EventView::OutputClosed(n@, d@),
            IoEvent::InputOpened(n, o) => EventView::InputOpened(n@, *o),
            IoEvent::PrimaryInputOpened(o) => EventView::PrimaryInputOpened(*o),
            IoEvent::InputNotAvailable(n) => EventView::InputNotAvailable(n@),
            IoEvent::InputClosed(n, d) => EventView::InputClosed(
                n@,
                match d {
                    Some(d) => Some(d@),
                    None => None,
                },
            ),
        }
    }
}

/// An observer of the engine's inputs and outputs. Every method does
/// nothing unless an implementation says otherwise.
pub trait IoEventBackend {
    /// A file was opened for output.
    fn output_opened(&mut self, _name: &[u8]) {
    }

    /// Standard output was opened.
    fn stdout_opened(&mut self) {
    }

    /// An output was closed, with the fingerprint of what was written.
    fn output_closed(&mut self, _name: Vec<u8>, _digest: [u8; 16]) {
    }

    /// A file was opened for input.
    fn input_opened(&mut self, _name: &[u8], _origin: InputOrigin) {
    }

    /// The primary input was opened.
    fn primary_input_opened(&mut self, _origin: InputOrigin) {
    }

    /// The engine asked for an input that is not available.
    fn input_not_available(&mut self, _name: &[u8]) {
    }

    /// An input was closed, with the fingerprint of what was read, if known.
    fn input_closed(&mut self, _name: Vec<u8>, _digest: Option<[u8; 16]>) {
    }
}

/// An observer that ignores everything.
pub struct NoopIoEventBackend {}

impl NoopIoEventBackend {
    pub fn new() -> NoopIoEventBackend {
        NoopIoEventBackend {  }
    }
}

impl IoEventBackend for NoopIoEventBackend {

}

/// Hands each notification, in order, to the observer.
pub fn dispatch<B: IoEventBackend>(events: &[IoEvent], backend: &mut B) {
    let mut i: usize = 0;
    while i < events.len()
        decreases events@.len() - i,
    {
        match &events[i] {
            IoEvent::OutputOpened(n) => backend.output_opened(n.as_slice()),
            IoEvent::StdoutOpened => backend.stdout_opened(),
            IoEvent::OutputClosed(n, d) => backend.output_closed(n.clone(), *d),
            IoEvent::InputOpened(n, o) => backend.input_opened(n.as_slice(), *o),
            IoEvent::PrimaryInputOpened(o) => backend.primary_input_opened(*o),
            IoEvent::InputNotAvailable(n) => backend.input_not_available(n.as_slice()),
            IoEvent::InputClosed(n, d) => backend.input_closed(n.clone(), *d),
        }
        i = i + 1;
    }
}

} // verus!
