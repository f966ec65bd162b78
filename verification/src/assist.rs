//! The `assist` interface: capture types whose selection sources have no
//! manual variant, a two-precision `Quant`, a resolver trait with a
//! change-watch hook, the queue-backed stub resolver that stands in for a
//! platform backend, and the worker request without decision ids.

use std::collections::VecDeque;

use vstd::prelude::*;

use crate::text::{chars_of, extend_chars, string_of};

pub use crate::platform::OverlayError;
pub use crate::worker::WorkerGone;

verus! {

/// A rectangle in logical screen coordinates.
#[derive(Debug, Clone, Copy, PartialEq, Eq, Structural)]
pub struct Rect {
    /// Left edge, in logical pixels.
    pub x: i32,
    /// Top edge, in logical pixels.
    pub y: i32,
    /// Width, in logical pixels.
    pub width: i32,
    /// Height, in logical pixels.
    pub height: i32,
}

/// Where a piece of resolved text came from.
#[derive(Debug, Clone, Copy, PartialEq, Eq, Structural)]
pub enum Source {
    /// The operating system's selection buffer (e.g. PRIMARY on Linux).
    Selection,
    /// The accessibility tree.
    Accessibility,
    /// Optical character recognition (reserved).
    Ocr,
}

/// A block of text resolved from the screen.
#[derive(Debug, Clone, PartialEq, Eq)]
pub struct Selection {
    /// The resolved text.
    pub text: String,
    /// Which resolver produced it.
    pub source: Source,
    /// Screen bounds, when the resolver can report them.
    pub bounds: Option<Rect>,
}

/// The role of an item within a decision session.
#[derive(Debug, Clone, Copy, PartialEq, Eq, Structural)]
pub enum Role {
    /// The question being answered.
    Question,
    /// A candidate answer.
    Answer,
}

/// One captured item: the question or an answer, with its resolved text.
#[derive(Debug, Clone, PartialEq, Eq)]
pub struct Item {
    /// Whether this item is the question or an answer.
    pub role: Role,
    /// The resolved selection.
    pub selection: Selection,
}

/// Weight precision of a checkpoint.
#[derive(Debug, Clone, Copy, PartialEq, Eq, Structural)]
pub enum Quant {
    /// 8-bit quantized weights (smallest footprint).
    Int8,
    /// 32-bit floating point weights (larger, highest fidelity).
    Fp32,
}

/// Whether the accessibility resolver can run on this system: no
/// accessibility backend exists yet, so never.
pub fn accessibility_available() -> (b: bool)
    ensures
        !b,
{
    false
}

/// Errors returned by a [`TextResolver`].
#[derive(Debug)]
pub enum ResolveError {
    /// The resolver is not available on this system.
    Unavailable,
    /// The underlying platform call failed.
    Platform(String),
}

impl ResolveError {
    /// The user-facing message for this error.
    pub fn message(&self) -> (r: String)
        ensures
            r@ == match *self {
                ResolveError::Unavailable => "resolver unavailable on this system"@,
                ResolveError::Platform(msg) => "platform error: "@ + msg@,
            },
    {
        match self {
            ResolveError::Unavailable => string_of(
                chars_of("resolver unavailable on this system").as_slice(),
            ),
            ResolveError::Platform(msg) => {
                let mut v = chars_of("platform error: ");
                let m = chars_of(msg.as_str());
                extend_chars(&mut v, m.as_slice());
                string_of(v.as_slice())
            },
        }
    }
}

/// A source of selection changes: each call hands out the next change, or
/// `None` once the stream has ended.
pub trait SelectionChanges {
    /// The next selection change, or `None` when the stream is over.
    fn next_change(&mut self) -> Option<Result<Selection, ResolveError>>;
}

/// A stream of selection changes produced by [`TextResolver::watch`].
pub type SelectionStream = Box<dyn SelectionChanges>;

/// A source of text from the screen. Implementations may read the selection
/// buffer but must not overwrite it.
pub trait TextResolver: Send + Sync {
    /// Human-readable resolver name (for logs and the UI).
    fn name(&self) -> &'static str;

    /// Whether this resolver can run on the current system.
    fn available(&self) -> bool;

    /// Read the app's current native text selection, if any.
    fn resolve_current_selection(&self) -> Result<Option<Selection>, ResolveError>;

    /// Watch for selection changes, or `None` when the backend cannot report
    /// changes.
    fn watch(&self) -> Option<SelectionStream>;
}

/// A resolver whose selections are queued by the caller and handed out in
/// queue order. It touches no clipboard and no OS state.
#[derive(Debug)]
pub struct StubResolver {
    queued: VecDeque<Selection>,
}

impl View for StubResolver {
    type V = Seq<Selection>;

    closed spec fn view(&self) -> Seq<Selection> {
        self.queued@
    }
}

/// A call on a stub resolver: queueing a selection, or resolving one.
pub enum StubCall {
    /// `queue` or `queue_selection` with this selection.
    Queue(Selection),
    /// `resolve_current_selection`.
    Resolve,
}

/// The queue after `call` on the queue `q`, and what a resolve hands out.
pub open spec fn stub_step(q: Seq<Selection>, call: StubCall) -> (Seq<Selection>, Option<Selection>) {
    match call {
        StubCall::Queue(s) => (q.push(s), None),
        StubCall::Resolve => if q.len() == 0 {
            (q, None)
        } else {
            (q.drop_first(), Some(q[0]))
        },
    }
}

/// The queue after `calls` on the queue `q`, and what each resolve handed
/// out, in order.
pub open spec fn stub_run(q: Seq<Selection>, calls: Seq<StubCall>) -> (Seq<Selection>, Seq<Option<Selection>>)
    decreases calls.len(),
{
    if calls.len() == 0 {
        (q, seq![])
    } else {
        let (q1, outs) = stub_run(q, calls.drop_last());
        let (q2, out) = stub_step(q1, calls.last());
        match calls.last() {
            StubCall::Queue(_) => (q2, outs),
            StubCall::Resolve => (q2, outs.push(out)),
        }
    }
}

/// The selections queued by `calls`, in order.
pub open spec fn queued_by(calls: Seq<StubCall>) -> Seq<Selection>
    decreases calls.len(),
{
    if calls.len() == 0 {
        seq![]
    } else {
        match calls.last() {
            StubCall::Queue(s) => queued_by(calls.drop_last()).push(s),
            StubCall::Resolve => queued_by(calls.drop_last()),
        }
    }
}

/// The selections actually handed out, in order.
pub open spec fn handed_out(outs: Seq<Option<Selection>>) -> Seq<Selection>
    decreases outs.len(),
{
    if outs.len() == 0 {
        seq![]
    } else {
        match outs.last() {
            Some(s) => handed_out(outs.drop_last()).push(s),
            None => handed_out(outs.drop_last()),
        }
    }
}

/// The stub resolver is first-in, first-out and loses nothing: over any
/// run of calls, what was handed out followed by what is still queued is
/// what was queued before followed by what the calls queued, in order. So
/// the pending count is the count before, plus the selections queued,
/// minus the selections handed out, and the `k`-th selection handed out is
/// the `k`-th one queued.
pub proof fn law_stub_resolver_is_fifo(q: Seq<Selection>, calls: Seq<StubCall>)
    ensures
        handed_out(stub_run(q, calls).1) + stub_run(q, calls).0 == q + queued_by(calls),
        stub_run(q, calls).0.len() == q.len() + queued_by(calls).len() - handed_out(
            stub_run(q, calls).1,
        ).len(),
    decreases calls.len(),
{
    if calls.len() > 0 {
        let init = calls.drop_last();
        law_stub_resolver_is_fifo(q, init);
        let (q1, outs) = stub_run(q, init);
        match calls.last() {
            StubCall::Queue(s) => {
                assert(handed_out(outs) + q1.push(s) =~= (handed_out(outs) + q1).push(s));
                assert(q + queued_by(init).push(s) =~= (q + queued_by(init)).push(s));
            },
            StubCall::Resolve => {
                if q1.len() > 0 {
                    let o = outs.push(Some(q1[0]));
                    assert(o.drop_last() =~= outs);
                    assert(handed_out(o) == handed_out(outs).push(q1[0]));
                    assert(handed_out(o) + q1.drop_first() =~= handed_out(outs) + q1);
                } else {
                    let o = outs.push(None::<Selection>);
                    assert(o.drop_last() =~= outs);
                    assert(handed_out(o) == handed_out(outs));
                }
            },
        }
        assert(handed_out(stub_run(q, calls).1) + stub_run(q, calls).0 == q + queued_by(calls));
        assert((handed_out(stub_run(q, calls).1) + stub_run(q, calls).0).len() == (q + queued_by(
            calls,
        )).len());
    }
}

impl StubResolver {
    /// Create an empty stub resolver.
    pub fn new() -> (r: Self)
        ensures
            r@ == Seq::<Selection>::empty(),
    {
        StubResolver { queued: VecDeque::new() }
    }

    /// Queue `text` as a selection with [`Source::Selection`] and no bounds.
    pub fn queue(&mut self, text: String)
        ensures
            final(self)@ == old(self)@.push(
                Selection { text, source: Source::Selection, bounds: None },
            ),
            final(self)@ == stub_step(
                old(self)@,
                StubCall::Queue(Selection { text, source: Source::Selection, bounds: None }),
            ).0,
    {
        self.queue_selection(Selection { text, source: Source::Selection, bounds: None });
    }

    /// Queue a fully-formed selection.
    pub fn queue_selection(&mut self, selection: Selection)
        ensures
            final(self)@ == old(self)@.push(selection),
            final(self)@ == stub_step(old(self)@, StubCall::Queue(selection)).0,
    {
        self.queued.push_back(selection);
    }

    /// Number of selections waiting to be resolved.
    pub fn pending(&self) -> (n: usize)
        ensures
            n == self@.len(),
    {
        self.queued.len()
    }

    /// The resolver's name.
    pub fn name(&self) -> (r: &'static str)
        ensures
            r@ == "stub"@,
    {
        "stub"
    }

    /// The stub is always available.
    pub fn available(&self) -> (b: bool)
        ensures
            b,
    {
        true
    }

    /// Hand out the oldest queued selection, if any.
    pub fn resolve_current_selection(&mut self) -> (r: Result<Option<Selection>, ResolveError>)
        ensures
            old(self)@.len() == 0 ==> (r matches Ok(None)) && final(self)@ == old(self)@,
            old(self)@.len() > 0 ==> {
                &&& r matches Ok(Some(s))
                &&& s == old(self)@[0]
                &&& final(self)@ == old(self)@.drop_first()
            },
            r matches Ok(out) && (final(self)@, out) == stub_step(old(self)@, StubCall::Resolve),
    {
        Ok(self.queued.pop_front())
    }

    /// The stub cannot report selection changes.
    pub fn watch(&self) -> (r: Option<SelectionStream>)
        ensures
            r is None,
    {
        None
    }
}

/// A unit of work for the worker.
#[derive(Debug, Clone, PartialEq, Eq)]
pub enum Request {
    /// Run one `choice` decision.
    Decide {
        /// The question text.
        question: String,
        /// The candidate answers, in capture order.
        answers: Vec<String>,
    },
}

} // verus!
