//! The stack of spans that are currently entered on one thread.

use vstd::prelude::*;
use crate::text::texts_of;

verus! {

/// The chain that results from entering a span named `name`.
pub open spec fn entered(chain: Seq<Seq<char>>, name: Seq<char>) -> Seq<Seq<char>> {
    chain.push(name)
}

/// The chain that results from leaving the innermost span.
pub open spec fn exited(chain: Seq<Seq<char>>) -> Seq<Seq<char>>
    recommends
        chain.len() > 0,
{
    chain.drop_last()
}

/// Proof that a span was entered. It is used up by the matching
/// [`SpanTracker::exit`], which accepts it only while the span is the
/// innermost one.
pub struct ScopeHandle {
    depth: usize,
}

impl ScopeHandle {
    /// The depth of the stack right after the span was entered.
    pub closed spec fn depth(&self) -> nat {
        self.depth as nat
    }
}

/// The spans entered and not yet left, outermost first.
pub struct SpanTracker {
    stack: Vec<String>,
}

impl View for SpanTracker {
    type V = Seq<Seq<char>>;

    closed spec fn view(&self) -> Seq<Seq<char>> {
        texts_of(self.stack@)
    }
}

impl SpanTracker {
    /// A tracker with no span entered.
    pub fn new() -> (t: SpanTracker)
        ensures
            t@ == Seq::<Seq<char>>::empty(),
    {
        let t = SpanTracker { stack: Vec::new() };
        assert(t@ =~= Seq::<Seq<char>>::empty());
        t
    }

    /// How many spans are entered.
    pub fn depth(&self) -> (d: usize)
        ensures
            d == self@.len(),
    {
        self.stack.len()
    }

    /// Enters a span: `name` becomes the innermost entry.
    pub fn enter(&mut self, name: &str) -> (handle: ScopeHandle)
        ensures
            final(self)@ == entered(old(self)@, name@),
            handle.depth() == final(self)@.len(),
    {
        self.stack.push(name.to_owned());
        assert(self@ =~= entered(old(self)@, name@));
        ScopeHandle { depth: self.stack.len() }
    }

    /// Leaves the span that `handle` stands for. The span must be the
    /// innermost one: every span entered after it has been left.
    pub fn exit(&mut self, handle: ScopeHandle)
        requires
            old(self)@.len() > 0,
            handle.depth() == old(self)@.len(),
        ensures
            final(self)@ == exited(old(self)@),
    {
        let _ = self.stack.pop();
        assert(self@ =~= exited(old(self)@));
    }

    /// Whether `handle` stands for the innermost span, so that
    /// [`SpanTracker::exit`] accepts it.
    pub fn is_innermost(&self, handle: &ScopeHandle) -> (yes: bool)
        ensures
            yes == (self@.len() > 0 && handle.depth() == self@.len()),
    {
        self.stack.len() > 0 && handle.depth == self.stack.len()
    }

    /// A snapshot of the chain, outermost first. Later calls of `enter` and
    /// `exit` do not change it.
    pub fn current_chain(&self) -> (chain: Vec<String>)
        ensures
            texts_of(chain@) == self@,
    {
        let mut chain: Vec<String> = Vec::new();
        let mut i: usize = 0;
        while i < self.stack.len()
            invariant
                i <= self.stack.len(),
                chain@.len() == i,
                forall|j: int| 0 <= j < i ==> chain@[j]@ == self.stack@[j]@,
            decreases self.stack.len() - i,
        {
            chain.push(self.stack[i].clone());
            i = i + 1;
        }
        assert(texts_of(chain@) =~= self@);
        chain
    }
}

/// Entering `a`, then `b`, on any chain gives that chain followed by `a`
/// and `b`; leaving `b` gives the chain followed by `a`; leaving `a` as well
/// gives the chain back.
pub proof fn nesting_is_last_in_first_out(base: Seq<Seq<char>>, a: Seq<char>, b: Seq<char>)
    ensures
        entered(entered(base, a), b) == base + seq![a, b],
        exited(entered(entered(base, a), b)) == base + seq![a],
        exited(exited(entered(entered(base, a), b))) == base,
        exited(entered(base, a)) == base,
{
    assert(entered(entered(base, a), b) =~= base + seq![a, b]);
    assert(exited(entered(entered(base, a), b)) =~= base + seq![a]);
    assert(exited(exited(entered(entered(base, a), b))) =~= base);
    assert(exited(entered(base, a)) =~= base);
}

} // verus!
