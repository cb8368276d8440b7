//! The destination of rendered records, as an append-only list of records
//! with a life cycle.

use vstd::prelude::*;
use crate::text::texts_of;

verus! {

/// Where a sink is in its life.
#[derive(Clone, Copy, Debug, PartialEq, Eq, Structural)]
pub enum SinkState {
    /// Nothing has been written yet.
    Unopened,
    /// Records are accepted.
    Open,
    /// Torn down: nothing is accepted any more.
    Closed,
}

/// Why a sink did not take a record.
#[derive(Clone, Copy, Debug, PartialEq, Eq, Structural)]
pub enum SinkError {
    /// The sink has been closed.
    SinkClosed,
    /// The destination did not take the record.
    SinkWriteFailure,
}

/// An append-only destination. Its view is the list of records it holds,
/// oldest first.
pub struct Sink {
    state: SinkState,
    records: Vec<String>,
}

impl View for Sink {
    type V = Seq<Seq<char>>;

    closed spec fn view(&self) -> Seq<Seq<char>> {
        texts_of(self.records@)
    }
}

/// The state that a sink is in after a write is attempted in `state`: the
/// first write opens the sink, and a closed sink stays closed.
pub open spec fn state_after_write(state: SinkState) -> SinkState {
    match state {
        SinkState::Unopened => SinkState::Open,
        SinkState::Open => SinkState::Open,
        SinkState::Closed => SinkState::Closed,
    }
}

impl Sink {
    /// The state of the sink.
    pub closed spec fn spec_state(&self) -> SinkState {
        self.state
    }

    /// A sink that has not been written to and holds nothing.
    pub fn new() -> (s: Sink)
        ensures
            s@ == Seq::<Seq<char>>::empty(),
            s.spec_state() == SinkState::Unopened,
    {
        let s = Sink { state: SinkState::Unopened, records: Vec::new() };
        assert(s@ =~= Seq::<Seq<char>>::empty());
        s
    }

    /// A sink over a destination that already holds `existing`.
    pub fn with_existing(existing: Vec<String>) -> (s: Sink)
        ensures
            s@ == texts_of(existing@),
            s.spec_state() == SinkState::Unopened,
    {
        Sink { state: SinkState::Unopened, records: existing }
    }

    /// The state of the sink.
    #[verifier::when_used_as_spec(spec_state)]
    pub fn state(&self) -> (s: SinkState)
        ensures
            s == self.spec_state(),
    {
        self.state
    }

    /// How many records the sink holds.
    pub fn len(&self) -> (n: usize)
        ensures
            n == self@.len(),
    {
        self.records.len()
    }

    /// The record at position `i`, oldest first.
    pub fn record(&self, i: usize) -> (r: &String)
        requires
            i < self@.len(),
        ensures
            r@ == self@[i as int],
    {
        &self.records[i]
    }

    /// Takes note of a write to the destination: `delivered` says whether
    /// the destination took `text`. A closed sink refuses the record. A
    /// record that was not delivered is dropped; the attempt still opens the
    /// sink. A delivered record is appended. What the sink held before is
    /// never changed.
    pub fn settle(&mut self, text: String, delivered: bool) -> (r: Result<(), SinkError>)
        ensures
            final(self).spec_state() == state_after_write(old(self).spec_state()),
            old(self).spec_state() == SinkState::Closed ==> r == Err::<(), SinkError>(
                SinkError::SinkClosed,
            ) && final(self)@ == old(self)@,
            old(self).spec_state() != SinkState::Closed && !delivered ==> r == Err::<
                (),
                SinkError,
            >(SinkError::SinkWriteFailure) && final(self)@ == old(self)@,
            old(self).spec_state() != SinkState::Closed && delivered ==> r is Ok && final(self)@
                == old(self)@.push(text@),
    {
        match self.state {
            SinkState::Closed => Err(SinkError::SinkClosed),
            _ => {
                self.state = SinkState::Open;
                if delivered {
                    self.records.push(text);
                    assert(self@ =~= old(self)@.push(text@));
                    Ok(())
                } else {
                    Err(SinkError::SinkWriteFailure)
                }
            },
        }
    }

    /// Appends a record. The first write opens the sink. A closed sink
    /// refuses the record and keeps what it holds. What the sink held before
    /// is never changed.
    pub fn write(&mut self, text: String) -> (r: Result<(), SinkError>)
        ensures
            final(self).spec_state() == state_after_write(old(self).spec_state()),
            old(self).spec_state() == SinkState::Closed ==> r == Err::<(), SinkError>(
                SinkError::SinkClosed,
            ) && final(self)@ == old(self)@,
            old(self).spec_state() != SinkState::Closed ==> r is Ok && final(self)@ == old(self)@.push(text@),
    {
        self.settle(text, true)
    }

    /// Appends the records of `texts`, in order, and says how many the sink
    /// took: all of them, or none where the sink is closed.
    pub fn write_all(&mut self, texts: Vec<String>) -> (taken: usize)
        ensures
            old(self).spec_state() == SinkState::Closed ==> taken == 0 && final(self)@ == old(self)@ && final(self).spec_state() == SinkState::Closed,
            old(self).spec_state() != SinkState::Closed ==> taken == texts@.len() && final(self)@
                == old(self)@ + texts_of(texts@) && (final(self).spec_state() == if texts@.len()
                > 0 {
                SinkState::Open
            } else {
                old(self).spec_state()
            }),
    {
        if self.state == SinkState::Closed {
            return 0;
        }
        let ghost all = texts_of(texts@);
        let n = texts.len();
        let mut i: usize = 0;
        assert(self@ =~= old(self)@ + all.take(0));
        while i < n
            invariant
                n == texts@.len(),
                i <= n,
                forall|j: int| i <= j < n ==> (#[trigger] texts@[j])@ == all[j],
                all.len() == n,
                self@ == old(self)@ + all.take(i as int),
                self.spec_state() != SinkState::Closed,
                self.spec_state() == if i > 0 {
                    SinkState::Open
                } else {
                    old(self).spec_state()
                },
            decreases n - i,
        {
            let _ = self.write(texts[i].clone());
            assert(self@ =~= old(self)@ + all.take(i + 1)) by {
                assert(all.take(i + 1) =~= all.take(i as int).push(all[i as int]));
            }
            i = i + 1;
        }
        assert(all.take(n as int) =~= all);
        n
    }

    /// Tears the sink down. It keeps what it holds and takes nothing more.
    pub fn close(&mut self)
        ensures
            final(self).spec_state() == SinkState::Closed,
            final(self)@ == old(self)@,
    {
        self.state = SinkState::Closed;
    }
}

} // verus!
