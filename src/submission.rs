//! What happens to a transaction after it is signed: the per-message event
//! slots, the bounded wait for inclusion in a block, and the decision whether
//! an included transaction actually succeeded.
use vstd::prelude::*;

verus! {

/// An event emitted on chain for one message of a transaction.
#[derive(Debug, Clone, PartialEq, Eq)]
pub enum Event {
    /// The placeholder of a slot that no chain data has filled.
    Empty,
    /// The chain executed the message and rejected its effect.
    ChainError(String),
    /// Any other event, named by its type; it is not an error.
    Emitted(String),
}

/// A broadcast transaction and one event slot per message it carries, in
/// the order of the messages.
#[derive(Debug, Clone, PartialEq, Eq)]
pub struct SubmissionOutcome {
    pub tx_hash: String,
    pub events: Vec<Event>,
}

/// Why the submission of a transaction failed before it was known to be in a
/// block.
#[derive(Debug, Clone, PartialEq, Eq)]
pub enum SubmissionError {
    /// The node refused the broadcast; the transaction never entered a block.
    BroadcastFailed(String),
    /// No inclusion was seen before the deadline; it may still land.
    CommitTimeout,
}

/// An included transaction whose execution the chain rejected.
#[derive(Debug, Clone, PartialEq, Eq)]
pub enum ClassificationError {
    ChainError(String),
}

/// No slot holds a chain error.
pub open spec fn no_chain_error(events: Seq<Event>) -> bool {
    forall|i: int| 0 <= i < events.len() ==> !(#[trigger] events[i] is ChainError)
}

/// Slot `i` holds the first chain error of `events`.
pub open spec fn first_chain_error_at(events: Seq<Event>, i: int) -> bool {
    &&& 0 <= i < events.len()
    &&& events[i] is ChainError
    &&& forall|j: int| 0 <= j < i ==> !(#[trigger] events[j] is ChainError)
}

/// `events` after the first `delivered.len()` slots (at most all of them)
/// took the delivered events, in order.
pub open spec fn filled(events: Seq<Event>, delivered: Seq<Event>) -> Seq<Event> {
    Seq::new(
        events.len(),
        |i: int|
            if i < delivered.len() {
                delivered[i]
            } else {
                events[i]
            },
    )
}

impl SubmissionOutcome {
    /// A freshly broadcast transaction of `message_count` messages: every
    /// slot holds the placeholder.
    pub fn new(tx_hash: String, message_count: usize) -> (r: SubmissionOutcome)
        ensures
            r.tx_hash == tx_hash,
            r.events@.len() == message_count,
            forall|i: int| 0 <= i < message_count ==> #[trigger] r.events@[i] == Event::Empty,
    {
        let mut events: Vec<Event> = Vec::new();
        let mut i: usize = 0;
        while i < message_count
            invariant
                0 <= i <= message_count,
                events@.len() == i,
                forall|k: int| 0 <= k < i ==> #[trigger] events@[k] == Event::Empty,
            decreases message_count - i,
        {
            events.push(Event::Empty);
            i = i + 1;
        }
        SubmissionOutcome { tx_hash, events }
    }

    /// Puts the events that the chain reported, one per message in message
    /// order, into the slots. Slots beyond what was reported keep what they
    /// held; reported events beyond the slots are ignored.
    pub fn fill_events(&mut self, delivered: Vec<Event>)
        ensures
            final(self).tx_hash == old(self).tx_hash,
            final(self).events@ == filled(old(self).events@, delivered@),
    {
        let ghost before = self.events@;
        let ghost all = delivered@;
        let n = self.events.len();
        let mut rest = delivered;
        while rest.len() > 0
            invariant
                self.tx_hash == old(self).tx_hash,
                self.events@.len() == n == before.len(),
                rest@.len() <= all.len(),
                rest@ == all.subrange(0, rest@.len() as int),
                forall|i: int|
                    0 <= i < n ==> #[trigger] self.events@[i] == if rest@.len() <= i < all.len() {
                        all[i]
                    } else {
                        before[i]
                    },
            decreases rest@.len(),
        {
            let k = rest.len() - 1;
            let ghost prev = rest@;
            let e = rest.pop().unwrap();
            assert(e == all[k as int]) by {
                assert(prev[k as int] == all[k as int]);
            }
            assert(rest@ =~= all.subrange(0, k as int));
            if k < n {
                self.events[k] = e;
            }
        }
        assert(self.events@ =~= filled(before, all));
    }

    /// Decides whether an included transaction succeeded: it failed exactly
    /// when some slot holds a chain error, and then the first one is
    /// reported. Placeholders count as success.
    pub fn classify(&self) -> (r: Result<(), ClassificationError>)
        ensures
            r is Ok <==> no_chain_error(self.events@),
            match r {
                Ok(()) => true,
                Err(ClassificationError::ChainError(cause)) => exists|i: int|
                    first_chain_error_at(self.events@, i)
                        && self.events@[i] == Event::ChainError(cause),
            },
    {
        let mut i: usize = 0;
        while i < self.events.len()
            invariant
                0 <= i <= self.events@.len(),
                forall|j: int| 0 <= j < i ==> !(#[trigger] self.events@[j] is ChainError),
            decreases self.events@.len() - i,
        {
            match &self.events[i] {
                Event::ChainError(cause) => {
                    let c = cause.clone();
                    assert(first_chain_error_at(self.events@, i as int));
                    return Err(ClassificationError::ChainError(c));
                },
                _ => {},
            }
            i = i + 1;
        }
        Ok(())
    }
}

/// Where the wait for a broadcast transaction stands.
#[derive(Debug, Clone, Copy, PartialEq, Eq)]
pub enum WaitState {
    Pending,
    Committed,
    TimedOut,
}

/// What one poll of the chain found out about the transaction.
#[derive(Debug, Clone, PartialEq, Eq)]
pub enum PollReport {
    /// The transaction is not in a block yet.
    NotIncluded,
    /// The transaction is in a block; the events of its messages, in order.
    Included(Vec<Event>),
}

/// The state after a poll made `elapsed_ms` after the broadcast, from a
/// pending wait. Inclusion wins over the deadline.
pub open spec fn next_state(timeout_ms: u64, elapsed_ms: u64, included: bool) -> WaitState {
    if included {
        WaitState::Committed
    } else if elapsed_ms > timeout_ms {
        WaitState::TimedOut
    } else {
        WaitState::Pending
    }
}

/// The state after a series of polls, each given by its time and whether it
/// saw the transaction included. Polls after the wait ended change nothing.
pub open spec fn state_after(timeout_ms: u64, polls: Seq<(u64, bool)>) -> WaitState
    decreases polls.len(),
{
    if polls.len() == 0 {
        WaitState::Pending
    } else {
        match state_after(timeout_ms, polls.drop_last()) {
            WaitState::Pending => next_state(timeout_ms, polls.last().0, polls.last().1),
            done => done,
        }
    }
}

/// The bounded wait for a broadcast transaction to be included in a block.
/// The caller polls the chain while the wait is pending and reports each
/// result with the time elapsed since the broadcast.
#[derive(Debug, Clone, PartialEq, Eq)]
pub struct CommitWait {
    pub outcome: SubmissionOutcome,
    pub timeout_ms: u64,
    pub state: WaitState,
}

impl CommitWait {
    /// Starts waiting on the result of a broadcast: the transaction hash, or
    /// the node's reason for refusing it, which fails with `BroadcastFailed`.
    pub fn start(broadcast: Result<String, String>, message_count: usize, timeout_ms: u64) -> (r:
        Result<CommitWait, SubmissionError>)
        ensures
            match broadcast {
                Ok(hash) => r matches Ok(w) && w.state == WaitState::Pending
                    && w.timeout_ms == timeout_ms && w.outcome.tx_hash == hash
                    && w.outcome.events@.len() == message_count
                    && forall|i: int| 0 <= i < message_count
                        ==> #[trigger] w.outcome.events@[i] == Event::Empty,
                Err(reason) => r == Err::<CommitWait, SubmissionError>(
                    SubmissionError::BroadcastFailed(reason),
                ),
            },
    {
        match broadcast {
            Ok(hash) => Ok(
                CommitWait {
                    outcome: SubmissionOutcome::new(hash, message_count),
                    timeout_ms,
                    state: WaitState::Pending,
                },
            ),
            Err(reason) => Err(SubmissionError::BroadcastFailed(reason)),
        }
    }

    pub fn is_pending(&self) -> (r: bool)
        ensures
            r == (self.state == WaitState::Pending),
    {
        match self.state {
            WaitState::Pending => true,
            _ => false,
        }
    }

    /// Records one poll made `elapsed_ms` after the broadcast. Inclusion
    /// fills the event slots in message order and ends the wait; a poll that
    /// misses it after the deadline ends the wait timed out.
    pub fn observe(&mut self, elapsed_ms: u64, report: PollReport)
        requires
            old(self).state == WaitState::Pending,
        ensures
            final(self).timeout_ms == old(self).timeout_ms,
            final(self).state == next_state(old(self).timeout_ms, elapsed_ms, report is Included),
            final(self).outcome.tx_hash == old(self).outcome.tx_hash,
            match report {
                PollReport::Included(delivered) => final(self).outcome.events@ == filled(
                    old(self).outcome.events@,
                    delivered@,
                ),
                PollReport::NotIncluded => final(self).outcome == old(self).outcome,
            },
    {
        match report {
            PollReport::Included(delivered) => {
                self.outcome.fill_events(delivered);
                self.state = WaitState::Committed;
            },
            PollReport::NotIncluded => {
                if elapsed_ms > self.timeout_ms {
                    self.state = WaitState::TimedOut;
                }
            },
        }
    }

    /// The result of an ended wait: the outcome once committed, else
    /// `CommitTimeout`.
    pub fn finish(self) -> (r: Result<SubmissionOutcome, SubmissionError>)
        requires
            self.state != WaitState::Pending,
        ensures
            self.state == WaitState::Committed ==> r == Ok::<SubmissionOutcome, SubmissionError>(
                self.outcome,
            ),
            self.state == WaitState::TimedOut ==> r == Err::<SubmissionOutcome, SubmissionError>(
                SubmissionError::CommitTimeout,
            ),
    {
        match self.state {
            WaitState::Committed => Ok(self.outcome),
            _ => Err(SubmissionError::CommitTimeout),
        }
    }
}

/// A wait whose polls never see the transaction included cannot end
/// committed, and it has ended timed out as soon as one of its polls came
/// after the deadline.
pub proof fn lemma_no_inclusion_times_out(timeout_ms: u64, polls: Seq<(u64, bool)>)
    requires
        forall|i: int| 0 <= i < polls.len() ==> !(#[trigger] polls[i]).1,
    ensures
        state_after(timeout_ms, polls) != WaitState::Committed,
        (exists|i: int| 0 <= i < polls.len() && (#[trigger] polls[i]).0 > timeout_ms)
            ==> state_after(timeout_ms, polls) == WaitState::TimedOut,
    decreases polls.len(),
{
    if polls.len() > 0 {
        let front = polls.drop_last();
        assert forall|i: int| 0 <= i < front.len() implies !(#[trigger] front[i]).1 by {
            assert(front[i] == polls[i]);
        }
        lemma_no_inclusion_times_out(timeout_ms, front);
        if exists|i: int| 0 <= i < polls.len() && (#[trigger] polls[i]).0 > timeout_ms {
            let i = choose|i: int| 0 <= i < polls.len() && (#[trigger] polls[i]).0 > timeout_ms;
            assert(!polls[polls.len() - 1].1);
            if i < front.len() {
                assert(front[i] == polls[i]);
            }
        }
    }
}

/// Slots filled with one reported event per message hold exactly those
/// events, in message order, whatever they held before.
pub proof fn lemma_events_keep_message_order(events: Seq<Event>, delivered: Seq<Event>)
    requires
        delivered.len() == events.len(),
    ensures
        filled(events, delivered) == delivered,
{
    assert(filled(events, delivered) =~= delivered);
}

} // verus!
