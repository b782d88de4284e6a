use vstd::prelude::*;
use crate::error::Error;

verus! {

/// The cloud providers whose metadata services are probed.
#[derive(Debug, Clone, Copy, PartialEq, Eq, Structural)]
pub enum Provider {
    Amazon,
    Azure,
    Google,
    Oracle,
}

/// What the detector hears while it waits: a probe that finished, with its
/// outcome, or the end of the time allowed.
pub enum Event<T> {
    Finished(Provider, Result<T, Error>),
    TimedOut,
}

/// Where a detection stands: still waiting, won by one provider's record,
/// or over with no cloud detected.
pub enum Race<T> {
    Waiting,
    Won(Provider, T),
    NoneDetected,
}

/// The state after one event: the first probe to succeed wins, a failed
/// probe changes nothing, the timer ends a race nobody has won, and a
/// decided race stays as it is.
pub open spec fn next<T>(race: Race<T>, event: Event<T>) -> Race<T> {
    match race {
        Race::Waiting => match event {
            Event::Finished(p, Ok(record)) => Race::Won(p, record),
            Event::Finished(_, Err(_)) => Race::Waiting,
            Event::TimedOut => Race::NoneDetected,
        },
        _ => race,
    }
}

/// The state after a whole run of events, from `start`.
pub open spec fn run<T>(start: Race<T>, events: Seq<Event<T>>) -> Race<T>
    decreases events.len(),
{
    if events.len() == 0 {
        start
    } else {
        next(run(start, events.drop_last()), events.last())
    }
}

/// Whether an event is a probe that failed.
pub open spec fn is_failure<T>(e: Event<T>) -> bool {
    e is Finished && e->Finished_1 is Err
}

impl<T> Race<T> {
    /// A race that has just begun.
    pub fn new() -> (r: Race<T>)
        ensures
            r is Waiting,
    {
        Race::Waiting
    }

    /// Whether the race is over, won or timed out.
    pub fn is_decided(&self) -> (r: bool)
        ensures
            r == !(self is Waiting),
    {
        match self {
            Race::Waiting => false,
            _ => true,
        }
    }

    /// Takes one event into account.
    pub fn step(self, event: Event<T>) -> (r: Race<T>)
        ensures
            r == next(self, event),
    {
        match self {
            Race::Waiting => match event {
                Event::Finished(p, Ok(record)) => Race::Won(p, record),
                Event::Finished(_, Err(_)) => Race::Waiting,
                Event::TimedOut => Race::NoneDetected,
            },
            _ => self,
        }
    }

    /// The winner and its record, or `None` where no cloud was detected or
    /// the race is still running.
    pub fn outcome(self) -> (r: Option<(Provider, T)>)
        ensures
            self is Won ==> r == Some((self->Won_0, self->Won_1)),
            !(self is Won) ==> r is None,
    {
        match self {
            Race::Won(p, record) => Some((p, record)),
            _ => None,
        }
    }
}

/// Failed probes never end a race: however many have failed, it still waits.
pub proof fn lemma_failures_keep_waiting<T>(events: Seq<Event<T>>)
    requires
        forall|i: int| 0 <= i < events.len() ==> is_failure(#[trigger] events[i]),
    ensures
        run(Race::Waiting, events) is Waiting,
    decreases events.len(),
{
    if events.len() > 0 {
        lemma_failures_keep_waiting(events.drop_last());
    }
}

/// When every probe fails and then the time runs out, no cloud is detected.
pub proof fn lemma_all_fail_none_detected<T>(failures: Seq<Event<T>>)
    requires
        forall|i: int| 0 <= i < failures.len() ==> is_failure(#[trigger] failures[i]),
    ensures
        run(Race::Waiting, failures.push(Event::TimedOut)) is NoneDetected,
{
    lemma_failures_keep_waiting(failures);
    assert(failures.push(Event::TimedOut).drop_last() == failures);
}

/// A decided race stays decided, with the same winner, whatever follows.
pub proof fn lemma_decided_is_final<T>(start: Race<T>, events: Seq<Event<T>>)
    requires
        !(start is Waiting),
    ensures
        run(start, events) == start,
    decreases events.len(),
{
    if events.len() > 0 {
        lemma_decided_is_final(start, events.drop_last());
    }
}

/// The first probe to succeed wins, with its own record and provider, after
/// any number of failures and whatever comes later: exactly one winner.
pub proof fn lemma_first_success_wins<T>(
    failures: Seq<Event<T>>,
    provider: Provider,
    record: T,
    later: Seq<Event<T>>,
)
    requires
        forall|i: int| 0 <= i < failures.len() ==> is_failure(#[trigger] failures[i]),
    ensures
        run(Race::Waiting, failures.push(Event::Finished(provider, Ok(record))) + later)
            == Race::Won(provider, record),
{
    let won = failures.push(Event::Finished(provider, Ok(record)));
    lemma_failures_keep_waiting(failures);
    assert(won.drop_last() == failures);
    assert(run(Race::Waiting, won) == Race::<T>::Won(provider, record));
    lemma_run_append(Race::Waiting, won, later);
    lemma_decided_is_final(Race::<T>::Won(provider, record), later);
}

/// Running two runs of events one after the other is running them joined.
pub proof fn lemma_run_append<T>(start: Race<T>, a: Seq<Event<T>>, b: Seq<Event<T>>)
    ensures
        run(start, a + b) == run(run(start, a), b),
    decreases b.len(),
{
    if b.len() == 0 {
        assert(a + b == a);
    } else {
        lemma_run_append(start, a, b.drop_last());
        assert((a + b).drop_last() == a + b.drop_last());
        assert((a + b).last() == b.last());
    }
}

} // verus!
