//! The transition system behind the exclusivity flag.
//!
//! The process-wide availability flag has two states, `available` and
//! `held`, encoded here as a `bool` that is true while a token is held.
//! Every request made of the flag is an [`Event`]; a concrete execution —
//! however many threads produced it — is the sequence of events in the
//! total order in which their atomic flag transitions took effect. The
//! lemmas below state the safety laws of the flag over all such sequences.

use vstd::prelude::*;

verus! {

/// One request made of the flag.
pub enum Event {
    /// A request for the token. Never blocks: it is granted exactly when
    /// the flag is `available`, and denied otherwise.
    Acquire,
    /// The return of a held token. Observing the flag already `available`
    /// here is a fatal defect: no lawful trace continues past it.
    Release,
}

/// The flag after one event, given the flag before it. An acquire leaves
/// the flag `held` whether or not it was granted; a release returns it to
/// `available`.
pub open spec fn step(held: bool, e: Event) -> bool {
    match e {
        Event::Acquire => true,
        Event::Release => false,
    }
}

/// Whether an acquire issues a token: exactly when the flag is `available`.
pub open spec fn grants(held: bool, e: Event) -> bool {
    e is Acquire && !held
}

/// Whether an event is lawful in the given state. A release is lawful only
/// while the flag is `held`; a release that observes `available` means a
/// second owner must exist, and the process is terminated rather than let
/// two holders race the native library.
pub open spec fn lawful(held: bool, e: Event) -> bool {
    e is Release ==> held
}

/// The flag after running the events in order, starting `available`
/// (the flag's state at process start, before any token was ever issued).
pub open spec fn held_after(events: Seq<Event>) -> bool
    decreases events.len(),
{
    if events.len() == 0 {
        false
    } else {
        step(held_after(events.drop_last()), events.last())
    }
}

/// A trace is lawful when every event is lawful in the state the events
/// before it produced.
pub open spec fn valid_trace(events: Seq<Event>) -> bool {
    forall|i: int|
        0 <= i < events.len() ==> lawful(held_after(#[trigger] events.take(i)), events[i])
}

/// How many tokens the trace granted.
pub open spec fn tokens_granted(events: Seq<Event>) -> int
    decreases events.len(),
{
    if events.len() == 0 {
        0
    } else {
        tokens_granted(events.drop_last()) + if grants(
            held_after(events.drop_last()),
            events.last(),
        ) {
            1int
        } else {
            0int
        }
    }
}

/// How many tokens the trace returned.
pub open spec fn tokens_released(events: Seq<Event>) -> int
    decreases events.len(),
{
    if events.len() == 0 {
        0
    } else {
        tokens_released(events.drop_last()) + if events.last() is Release {
            1int
        } else {
            0int
        }
    }
}

/// How many granted tokens are still outstanding after the trace.
pub open spec fn tokens_live(events: Seq<Event>) -> int {
    tokens_granted(events) - tokens_released(events)
}

/// Every prefix of a lawful trace is lawful.
pub proof fn lemma_valid_trace_prefix(events: Seq<Event>)
    requires
        valid_trace(events),
        events.len() > 0,
    ensures
        valid_trace(events.drop_last()),
{
    let prefix = events.drop_last();
    assert forall|i: int|
        0 <= i < prefix.len() implies lawful(
        held_after(#[trigger] prefix.take(i)),
        prefix[i],
    ) by {
        assert(prefix.take(i) =~= events.take(i));
        assert(lawful(held_after(events.take(i)), events[i]));
    }
}

/// A lawful trace extended by an event that is lawful in its final state
/// is again lawful.
pub proof fn lemma_valid_trace_push(events: Seq<Event>, e: Event)
    requires
        valid_trace(events),
        lawful(held_after(events), e),
    ensures
        valid_trace(events.push(e)),
{
    let extended = events.push(e);
    assert forall|i: int|
        0 <= i < extended.len() implies lawful(
        held_after(#[trigger] extended.take(i)),
        extended[i],
    ) by {
        if i < events.len() {
            assert(extended.take(i) =~= events.take(i));
            assert(lawful(held_after(events.take(i)), events[i]));
            assert(extended[i] == events[i]);
        } else {
            assert(extended.take(i) =~= events);
            assert(extended[i] == e);
        }
    }
}

/// Mutual exclusion. Over every lawful sequence of acquire and release
/// requests — in whatever interleaving any number of threads produced —
/// exactly one token is outstanding while the flag is `held` and none
/// while it is `available`; in particular at most one token is live at
/// any instant.
pub proof fn lemma_mutual_exclusion(events: Seq<Event>)
    requires
        valid_trace(events),
    ensures
        tokens_live(events) == if held_after(events) {
            1int
        } else {
            0int
        },
        0 <= tokens_live(events) <= 1,
    decreases events.len(),
{
    if events.len() > 0 {
        let prefix = events.drop_last();
        lemma_valid_trace_prefix(events);
        lemma_mutual_exclusion(prefix);
        assert(events.take(events.len() - 1) =~= prefix);
        assert(lawful(held_after(events.take(events.len() - 1)), events[events.len() - 1]));
    }
}

/// Reacquisition. A lawful trace that ends in a release leaves the flag
/// `available`, so the next acquire is granted, and the extended trace is
/// again lawful with the flag `held`.
pub proof fn lemma_reacquisition(events: Seq<Event>)
    requires
        valid_trace(events),
        events.len() > 0,
        events.last() is Release,
    ensures
        !held_after(events),
        grants(held_after(events), Event::Acquire),
        valid_trace(events.push(Event::Acquire)),
        held_after(events.push(Event::Acquire)),
{
    lemma_valid_trace_push(events, Event::Acquire);
}

/// No double grant. While a token is live, a further acquire is denied
/// and leaves the one token live.
pub proof fn lemma_no_double_grant(events: Seq<Event>)
    requires
        valid_trace(events),
        tokens_live(events) == 1,
    ensures
        !grants(held_after(events), Event::Acquire),
        valid_trace(events.push(Event::Acquire)),
        tokens_live(events.push(Event::Acquire)) == 1,
{
    lemma_mutual_exclusion(events);
    lemma_valid_trace_push(events, Event::Acquire);
    let extended = events.push(Event::Acquire);
    assert(extended.drop_last() =~= events);
}

} // verus!
