//! The availability flag and the exclusivity token it issues.
//!
//! An [`AvailabilityFlag`] carries the flag's state together with the
//! (ghost) trace of requests made of it, so that every value of it is a
//! state of the transition system in [`crate::model`] and the laws proved
//! there apply to it.
//!
//! The flag here is a plain value: making one instance of it the
//! process-wide flag — behind an atomic or a lock shared by all threads —
//! and terminating the process when a release reports corruption are the
//! embedding program's part.

use vstd::prelude::*;

use crate::model::{grants, held_after, lawful, tokens_live, valid_trace, Event};
use crate::model::lemma_mutual_exclusion;
use crate::model::lemma_valid_trace_push;

verus! {

/// The availability flag, with the trace of requests that produced it.
pub struct AvailabilityFlag {
    held: bool,
    events: Ghost<Seq<Event>>,
}

/// A token that proves sole permission to call into the non-reentrant
/// native library: at most one live token per flag at any instant (see
/// [`lemma_flag_mutual_exclusion`]).
///
/// The token holds no data and grants no safe access by itself — it only
/// proves exclusivity. Higher-level bindings must demand a borrow of a
/// live token before any call that touches the native library's state,
/// and must return the token (see [`ThreadUnsafetyToken::release`]) once
/// done. It is never copied or cloned.
pub struct ThreadUnsafetyToken(());

impl AvailabilityFlag {
    /// The flag reads `held`: a token is outstanding.
    pub closed spec fn is_held(&self) -> bool {
        self.held
    }

    /// The flag reads `available`: no token is outstanding.
    pub open spec fn is_available(&self) -> bool {
        !self.is_held()
    }

    /// The trace of requests made of this flag, oldest first.
    pub closed spec fn history(&self) -> Seq<Event> {
        self.events@
    }

    /// Well-formedness: the trace is lawful and the flag is the state it
    /// produces. `new` establishes this and every operation keeps it.
    pub closed spec fn wf(&self) -> bool {
        &&& valid_trace(self.history())
        &&& self.held == held_after(self.history())
    }

    /// A fresh flag, starting `available`: the state at process start,
    /// before any token has ever been issued.
    pub fn new() -> (flag: AvailabilityFlag)
        ensures
            flag.wf(),
            flag.is_available(),
            flag.history() == Seq::<Event>::empty(),
    {
        AvailabilityFlag { held: false, events: Ghost(Seq::empty()) }
    }
}

impl ThreadUnsafetyToken {
    /// Tries to get an exclusive token: grants one exactly when the flag
    /// is `available`, and returns `None` on contention — it never waits.
    /// Either way the flag is `held` afterwards.
    pub fn take(flag: &mut AvailabilityFlag) -> (token: Option<ThreadUnsafetyToken>)
        requires
            old(flag).wf(),
        ensures
            final(flag).wf(),
            (token is Some) <==> old(flag).is_available(),
            (token is Some) == grants(old(flag).is_held(), Event::Acquire),
            final(flag).is_held(),
            final(flag).history() == old(flag).history().push(Event::Acquire),
    {
        proof {
            lemma_valid_trace_push(flag.history(), Event::Acquire);
        }
        let granted = !flag.held;
        flag.held = true;
        flag.events = Ghost(flag.events@.push(Event::Acquire));
        if granted {
            Some(ThreadUnsafetyToken(()))
        } else {
            None
        }
    }

    /// Returns the token, setting the flag back to `available`.
    ///
    /// The outcome is `true` on a lawful release. It is `false` exactly
    /// when the flag was already `available` while this token existed: a
    /// severe internal defect — a second token must have been constructed,
    /// or the flag was mutated outside this component — after which two owners
    /// could race the native library. A caller observing `false` must
    /// terminate the process at once rather than continue; the flag itself
    /// is left `available` and its trace unchanged, as if the unlawful
    /// release had never been recorded.
    pub fn release(self, flag: &mut AvailabilityFlag) -> (ok: bool)
        requires
            old(flag).wf(),
        ensures
            final(flag).wf(),
            ok == old(flag).is_held(),
            ok == lawful(old(flag).is_held(), Event::Release),
            final(flag).is_available(),
            ok ==> final(flag).history() == old(flag).history().push(Event::Release),
            !ok ==> final(flag).history() == old(flag).history(),
    {
        let was_held = flag.held;
        if was_held {
            proof {
                lemma_valid_trace_push(flag.history(), Event::Release);
            }
            flag.held = false;
            flag.events = Ghost(flag.events@.push(Event::Release));
        }
        was_held
    }
}

/// Mutual exclusion at the flag: however its trace interleaved the
/// requests of any number of threads, exactly one token is outstanding
/// while the flag is `held` and none while it is `available` — never two.
pub proof fn lemma_flag_mutual_exclusion(flag: &AvailabilityFlag)
    requires
        flag.wf(),
    ensures
        tokens_live(flag.history()) == if flag.is_held() {
            1int
        } else {
            0int
        },
        0 <= tokens_live(flag.history()) <= 1,
{
    lemma_mutual_exclusion(flag.history());
}

} // verus!
