//! What holds of a session whatever is reported to it.

use vstd::prelude::*;
use crate::socket::{later, session_inv, spec_step, ActionView, Event, HandlerView};

verus! {

/// The invariant of a session holds after every event.
pub proof fn lemma_step_keeps_inv<M>(v: HandlerView<M>, now: u64, event: Event<M>)
    requires
        session_inv(v),
    ensures
        session_inv(spec_step(v, now, event).0),
        spec_step(v, now, event).0.frame_span == v.frame_span,
        spec_step(v, now, event).0.clock == later(v.clock, now),
{
}

/// An incremental update is asked for only once the frame span has passed
/// since the update before it.
pub proof fn lemma_render_when_due<M>(v: HandlerView<M>, now: u64, event: Event<M>)
    requires
        session_inv(v),
    ensures
        spec_step(v, now, event).1 == (ActionView::<M>::Render { is_init: false }) ==> later(
            v.clock,
            now,
        ) - v.last_frame >= v.frame_span,
{
}

/// A session that is over stays over, and asks for nothing but to end.
pub proof fn lemma_closed_is_final<M>(v: HandlerView<M>, now: u64, event: Event<M>)
    requires
        v.step is Closed,
    ensures
        spec_step(v, now, event).0.step is Closed,
        spec_step(v, now, event).1 is Fail,
        spec_step(v, now, event).0.from_client == v.from_client,
{
}

/// The session after the first `n` of `events`, each reported with its time.
pub open spec fn spec_run_all<M>(v: HandlerView<M>, events: Seq<(u64, Event<M>)>, n: nat) -> HandlerView<
    M,
>
    decreases n,
{
    if n == 0 {
        v
    } else {
        spec_step(spec_run_all(v, events, (n - 1) as nat), events[n - 1].0, events[n - 1].1).0
    }
}

/// The times at which the updates were sent that the first `n` of
/// `events` report, in the order of the reports.
pub open spec fn spec_sent<M>(v: HandlerView<M>, events: Seq<(u64, Event<M>)>, n: nat) -> Seq<u64>
    decreases n,
{
    if n == 0 {
        Seq::empty()
    } else {
        let before = spec_run_all(v, events, (n - 1) as nat);
        let sent = spec_sent(v, events, (n - 1) as nat);
        if (before.step is Opening || before.step is Rendering) && events[n - 1].1 is Sent {
            sent.push(later(before.clock, events[n - 1].0))
        } else {
            sent
        }
    }
}

/// Whatever is reported to a session, and whenever, two updates in a row
/// are never sent less than the frame span apart.
pub proof fn lemma_frames_are_throttled<M>(
    v: HandlerView<M>,
    events: Seq<(u64, Event<M>)>,
    n: nat,
)
    requires
        session_inv(v),
        n <= events.len(),
    ensures
        session_inv(spec_run_all(v, events, n)),
        spec_run_all(v, events, n).frame_span == v.frame_span,
        spec_sent(v, events, n).len() > 0 ==> {
            &&& spec_sent(v, events, n).last() == spec_run_all(v, events, n).last_frame
            &&& !(spec_run_all(v, events, n).step is Idle)
            &&& !(spec_run_all(v, events, n).step is Opening)
        },
        forall|i: int|
            0 < i < spec_sent(v, events, n).len() ==> (#[trigger] spec_sent(v, events, n)[i])
                - spec_sent(v, events, n)[i - 1] >= v.frame_span,
    decreases n,
{
    if n > 0 {
        let m = (n - 1) as nat;
        lemma_frames_are_throttled(v, events, m);
        let before = spec_run_all(v, events, m);
        lemma_step_keeps_inv(before, events[n - 1].0, events[n - 1].1);
        let earlier = spec_sent(v, events, m);
        let sent = spec_sent(v, events, n);
        assert forall|i: int| 0 < i < sent.len() implies (#[trigger] sent[i]) - sent[i - 1]
            >= v.frame_span by {
            if i < earlier.len() {
                assert(sent[i] == earlier[i]);
                assert(sent[i - 1] == earlier[i - 1]);
            } else {
                assert(sent[i - 1] == earlier.last());
            }
        }
    }
}

} // verus!
