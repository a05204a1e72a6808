//! Rounds of X11 events: which are handled, in which order, and how a round
//! ends.

use vstd::prelude::*;
use crate::compositor::properties::ConnectionFailed;
use crate::compositor::xwm::{Action, ActionView, State, StateView, XEvent};

verus! {

/// What was found on the X connection.
pub enum XPoll {
    /// An event, or the reply to a request that an earlier event asked for.
    Event(XEvent),
    /// No event is waiting.
    Nothing,
    /// Polling failed, or a request that the last event asked for.
    Failed,
}

/// How a round ends: well, once nothing is waiting, or with the first failure.
/// It goes on as long as there are events.
pub open spec fn round_result(polls: Seq<XPoll>) -> Option<Result<(), ConnectionFailed>>
    decreases polls.len(),
{
    if polls.len() == 0 {
        None
    } else {
        match polls[0] {
            XPoll::Event(_) => round_result(polls.skip(1)),
            XPoll::Nothing => Some(Ok(())),
            XPoll::Failed => Some(Err(ConnectionFailed)),
        }
    }
}

/// The events of a round, up to its end.
pub open spec fn round_events(polls: Seq<XPoll>) -> Seq<XEvent>
    decreases polls.len(),
{
    if polls.len() == 0 {
        Seq::empty()
    } else {
        match polls[0] {
            XPoll::Event(event) => seq![event] + round_events(polls.skip(1)),
            _ => Seq::empty(),
        }
    }
}

/// Events, each handled once and in order: the states before each and after
/// the last, and what each asks for. There may be more events.
pub open spec fn handled_in_order(
    events: Seq<XEvent>,
    states: Seq<StateView>,
    actions: Seq<Seq<ActionView>>,
) -> bool {
    &&& states.len() == actions.len() + 1
    &&& actions.len() <= events.len()
    &&& forall|i: int|
        0 <= i < actions.len() ==> crate::compositor::xwm::transition(
            states[i],
            #[trigger] events[i],
            states[i + 1],
            actions[i],
        )
}

/// Whatever the earlier events lead to, each event can be handled.
pub open spec fn can_dispatch(state: StateView, events: Seq<XEvent>) -> bool {
    forall|states: Seq<StateView>, actions: Seq<Seq<ActionView>>|
        #![trigger handled_in_order(events, states, actions)]
        handled_in_order(events, states, actions) && states[0] == state && actions.len()
            < events.len() ==> states.last().can_handle(events[actions.len() as int])
}

pub open spec fn list_views(lists: Seq<Vec<Action>>) -> Seq<Seq<ActionView>> {
    Seq::new(lists.len(), |i: int| crate::compositor::xwm::action_views(lists[i]@))
}

/// The events among what was found, up to the end of the round, and that end.
fn collect_events(polls: Vec<XPoll>) -> (collected: (
    Vec<XEvent>,
    Option<Result<(), ConnectionFailed>>,
))
    ensures
        collected.0@ == round_events(polls@),
        collected.1 == round_result(polls@),
{
    let mut rest = polls;
    let ghost all = polls@;
    let mut events: Vec<XEvent> = Vec::new();
    assert(events@ + round_events(rest@) =~= round_events(all));
    while rest.len() > 0
        invariant
            all == polls@,
            events@ + round_events(rest@) == round_events(all),
            round_result(rest@) == round_result(all),
        decreases rest.len(),
    {
        let ghost left = rest@;
        let ghost before = events@;
        let poll = rest.remove(0);
        assert(rest@ =~= left.skip(1));
        match poll {
            XPoll::Event(event) => {
                events.push(event);
                assert(events@ + round_events(rest@) =~= before + (seq![event] + round_events(
                    rest@,
                )));
            },
            XPoll::Nothing => {
                assert(before + round_events(left) =~= before);
                return (events, Some(Ok(())));
            },
            XPoll::Failed => {
                assert(before + round_events(left) =~= before);
                return (events, Some(Err(ConnectionFailed)));
            },
        }
    }
    assert(events@ + round_events(rest@) =~= events@);
    (events, None)
}

impl State {
    /// A round of dispatch: handles the events that were found, in order, up
    /// to its end. Returns what each event asks for, and how the round ends.
    /// While it has not ended, more can be handed in.
    pub fn dispatch_xwm(&mut self, polls: Vec<XPoll>) -> (dispatched: (
        Vec<Vec<Action>>,
        Option<Result<(), ConnectionFailed>>,
    ))
        requires
            old(self).xwm is Some,
            old(self)@.wf(),
            can_dispatch(old(self)@, round_events(polls@)),
        ensures
            final(self).xwm is Some,
            final(self)@.wf(),
            dispatched.0@.len() == round_events(polls@).len(),
            exists|states: Seq<StateView>| #[trigger]
                handled_in_order(round_events(polls@), states, list_views(dispatched.0@))
                    && states[0] == old(self)@ && states.last() == final(self)@,
            dispatched.1 == round_result(polls@),
    {
        let ghost events = round_events(polls@);
        let ghost state = self@;
        let (mut rest, result) = collect_events(polls);
        let mut lists: Vec<Vec<Action>> = Vec::new();
        let ghost mut states: Seq<StateView> = seq![self@];
        assert(rest@ =~= events.skip(0));
        while rest.len() > 0
            invariant
                self.xwm is Some,
                self@.wf(),
                can_dispatch(state, events),
                lists@.len() + rest@.len() == events.len(),
                rest@ == events.skip(lists@.len() as int),
                handled_in_order(events, states, list_views(lists@)),
                states[0] == state,
                states.last() == self@,
            decreases rest.len(),
        {
            let ghost n = lists@.len() as int;
            let ghost earlier = list_views(lists@);
            let event = rest.remove(0);
            assert(event == events[n]);
            assert(rest@ =~= events.skip(n + 1));
            let actions = self.handle_event(event);
            lists.push(actions);
            proof {
                let longer = states.push(self@);
                let all = list_views(lists@);
                assert(all =~= earlier.push(crate::compositor::xwm::action_views(actions@)));
                assert forall|i: int| 0 <= i < all.len() implies crate::compositor::xwm::transition(
                    longer[i],
                    #[trigger] events[i],
                    longer[i + 1],
                    all[i],
                ) by {
                    if i < n {
                        assert(longer[i] == states[i] && longer[i + 1] == states[i + 1]);
                        assert(all[i] == earlier[i]);
                    }
                }
                states = longer;
            }
        }
        (lists, result)
    }
}

/// A round ends well if and only if nothing is waiting after some events, and
/// badly if and only if a failure comes first. Every event before that end is
/// handled, and none after it.
pub proof fn round_ends_at_first_non_event(polls: Seq<XPoll>, n: int)
    requires
        0 <= n <= polls.len(),
        forall|i: int| 0 <= i < n ==> #[trigger] polls[i] is Event,
        n < polls.len() ==> !(polls[n] is Event),
    ensures
        round_result(polls) is None <==> n == polls.len(),
        round_result(polls) == Some(Ok::<(), ConnectionFailed>(())) <==> n < polls.len()
            && polls[n] is Nothing,
        round_result(polls) == Some(Err::<(), ConnectionFailed>(ConnectionFailed)) <==> n
            < polls.len() && polls[n] is Failed,
        round_events(polls) == Seq::new(n as nat, |i: int| polls[i]->Event_0),
    decreases n,
{
    if n == 0 {
        assert(round_events(polls) =~= Seq::new(0, |i: int| polls[i]->Event_0));
    } else {
        let rest = polls.skip(1);
        assert(polls[0] is Event);
        assert forall|i: int| 0 <= i < n - 1 implies #[trigger] rest[i] is Event by {
            assert(rest[i] == polls[i + 1]);
        }
        round_ends_at_first_non_event(rest, n - 1);
        assert(round_events(polls) =~= Seq::new(n as nat, |i: int| polls[i]->Event_0));
    }
}

/// What is found can be handed in bit by bit: a round that has not ended goes on
/// where it was left, and one that has ended takes nothing more.
pub proof fn rounds_can_be_continued(first: Seq<XPoll>, second: Seq<XPoll>)
    ensures
        round_result(first) is None ==> {
            &&& round_result(first + second) == round_result(second)
            &&& round_events(first + second) == round_events(first) + round_events(second)
        },
        round_result(first) is Some ==> {
            &&& round_result(first + second) == round_result(first)
            &&& round_events(first + second) == round_events(first)
        },
    decreases first.len(),
{
    if first.len() == 0 {
        assert(first + second =~= second);
        assert(round_events(first) + round_events(second) =~= round_events(second));
    } else {
        rounds_can_be_continued(first.skip(1), second);
        assert((first + second).skip(1) =~= first.skip(1) + second);
        if let XPoll::Event(event) = first[0] {
            assert(round_events(first) + round_events(second) =~= seq![event] + (round_events(
                first.skip(1),
            ) + round_events(second)));
        }
    }
}

proof fn lemma_surfaces_stay(old: StateView, event: XEvent, new: StateView, actions: Seq<ActionView>)
    requires
        crate::compositor::xwm::transition(old, event, new, actions),
        forall|serial: u64| #[trigger] old.has_surface_of(serial),
    ensures
        forall|serial: u64| #[trigger] new.has_surface_of(serial),
{
    assert forall|serial: u64| #[trigger] new.has_surface_of(serial) by {
        assert(old.has_surface_of(serial));
        if let XEvent::ClientMessage { data, .. } = event {
            assert(old.has_surface_of(crate::compositor::xwm::join_words(data.1, data.0)));
        }
    }
}

/// As long as every surface that was filed under a serial exists, any events can
/// be dispatched.
pub proof fn filed_surfaces_can_be_dispatched(state: StateView, events: Seq<XEvent>)
    requires
        forall|serial: u64| #[trigger] state.has_surface_of(serial),
    ensures
        can_dispatch(state, events),
{
    assert forall|states: Seq<StateView>, actions: Seq<Seq<ActionView>>|
        #![trigger handled_in_order(events, states, actions)]
        handled_in_order(events, states, actions) && states[0] == state && actions.len()
            < events.len() implies states.last().can_handle(events[actions.len() as int]) by {
        lemma_filed_along(events, states, actions, actions.len() as int);
        if let XEvent::ClientMessage { data, .. } = events[actions.len() as int] {
            assert(states.last().has_surface_of(
                crate::compositor::xwm::join_words(data.1, data.0),
            ));
        }
    }
}

proof fn lemma_filed_along(
    events: Seq<XEvent>,
    states: Seq<StateView>,
    actions: Seq<Seq<ActionView>>,
    n: int,
)
    requires
        handled_in_order(events, states, actions),
        forall|serial: u64| #[trigger] states[0].has_surface_of(serial),
        0 <= n <= actions.len(),
    ensures
        forall|serial: u64| #[trigger] states[n].has_surface_of(serial),
    decreases n,
{
    if n > 0 {
        lemma_filed_along(events, states, actions, n - 1);
        assert(crate::compositor::xwm::transition(
            states[n - 1],
            events[n - 1],
            states[n - 1 + 1],
            actions[n - 1],
        ));
        lemma_surfaces_stay(states[n - 1], events[n - 1], states[n], actions[n - 1]);
    }
}

} // verus!
