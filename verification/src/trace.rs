//! Whole runs of the loop: a sequence of events, the state it leads to and
//! the actions it asks for on the way.

use vstd::prelude::*;
use crate::control::{step, step_spec, Action, Event, LoopConfig, LoopState};

verus! {

/// The state after `events`, taken in order from `s`.
pub open spec fn run_state(cfg: LoopConfig, s: LoopState, events: Seq<Event>) -> LoopState
    decreases events.len(),
{
    if events.len() == 0 {
        s
    } else {
        run_state(cfg, step_spec(cfg, s, events[0]).0, events.drop_first())
    }
}

/// The actions asked for on the way, one for each event.
pub open spec fn run_actions(cfg: LoopConfig, s: LoopState, events: Seq<Event>) -> Seq<Action>
    decreases events.len(),
{
    if events.len() == 0 {
        Seq::empty()
    } else {
        seq![step_spec(cfg, s, events[0]).1] + run_actions(
            cfg,
            step_spec(cfg, s, events[0]).0,
            events.drop_first(),
        )
    }
}

/// How many of `actions` submit a swap.
pub open spec fn swaps(actions: Seq<Action>) -> nat
    decreases actions.len(),
{
    if actions.len() == 0 {
        0
    } else {
        swaps(actions.drop_last()) + if actions.last().is_swap() {
            1nat
        } else {
            0nat
        }
    }
}

/// A run asks for one action per event.
pub proof fn lemma_one_action_per_event(cfg: LoopConfig, s: LoopState, events: Seq<Event>)
    ensures
        run_actions(cfg, s, events).len() == events.len(),
    decreases events.len(),
{
    if events.len() > 0 {
        lemma_one_action_per_event(cfg, step_spec(cfg, s, events[0]).0, events.drop_first());
    }
}

/// A run over one more event is the run so far, then one more step.
pub proof fn lemma_run_extends(cfg: LoopConfig, s: LoopState, events: Seq<Event>, e: Event)
    ensures
        run_state(cfg, s, events.push(e)) == step_spec(cfg, run_state(cfg, s, events), e).0,
        run_actions(cfg, s, events.push(e)) == run_actions(cfg, s, events).push(
            step_spec(cfg, run_state(cfg, s, events), e).1,
        ),
    decreases events.len(),
{
    let longer = events.push(e);
    if events.len() == 0 {
        assert(longer.drop_first() =~= Seq::<Event>::empty());
        assert(run_state(cfg, step_spec(cfg, s, e).0, longer.drop_first()) == step_spec(
            cfg,
            s,
            e,
        ).0);
        assert(run_actions(cfg, step_spec(cfg, s, e).0, longer.drop_first()) =~= Seq::<
            Action,
        >::empty());
        assert(run_actions(cfg, s, longer) =~= seq![step_spec(cfg, s, e).1]);
    } else {
        let next = step_spec(cfg, s, events[0]).0;
        assert(longer[0] == events[0]);
        assert(longer.drop_first() =~= events.drop_first().push(e));
        lemma_run_extends(cfg, next, events.drop_first(), e);
        assert(run_actions(cfg, s, longer) =~= run_actions(cfg, s, events).push(
            step_spec(cfg, run_state(cfg, s, events), e).1,
        ));
    }
}

/// Runs the loop over recorded events: the state they lead to, and the action
/// each of them asked for.
pub fn run(cfg: &LoopConfig, s: LoopState, events: Vec<Event>) -> (out: (LoopState, Vec<Action>))
    ensures
        out.0 == run_state(*cfg, s, events@),
        out.1@ == run_actions(*cfg, s, events@),
        s.wf(*cfg) ==> out.0.wf(*cfg),
{
    let ghost all = events@;
    let ghost first = s;
    // The events are handed to the steps by value, the first one first: so
    // they are turned round once and then taken from the end.
    let mut ahead = events;
    let mut turned: Vec<Event> = Vec::new();
    while ahead.len() > 0
        invariant
            ahead.len() + turned.len() == all.len(),
            ahead@ == all.take(ahead.len() as int),
            forall|j: int| 0 <= j < turned.len() ==> turned@[j] == all[all.len() - 1 - j],
        decreases ahead.len(),
    {
        let ghost before = ahead@;
        let e = ahead.pop().unwrap();
        assert(ahead@ =~= all.take(ahead.len() as int));
        assert(e == all[ahead.len() as int]);
        turned.push(e);
    }
    let mut state = s;
    let mut actions: Vec<Action> = Vec::new();
    while turned.len() > 0
        invariant
            turned.len() <= all.len(),
            forall|j: int| 0 <= j < turned.len() ==> turned@[j] == all[all.len() - 1 - j],
            state == run_state(*cfg, first, all.take(all.len() - turned.len())),
            actions@ == run_actions(*cfg, first, all.take(all.len() - turned.len())),
            first.wf(*cfg) ==> state.wf(*cfg),
        decreases turned.len(),
    {
        let ghost done = all.len() - turned.len();
        let e = turned.pop().unwrap();
        proof {
            assert(e == all[done]);
            lemma_run_extends(*cfg, first, all.take(done), e);
            assert(all.take(done).push(e) =~= all.take(done + 1));
        }
        let (next, action) = step(cfg, state, e);
        state = next;
        actions.push(action);
    }
    proof {
        assert(all.take(all.len() as int) =~= all);
    }
    (state, actions)
}

/// Counts the swaps among `actions`.
pub fn count_swaps(actions: &Vec<Action>) -> (count: usize)
    ensures
        count == swaps(actions@),
{
    let mut count: usize = 0;
    let mut i: usize = 0;
    while i < actions.len()
        invariant
            i <= actions.len(),
            count <= i,
            count == swaps(actions@.take(i as int)),
        decreases actions.len() - i,
    {
        proof {
            assert(actions@.take(i + 1).drop_last() =~= actions@.take(i as int));
        }
        match &actions[i] {
            Action::Submit { request } => match request {
                crate::model::TransactionRequest::Swap { .. } => {
                    count = count + 1;
                },
                _ => {},
            },
            _ => {},
        }
        i = i + 1;
    }
    proof {
        assert(actions@.take(i as int) =~= actions@);
    }
    count
}

} // verus!
