//! What holds of every run of the loop, proved from the transition relation.

use vstd::prelude::*;
use crate::control::{
    step_spec, Action, Awaiting, Event, LoopConfig, LoopError, LoopState, PersistedRecord, Phase,
};
use crate::model::{BalanceReading, ContractAddress, TransactionReceipt, TransactionRequest};
use crate::trace::{
    lemma_one_action_per_event, lemma_run_extends, run_actions, run_state, swaps,
};

verus! {

/// The swaps of a run that starts with `first`: those of the rest, and one
/// more if `first` is a swap.
pub proof fn lemma_swaps_after_first(first: Action, rest: Seq<Action>)
    ensures
        swaps(seq![first] + rest) == swaps(rest) + if first.is_swap() {
            1nat
        } else {
            0nat
        },
    decreases rest.len(),
{
    let all = seq![first] + rest;
    if rest.len() == 0 {
        assert(all.drop_last() =~= Seq::<Action>::empty());
        assert(swaps(all.drop_last()) == 0);
    } else {
        assert(all.drop_last() =~= seq![first] + rest.drop_last());
        assert(all.last() == rest.last());
        lemma_swaps_after_first(first, rest.drop_last());
    }
}

/// A run over two stretches of events is the run over the first, continued
/// over the second from where the first ended.
pub proof fn lemma_run_in_two(
    cfg: LoopConfig,
    s: LoopState,
    first: Seq<Event>,
    second: Seq<Event>,
)
    ensures
        run_state(cfg, s, first + second) == run_state(cfg, run_state(cfg, s, first), second),
        run_actions(cfg, s, first + second) == run_actions(cfg, s, first) + run_actions(
            cfg,
            run_state(cfg, s, first),
            second,
        ),
    decreases first.len(),
{
    if first.len() == 0 {
        assert(first + second =~= second);
        assert(run_actions(cfg, s, first) + run_actions(cfg, s, second) =~= run_actions(
            cfg,
            s,
            second,
        ));
    } else {
        let next = step_spec(cfg, s, first[0]).0;
        assert((first + second)[0] == first[0]);
        assert((first + second).drop_first() =~= first.drop_first() + second);
        lemma_run_in_two(cfg, next, first.drop_first(), second);
        assert(run_actions(cfg, s, first + second) =~= run_actions(cfg, s, first) + run_actions(
            cfg,
            run_state(cfg, s, first),
            second,
        ));
    }
}

/// A run over a single event is one step.
pub proof fn lemma_run_of_one(cfg: LoopConfig, s: LoopState, e: Event)
    ensures
        run_state(cfg, s, seq![e]) == step_spec(cfg, s, e).0,
        run_actions(cfg, s, seq![e]) == seq![step_spec(cfg, s, e).1],
{
    lemma_run_extends(cfg, s, Seq::<Event>::empty(), e);
    assert(Seq::<Event>::empty().push(e) =~= seq![e]);
    assert(Seq::<Action>::empty().push(step_spec(cfg, s, e).1) =~= seq![step_spec(cfg, s, e).1]);
}

/// A reading strictly below the floor, arriving when the loop waits for one,
/// is answered with exactly one swap, whose payload is the reading's
/// shortfall; the loop then waits for that swap's outcome.
pub proof fn law_low_reading_issues_one_swap(cfg: LoopConfig, s: LoopState, reading: BalanceReading)
    requires
        s.phase is Monitoring,
        s.awaiting is BalanceResponse,
        reading.value < cfg.threshold.floor,
    ensures
        step_spec(cfg, s, Event::BalanceFetched { reading }).1 == (Action::Submit {
            request: TransactionRequest::Swap {
                shortfall: (cfg.threshold.floor - reading.value) as u64,
            },
        }),
        step_spec(cfg, s, Event::BalanceFetched { reading }).0.swap_in_flight(),
        step_spec(cfg, s, Event::BalanceFetched { reading }).0.last_reading == Some(reading),
        swaps(run_actions(cfg, s, seq![Event::BalanceFetched { reading }])) == 1,
{
    let e = Event::BalanceFetched { reading };
    let action = step_spec(cfg, s, e).1;
    lemma_run_of_one(cfg, s, e);
    lemma_swaps_after_first(action, Seq::<Action>::empty());
    assert(seq![action] + Seq::<Action>::empty() =~= seq![action]);
}

/// A swap is only ever submitted when none is in flight, and is in flight
/// from then on: there is never more than one.
pub proof fn law_swap_starts_the_only_flight(cfg: LoopConfig, s: LoopState, e: Event)
    requires
        step_spec(cfg, s, e).1.is_swap(),
    ensures
        !s.swap_in_flight(),
        step_spec(cfg, s, e).0.swap_in_flight(),
{
}

/// A swap in flight stays in flight until the outcome of the call is
/// reported.
pub proof fn law_flight_ends_with_its_outcome(cfg: LoopConfig, s: LoopState, e: Event)
    requires
        s.swap_in_flight(),
        !e.is_call_outcome(),
    ensures
        step_spec(cfg, s, e).0.swap_in_flight(),
        !step_spec(cfg, s, e).1.is_swap(),
{
}

/// While a swap is in flight, whatever is reported short of the outcome of
/// the call (further readings below the floor among it) submits no second
/// swap.
pub proof fn law_no_second_swap_before_outcome(cfg: LoopConfig, s: LoopState, events: Seq<Event>)
    requires
        s.swap_in_flight(),
        forall|i: int| 0 <= i < events.len() ==> !(#[trigger] events[i]).is_call_outcome(),
    ensures
        run_state(cfg, s, events).swap_in_flight(),
        swaps(run_actions(cfg, s, events)) == 0,
    decreases events.len(),
{
    if events.len() > 0 {
        let (next, action) = step_spec(cfg, s, events[0]);
        let rest = events.drop_first();
        assert(!events[0].is_call_outcome());
        assert forall|i: int| 0 <= i < rest.len() implies !(#[trigger] rest[i]).is_call_outcome() by {
            assert(rest[i] == events[i + 1]);
        }
        law_no_second_swap_before_outcome(cfg, next, rest);
        lemma_swaps_after_first(action, run_actions(cfg, next, rest));
    }
}

/// Between two outcomes of calls at most one swap is submitted, whatever the
/// state and whatever is reported.
pub proof fn law_one_swap_per_confirmation_window(
    cfg: LoopConfig,
    s: LoopState,
    events: Seq<Event>,
)
    requires
        forall|i: int| 0 <= i < events.len() ==> !(#[trigger] events[i]).is_call_outcome(),
    ensures
        swaps(run_actions(cfg, s, events)) <= 1,
    decreases events.len(),
{
    if events.len() > 0 {
        let (next, action) = step_spec(cfg, s, events[0]);
        let rest = events.drop_first();
        assert forall|i: int| 0 <= i < rest.len() implies !(#[trigger] rest[i]).is_call_outcome() by {
            assert(rest[i] == events[i + 1]);
        }
        if action.is_swap() {
            law_no_second_swap_before_outcome(cfg, next, rest);
        } else {
            law_one_swap_per_confirmation_window(cfg, next, rest);
        }
        lemma_swaps_after_first(action, run_actions(cfg, next, rest));
    }
}

/// A monitoring cycle with a reading below the floor submits exactly one
/// swap: the one that answers the reading. Until the outcome of that call is
/// reported nothing adds a second, further readings below the floor
/// included.
pub proof fn law_low_reading_swaps_exactly_once(
    cfg: LoopConfig,
    s: LoopState,
    reading: BalanceReading,
    later: Seq<Event>,
)
    requires
        s.phase is Monitoring,
        s.awaiting is BalanceResponse,
        reading.value < cfg.threshold.floor,
        forall|i: int| 0 <= i < later.len() ==> !(#[trigger] later[i]).is_call_outcome(),
    ensures
        swaps(run_actions(cfg, s, seq![Event::BalanceFetched { reading }] + later)) == 1,
        run_actions(cfg, s, seq![Event::BalanceFetched { reading }] + later)[0].is_swap(),
        run_state(cfg, s, seq![Event::BalanceFetched { reading }] + later).swap_in_flight(),
{
    let fetched = Event::BalanceFetched { reading };
    let all = seq![fetched] + later;
    let (next, action) = step_spec(cfg, s, fetched);
    assert(all[0] == fetched);
    assert(all.drop_first() =~= later);
    law_no_second_swap_before_outcome(cfg, next, later);
    lemma_swaps_after_first(action, run_actions(cfg, next, later));
}

/// A reading at or above the floor submits no swap, in whatever state it
/// arrives; where the loop waits for a reading, it takes the reading in and
/// sleeps until the next poll.
pub proof fn law_sufficient_reading_issues_no_swap(
    cfg: LoopConfig,
    s: LoopState,
    reading: BalanceReading,
)
    requires
        reading.value >= cfg.threshold.floor,
    ensures
        !step_spec(cfg, s, Event::BalanceFetched { reading }).1.is_swap(),
        !step_spec(cfg, s, Event::BalanceFetched { reading }).0.swap_in_flight()
            || s.swap_in_flight(),
        s.phase is Monitoring && s.awaiting is BalanceResponse ==> {
            &&& step_spec(cfg, s, Event::BalanceFetched { reading }).1 == (Action::Sleep {
                seconds: cfg.poll_interval_seconds,
            })
            &&& step_spec(cfg, s, Event::BalanceFetched { reading }).0.phase is Monitoring
            &&& step_spec(cfg, s, Event::BalanceFetched { reading }).0.last_reading == Some(
                reading,
            )
        },
{
}

/// A reading equal to the floor is sufficient: it submits no swap.
pub proof fn law_reading_at_floor_is_sufficient(
    cfg: LoopConfig,
    s: LoopState,
    reading: BalanceReading,
)
    requires
        reading.value == cfg.threshold.floor,
    ensures
        !cfg.threshold.warrants_swap(reading),
        !step_spec(cfg, s, Event::BalanceFetched { reading }).1.is_swap(),
        s.phase is Monitoring && s.awaiting is BalanceResponse ==> step_spec(
            cfg,
            s,
            Event::BalanceFetched { reading },
        ).0.phase is Monitoring,
{
}

/// The readings among `events` all lie at or above the floor.
pub open spec fn readings_suffice(cfg: LoopConfig, events: Seq<Event>) -> bool {
    forall|i: int|
        0 <= i < events.len() ==> ((#[trigger] events[i]) matches Event::BalanceFetched {
            reading,
        } ==> reading.value >= cfg.threshold.floor)
}

/// A run in which every reading lies at or above the floor submits no swap
/// at all, from any state in which none is under way.
pub proof fn law_no_swap_without_low_reading(cfg: LoopConfig, s: LoopState, events: Seq<Event>)
    requires
        !(s.phase is Triggering),
        readings_suffice(cfg, events),
    ensures
        !(run_state(cfg, s, events).phase is Triggering),
        swaps(run_actions(cfg, s, events)) == 0,
    decreases events.len(),
{
    if events.len() > 0 {
        let (next, action) = step_spec(cfg, s, events[0]);
        let rest = events.drop_first();
        assert(events[0] matches Event::BalanceFetched { reading } ==> reading.value
            >= cfg.threshold.floor);
        assert forall|i: int| 0 <= i < rest.len() implies ((#[trigger] rest[i]) matches Event::BalanceFetched {
            reading,
        } ==> reading.value >= cfg.threshold.floor) by {
            assert(rest[i] == events[i + 1]);
        }
        law_no_swap_without_low_reading(cfg, next, rest);
        lemma_swaps_after_first(action, run_actions(cfg, next, rest));
    }
}

/// The contract is found: the loop monitors it, swaps for it, or has ended.
pub open spec fn is_settled(s: LoopState) -> bool {
    s.phase is Monitoring || s.phase is Triggering || s.is_final()
}

/// The action leaves the contract and its record alone: it neither deploys
/// nor registers, neither reads nor writes the address record, and does not
/// ask for the deployment code.
pub open spec fn leaves_contract_alone(action: Action) -> bool {
    !action.is_deploy() && !action.is_register() && !(action is StoreAddress) && !(action
        is LoadAddress) && !(action is LoadCode)
}

/// Once the contract is found, nothing that is reported makes the loop deploy
/// or register again, or touch the address record; the address stays.
pub proof fn law_settled_contract_is_left_alone(cfg: LoopConfig, s: LoopState, events: Seq<Event>)
    requires
        is_settled(s),
    ensures
        is_settled(run_state(cfg, s, events)),
        run_state(cfg, s, events).address == s.address,
        run_state(cfg, s, events).registered == s.registered,
        forall|i: int|
            0 <= i < events.len() ==> leaves_contract_alone(
                #[trigger] run_actions(cfg, s, events)[i],
            ),
    decreases events.len(),
{
    if events.len() > 0 {
        let (next, action) = step_spec(cfg, s, events[0]);
        let rest = events.drop_first();
        law_settled_contract_is_left_alone(cfg, next, rest);
        lemma_one_action_per_event(cfg, next, rest);
        let all = run_actions(cfg, s, events);
        assert forall|i: int| 0 <= i < events.len() implies leaves_contract_alone(
            #[trigger] all[i],
        ) by {
            if i > 0 {
                assert(all[i] == run_actions(cfg, next, rest)[i - 1]);
            }
        }
    }
}

/// Starting with a stored address is idempotent: the loop takes the address
/// up as registered and goes straight to monitoring, and nothing that follows
/// deploys or registers a second time or stores the address anew.
pub proof fn law_bootstrap_resumes_stored_contract(
    cfg: LoopConfig,
    address: ContractAddress,
    events: Seq<Event>,
)
    ensures
        ({
            let found = Event::AddressRecord { record: PersistedRecord::Found { address } };
            let (resumed, action) = step_spec(cfg, LoopState::initial(), found);
            &&& action == Action::FetchBalance
            &&& resumed.phase is Monitoring
            &&& resumed.registered
            &&& resumed.wf(cfg)
            &&& run_state(cfg, resumed, events).address == Some(address)
            &&& forall|i: int|
                0 <= i < events.len() ==> leaves_contract_alone(
                    #[trigger] run_actions(cfg, resumed, events)[i],
                )
        }),
{
    let found = Event::AddressRecord { record: PersistedRecord::Found { address } };
    let resumed = step_spec(cfg, LoopState::initial(), found).0;
    law_settled_contract_is_left_alone(cfg, resumed, events);
}

/// Starting without a stored address asks for the deployment code, deploys
/// exactly that code once, and stores the address the deployment was
/// confirmed with, so that the next start finds it and, by
/// [`law_bootstrap_resumes_stored_contract`], neither deploys nor registers
/// again.
pub proof fn law_first_start_stores_what_it_deployed(
    cfg: LoopConfig,
    code: Vec<u8>,
    receipt: TransactionReceipt,
    address: ContractAddress,
)
    requires
        receipt.succeeded,
        receipt.contract_address == Some(address),
    ensures
        run_actions(
            cfg,
            LoopState::initial(),
            seq![
                Event::AddressRecord { record: PersistedRecord::Absent },
                Event::CodeLoaded { code },
                Event::DeployConfirmed { receipt },
                Event::AddressStored,
            ],
        ) == seq![
            Action::LoadCode,
            Action::Submit { request: TransactionRequest::Deploy { code } },
            Action::StoreAddress { address },
            Action::Submit { request: TransactionRequest::Register { position: cfg.position } },
        ],
{
    let absent = Event::AddressRecord { record: PersistedRecord::Absent };
    let loaded = Event::CodeLoaded { code };
    let confirmed = Event::DeployConfirmed { receipt };
    let start = LoopState::initial();
    let asking = step_spec(cfg, start, absent).0;
    let deploying = step_spec(cfg, asking, loaded).0;
    let storing = step_spec(cfg, deploying, confirmed).0;
    lemma_run_of_one(cfg, start, absent);
    lemma_run_extends(cfg, start, seq![absent], loaded);
    assert(seq![absent].push(loaded) =~= seq![absent, loaded]);
    assert(run_state(cfg, start, seq![absent, loaded]) == deploying);
    lemma_run_extends(cfg, start, seq![absent, loaded], confirmed);
    assert(seq![absent, loaded].push(confirmed) =~= seq![absent, loaded, confirmed]);
    assert(run_state(cfg, start, seq![absent, loaded, confirmed]) == storing);
    lemma_run_extends(cfg, start, seq![absent, loaded, confirmed], Event::AddressStored);
    assert(seq![absent, loaded, confirmed].push(Event::AddressStored) =~= seq![
        absent,
        loaded,
        confirmed,
        Event::AddressStored,
    ]);
}

/// The address record is written for one reason only: a deployment was just
/// confirmed with that address, and no address was known before.
pub proof fn law_record_is_written_after_deployment(
    cfg: LoopConfig,
    s: LoopState,
    e: Event,
    address: ContractAddress,
)
    requires
        s.wf(cfg),
        step_spec(cfg, s, e).1 == (Action::StoreAddress { address }),
    ensures
        s.address is None,
        e matches Event::DeployConfirmed { receipt } && receipt.succeeded
            && receipt.contract_address == Some(address),
        step_spec(cfg, s, e).0.address == Some(address),
{
}

/// An address, once known, is never replaced, and no deployment is submitted
/// while one is known.
pub proof fn law_known_address_is_kept(cfg: LoopConfig, s: LoopState, e: Event)
    requires
        s.wf(cfg),
        s.address is Some,
    ensures
        step_spec(cfg, s, e).0.address == s.address,
        !step_spec(cfg, s, e).1.is_deploy(),
        !(step_spec(cfg, s, e).1 is StoreAddress),
{
}

/// The address record is read when the loop starts and never again.
pub proof fn law_record_is_read_once(cfg: LoopConfig, s: LoopState, e: Event)
    ensures
        !(step_spec(cfg, s, e).1 is LoadAddress),
{
}

/// The events are failed polls and elapsed timers only.
pub open spec fn only_failed_polls(events: Seq<Event>) -> bool {
    forall|i: int|
        0 <= i < events.len() ==> (#[trigger] events[i]) is BalanceFetchFailed || events[i]
            is TimerElapsed
}

/// The action belongs to polling: a poll, or a wait before the next one.
pub open spec fn is_polling(cfg: LoopConfig, action: Action) -> bool {
    ||| action is FetchBalance
    ||| action is Idle
    ||| action matches Action::Sleep { seconds } && (seconds <= cfg.retry.max_delay_seconds
        || seconds == cfg.poll_interval_seconds)
}

/// However many polls fail in a row, the loop stays alive in monitoring and
/// keeps polling: each failure is answered with a bounded wait, each elapsed
/// wait with the next poll, and no swap is submitted meanwhile.
pub proof fn law_failed_polls_never_end_the_loop(cfg: LoopConfig, s: LoopState, events: Seq<Event>)
    requires
        s.wf(cfg),
        s.phase is Monitoring,
        only_failed_polls(events),
    ensures
        run_state(cfg, s, events).phase is Monitoring,
        run_state(cfg, s, events).wf(cfg),
        run_state(cfg, s, events).awaiting is BalanceResponse || step_spec(
            cfg,
            run_state(cfg, s, events),
            Event::TimerElapsed,
        ).1 == Action::FetchBalance,
        forall|i: int|
            0 <= i < events.len() ==> is_polling(cfg, #[trigger] run_actions(cfg, s, events)[i]),
    decreases events.len(),
{
    if events.len() > 0 {
        let (next, action) = step_spec(cfg, s, events[0]);
        let rest = events.drop_first();
        assert(events[0] is BalanceFetchFailed || events[0] is TimerElapsed);
        assert forall|i: int| 0 <= i < rest.len() implies (#[trigger] rest[i])
            is BalanceFetchFailed || rest[i] is TimerElapsed by {
            assert(rest[i] == events[i + 1]);
        }
        assert(is_polling(cfg, action));
        law_failed_polls_never_end_the_loop(cfg, next, rest);
        lemma_one_action_per_event(cfg, next, rest);
        let all = run_actions(cfg, s, events);
        assert forall|i: int| 0 <= i < events.len() implies is_polling(cfg, #[trigger] all[i]) by {
            if i > 0 {
                assert(all[i] == run_actions(cfg, next, rest)[i - 1]);
            }
        }
    }
}

/// When the retries of a poll are used up, the cycle is given up, not the
/// loop: the count starts afresh and the next poll follows after the usual
/// interval.
pub proof fn law_exhausted_poll_falls_back_to_interval(
    cfg: LoopConfig,
    s: LoopState,
    e: Event,
)
    requires
        s.phase is Monitoring,
        s.awaiting is BalanceResponse,
        e is BalanceFetchFailed,
        s.failures + 1 >= cfg.retry.max_attempts,
    ensures
        step_spec(cfg, s, e).1 == (Action::Sleep { seconds: cfg.poll_interval_seconds }),
        step_spec(cfg, s, e).0 == (LoopState { awaiting: Awaiting::Timer, failures: 0, ..s }),
{
}

/// The wait for the next poll begins only when the cycle before it is over:
/// a reading was taken in, a poll failed, or the swap was confirmed.
pub proof fn law_wait_follows_a_finished_cycle(cfg: LoopConfig, s: LoopState, e: Event)
    requires
        !(s.phase is Monitoring && s.awaiting is Timer),
        step_spec(cfg, s, e).0.phase is Monitoring,
        step_spec(cfg, s, e).0.awaiting is Timer,
    ensures
        e is BalanceFetched || e is BalanceFetchFailed || e is CallConfirmed,
        e is CallConfirmed ==> s.swap_in_flight(),
        e is BalanceFetched || e is BalanceFetchFailed ==> s.phase is Monitoring && s.awaiting
            is BalanceResponse,
{
}

/// A loop that has ended stays as it is and asks for nothing but to halt.
pub proof fn law_final_states_absorb(cfg: LoopConfig, s: LoopState, events: Seq<Event>)
    requires
        s.is_final(),
    ensures
        run_state(cfg, s, events) == s,
        forall|i: int|
            0 <= i < events.len() ==> (#[trigger] run_actions(cfg, s, events)[i]) == Action::Halt,
    decreases events.len(),
{
    if events.len() > 0 {
        let rest = events.drop_first();
        law_final_states_absorb(cfg, s, rest);
        lemma_one_action_per_event(cfg, s, rest);
        let all = run_actions(cfg, s, events);
        assert forall|i: int| 0 <= i < events.len() implies (#[trigger] all[i])
            == Action::Halt by {
            if i > 0 {
                assert(all[i] == run_actions(cfg, s, rest)[i - 1]);
            }
        }
    }
}

/// A run that ends in bootstrapping never left it, and has not polled the
/// balance yet.
pub proof fn lemma_no_poll_while_bootstrapping(cfg: LoopConfig, s: LoopState, events: Seq<Event>)
    requires
        run_state(cfg, s, events).phase is Bootstrapping,
    ensures
        s.phase is Bootstrapping,
        forall|i: int|
            0 <= i < events.len() ==> !((#[trigger] run_actions(cfg, s, events)[i])
                is FetchBalance),
    decreases events.len(),
{
    if events.len() > 0 {
        let (next, action) = step_spec(cfg, s, events[0]);
        let rest = events.drop_first();
        lemma_no_poll_while_bootstrapping(cfg, next, rest);
        lemma_one_action_per_event(cfg, next, rest);
        let all = run_actions(cfg, s, events);
        assert forall|i: int| 0 <= i < events.len() implies !((#[trigger] all[i])
            is FetchBalance) by {
            if i > 0 {
                assert(all[i] == run_actions(cfg, next, rest)[i - 1]);
            }
        }
    }
}

/// A deployment that was reverted, or confirmed without a contract address,
/// is fatal: the loop terminates on the spot with that cause, and no balance
/// is polled, neither before nor ever after.
pub proof fn law_failed_deployment_is_fatal(
    cfg: LoopConfig,
    before: Seq<Event>,
    receipt: TransactionReceipt,
    after: Seq<Event>,
)
    requires
        run_state(cfg, LoopState::initial(), before).phase is Bootstrapping,
        run_state(cfg, LoopState::initial(), before).awaiting is DeployReceipt,
        !receipt.succeeded || receipt.contract_address is None,
    ensures
        ({
            let confirmed = Event::DeployConfirmed { receipt };
            let waiting = run_state(cfg, LoopState::initial(), before);
            let all = before + seq![confirmed] + after;
            &&& step_spec(cfg, waiting, confirmed).1 == Action::Halt
            &&& step_spec(cfg, waiting, confirmed).0.phase == (Phase::Terminated {
                cause: LoopError::DeploymentFailed,
            })
            &&& run_state(cfg, LoopState::initial(), all).phase == (Phase::Terminated {
                cause: LoopError::DeploymentFailed,
            })
            &&& forall|i: int|
                0 <= i < all.len() ==> !((#[trigger] run_actions(cfg, LoopState::initial(), all)[i])
                    is FetchBalance)
        }),
{
    let start = LoopState::initial();
    let confirmed = Event::DeployConfirmed { receipt };
    let waiting = run_state(cfg, start, before);
    let (halted, action) = step_spec(cfg, waiting, confirmed);
    let all = before + seq![confirmed] + after;
    lemma_no_poll_while_bootstrapping(cfg, start, before);
    lemma_one_action_per_event(cfg, start, before);
    lemma_run_in_two(cfg, start, before, seq![confirmed]);
    lemma_run_in_two(cfg, start, before + seq![confirmed], after);
    lemma_run_of_one(cfg, waiting, confirmed);
    law_final_states_absorb(cfg, halted, after);
    lemma_one_action_per_event(cfg, halted, after);
    let actions = run_actions(cfg, start, all);
    assert(actions =~= run_actions(cfg, start, before) + seq![action] + run_actions(
        cfg,
        halted,
        after,
    ));
    assert forall|i: int| 0 <= i < all.len() implies !((#[trigger] actions[i])
        is FetchBalance) by {
        if i < before.len() {
            assert(actions[i] == run_actions(cfg, start, before)[i]);
        } else if i == before.len() {
            assert(actions[i] == action);
        } else {
            assert(actions[i] == run_actions(cfg, halted, after)[i - before.len() - 1]);
        }
    }
}

/// A shutdown asked for while nothing must be waited for ends the loop at
/// once and without an error; asked for while a transaction or the write of
/// the address is outstanding, it is noted and the loop keeps waiting.
pub proof fn law_shutdown_waits_for_commitments(cfg: LoopConfig, s: LoopState)
    requires
        !s.is_final(),
    ensures
        ({
            let (next, action) = step_spec(cfg, s, Event::ShutdownRequested);
            if s.awaiting.is_commitment() {
                next == (LoopState { stop_requested: true, ..s }) && action == Action::Idle
            } else {
                next.phase is Stopped && action == Action::Halt
            }
        }),
{
}

/// Once a shutdown is noted, nothing new is begun: no transaction is
/// submitted and no balance is polled, whatever is reported; and when the
/// outstanding work has come back the loop has ended or waits for the
/// address to be stored.
pub proof fn law_nothing_begins_after_shutdown(cfg: LoopConfig, s: LoopState, events: Seq<Event>)
    requires
        s.wf(cfg),
        s.stop_requested,
    ensures
        run_state(cfg, s, events).stop_requested,
        run_state(cfg, s, events).wf(cfg),
        forall|i: int|
            0 <= i < events.len() ==> !((#[trigger] run_actions(cfg, s, events)[i]) is Submit)
                && !(run_actions(cfg, s, events)[i] is FetchBalance) && !(run_actions(
                cfg,
                s,
                events,
            )[i] is LoadCode),
    decreases events.len(),
{
    if events.len() > 0 {
        let (next, action) = step_spec(cfg, s, events[0]);
        let rest = events.drop_first();
        law_nothing_begins_after_shutdown(cfg, next, rest);
        lemma_one_action_per_event(cfg, next, rest);
        let all = run_actions(cfg, s, events);
        assert forall|i: int| 0 <= i < events.len() implies !((#[trigger] all[i]) is Submit)
            && !(all[i] is FetchBalance) && !(all[i] is LoadCode) by {
            if i > 0 {
                assert(all[i] == run_actions(cfg, next, rest)[i - 1]);
            }
        }
    }
}

/// A failure that may be retried is retried only while attempts remain:
/// with the last attempt failed, an unreachable endpoint or a call that did
/// not reach the chain terminates the loop with that cause.
pub proof fn law_retries_are_bounded(cfg: LoopConfig, s: LoopState, e: Event)
    requires
        !s.stop_requested,
        s.failures + 1 >= cfg.retry.max_attempts,
        (s.phase is Bootstrapping && s.awaiting is DeployReceipt && e is DeployUnreachable) || ((
        s.phase is Registering && s.awaiting is RegisterReceipt || s.swap_in_flight())
            && e.is_lost_call()),
    ensures
        step_spec(cfg, s, e).1 == Action::Halt,
        step_spec(cfg, s, e).0.phase == (Phase::Terminated {
            cause: match e {
                Event::CallFailed { failure } => LoopError::CallFailed { failure },
                _ => LoopError::Connection,
            },
        }),
{
}

/// A call that the contract refused, or whose outcome is not known, is never
/// submitted again: the loop terminates with the failure and its reason as
/// the cause. So does a call that the chain took in and reverted.
pub proof fn law_refused_call_is_fatal(cfg: LoopConfig, s: LoopState, e: Event)
    requires
        s.phase is Registering && s.awaiting is RegisterReceipt || s.swap_in_flight(),
        e.is_refused_call(),
    ensures
        step_spec(cfg, s, e).1 == Action::Halt,
        step_spec(cfg, s, e).0.phase == (Phase::Terminated {
            cause: match e {
                Event::CallFailed { failure } => LoopError::CallFailed { failure },
                Event::CallConfirmed { receipt } => LoopError::CallReverted {
                    transaction: receipt.transaction,
                },
                _ => LoopError::Connection,
            },
        }),
{
}

} // verus!
