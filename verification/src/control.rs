//! The control loop as a state machine.
//!
//! The driver owns the waiting: it performs the [`Action`] it is handed and
//! reports what came of it as an [`Event`]. [`step`] owns the deciding: from
//! the state and the event it gives the next state and the next action.
//! Events that the state does not wait for change nothing and ask for
//! nothing, so a late or repeated report can never start a second
//! transaction.

use vstd::prelude::*;
use crate::model::{
    BalanceReading, ContractAddress, InitialPosition, ThresholdConfig, TransactionId,
    TransactionReceipt, TransactionRequest,
};
use crate::retry::{decision, RetryDecision, RetryPolicy};

verus! {

/// What kind of failure a call to the deployed contract met.
#[derive(Clone, Copy, Debug, PartialEq, Eq)]
pub enum FailureClass {
    /// The request did not reach the chain; it may be submitted again.
    Transport,
    /// The contract refused the call; trying again would be refused again.
    Reverted,
    /// The request may have reached the chain, but no outcome is known.
    /// Submitting it again could carry it out twice.
    Unconfirmed,
}

/// Why a call to the deployed contract failed: the kind of failure, and the
/// reason as the transport or the chain gave it.
#[derive(Clone, Debug, PartialEq, Eq)]
pub struct CallFailure {
    pub class: FailureClass,
    pub reason: String,
}

/// Why a balance could not be read.
#[derive(Clone, Copy, Debug, PartialEq, Eq)]
pub enum BalanceFetchError {
    /// The service could not be reached or did not answer.
    Transport,
    /// The service answered with a status outside 200 to 299.
    Status { code: u16 },
    /// The body is no JSON document with one balance in it.
    MalformedBody,
}

/// The cause the loop reports when it terminates.
#[derive(Clone, Debug, PartialEq, Eq)]
pub enum LoopError {
    /// The stored address record exists but cannot be read as an address.
    RecordUnreadable,
    /// The address of the fresh contract could not be stored.
    StoreFailed,
    /// The deployment code could not be had.
    CodeUnreadable,
    /// The chain endpoint stayed out of reach through every attempt.
    Connection,
    /// The deployment was reverted, or confirmed without a contract address.
    DeploymentFailed,
    /// The deployment may have reached the chain, but no outcome is known.
    DeploymentUnconfirmed,
    /// A register or swap call failed for good.
    CallFailed { failure: CallFailure },
    /// A register or swap call was taken in by the chain and reverted.
    CallReverted { transaction: TransactionId },
}

/// The phase of the loop.
#[derive(Clone, Debug, PartialEq, Eq)]
pub enum Phase {
    /// Finding the contract: the stored address, or a fresh deployment.
    Bootstrapping,
    /// Registering the initial position with a fresh contract.
    Registering,
    /// Polling the balance.
    Monitoring,
    /// A reading fell below the floor; the swap for it is under way.
    Triggering,
    /// The loop stopped on an error.
    Terminated { cause: LoopError },
    /// The loop stopped because the operator asked it to.
    Stopped,
}

/// What the loop is waiting for.
#[derive(Clone, Copy, Debug, PartialEq, Eq)]
pub enum Awaiting {
    /// The stored address record.
    AddressRecord,
    /// The deployment code.
    DeploymentCode,
    /// The outcome of the deployment.
    DeployReceipt,
    /// Word that the address has been stored.
    AddressStored,
    /// The outcome of the register call.
    RegisterReceipt,
    /// The answer of the balance service.
    BalanceResponse,
    /// The outcome of the swap call.
    SwapReceipt,
    /// The end of a wait: the poll interval, or the pause before a retry.
    Timer,
    /// Nothing: the loop has ended.
    Nothing,
}

/// What the store holds under the deployment's name.
#[derive(Clone, Copy, Debug, PartialEq, Eq)]
pub enum PersistedRecord {
    Absent,
    Found { address: ContractAddress },
    /// There is a record, but it is not an address.
    Unreadable,
}

/// What the driver reports.
#[derive(Clone, Debug, PartialEq, Eq)]
pub enum Event {
    /// The store was read.
    AddressRecord { record: PersistedRecord },
    /// The deployment code was read.
    CodeLoaded { code: Vec<u8> },
    /// The deployment code is missing or is no code.
    CodeUnreadable,
    /// The deployment came back with a receipt.
    DeployConfirmed { receipt: TransactionReceipt },
    /// The deployment could not be submitted: the endpoint is out of reach.
    DeployUnreachable,
    /// The deployment may have reached the chain, but no outcome is known.
    DeployUnconfirmed,
    /// The address is stored.
    AddressStored,
    /// The address could not be stored.
    AddressStoreFailed,
    /// The register or swap call came back with a receipt.
    CallConfirmed { receipt: TransactionReceipt },
    /// The register or swap call failed.
    CallFailed { failure: CallFailure },
    /// The balance service answered.
    BalanceFetched { reading: BalanceReading },
    /// The balance could not be read.
    BalanceFetchFailed { error: BalanceFetchError },
    /// The wait is over.
    TimerElapsed,
    /// The operator asked the loop to stop.
    ShutdownRequested,
}

/// What the driver is to do next.
#[derive(Clone, Debug, PartialEq, Eq)]
pub enum Action {
    /// Read the stored address record.
    LoadAddress,
    /// Read the deployment code.
    LoadCode,
    /// Submit the request and wait for its outcome.
    Submit { request: TransactionRequest },
    /// Store the address, replacing the record in one piece.
    StoreAddress { address: ContractAddress },
    /// Ask the balance service once.
    FetchBalance,
    /// Wait that many seconds, or until a shutdown is asked for.
    Sleep { seconds: u64 },
    /// Nothing new: keep waiting for what is outstanding.
    Idle,
    /// The loop has ended; the phase says how.
    Halt,
}

/// What the loop is run with. It does not change while the loop runs.
#[derive(Clone, Copy, Debug, PartialEq, Eq)]
pub struct LoopConfig {
    /// Seconds between the end of one monitoring cycle and the next poll.
    pub poll_interval_seconds: u64,
    /// The floor the readings are held against.
    pub threshold: ThresholdConfig,
    /// How failed actions are tried again.
    pub retry: RetryPolicy,
    /// What a fresh contract is registered with.
    pub position: InitialPosition,
}

/// The state of the loop. Only [`step`] moves it on.
#[derive(Clone, Debug, PartialEq, Eq)]
pub struct LoopState {
    pub phase: Phase,
    pub awaiting: Awaiting,
    /// The contract, once known.
    pub address: Option<ContractAddress>,
    /// Whether the contract counts as registered.
    pub registered: bool,
    /// The last reading that was taken in.
    pub last_reading: Option<BalanceReading>,
    /// The last confirmed swap.
    pub last_swap: Option<TransactionId>,
    /// How many attempts at the current action have failed in a row.
    pub failures: u32,
    /// A shutdown was asked for while a commitment was outstanding.
    pub stop_requested: bool,
}

impl Awaiting {
    /// Outstanding work whose outcome must not be lost: a submitted
    /// transaction, or the write of a fresh contract's address.
    pub open spec fn is_commitment(self) -> bool {
        self is DeployReceipt || self is AddressStored || self is RegisterReceipt
            || self is SwapReceipt
    }

    /// Exec form of [`Awaiting::is_commitment`].
    pub fn commitment(&self) -> (yes: bool)
        ensures
            yes == self.is_commitment(),
    {
        match self {
            Awaiting::DeployReceipt => true,
            Awaiting::AddressStored => true,
            Awaiting::RegisterReceipt => true,
            Awaiting::SwapReceipt => true,
            _ => false,
        }
    }
}

impl Event {
    /// The outcome of a register or swap call.
    pub open spec fn is_call_outcome(self) -> bool {
        self is CallConfirmed || self is CallFailed
    }

    /// A call that did not reach the chain.
    pub open spec fn is_lost_call(self) -> bool {
        match self {
            Event::CallFailed { failure } => failure.class is Transport,
            _ => false,
        }
    }

    /// A call that failed for good: the contract refused it, its outcome is
    /// not known, or the chain took it in and reverted it.
    pub open spec fn is_refused_call(self) -> bool {
        match self {
            Event::CallFailed { failure } => !(failure.class is Transport),
            Event::CallConfirmed { receipt } => !receipt.succeeded,
            _ => false,
        }
    }
}

impl Action {
    /// The action submits a swap.
    pub open spec fn is_swap(self) -> bool {
        self matches Action::Submit { request } && request is Swap
    }

    /// The action submits a deployment.
    pub open spec fn is_deploy(self) -> bool {
        self matches Action::Submit { request } && request is Deploy
    }

    /// The action submits a registration.
    pub open spec fn is_register(self) -> bool {
        self matches Action::Submit { request } && request is Register
    }
}

impl LoopState {
    /// The state a loop starts in: nothing known, the record not yet read.
    pub open spec fn initial() -> LoopState {
        LoopState {
            phase: Phase::Bootstrapping,
            awaiting: Awaiting::AddressRecord,
            address: None,
            registered: false,
            last_reading: None,
            last_swap: None,
            failures: 0,
            stop_requested: false,
        }
    }

    /// The loop has ended, with or without an error.
    pub open spec fn is_final(self) -> bool {
        self.phase is Terminated || self.phase is Stopped
    }

    /// A swap has been submitted and its outcome is not yet known.
    pub open spec fn swap_in_flight(self) -> bool {
        self.phase is Triggering && self.awaiting is SwapReceipt
    }

    /// The payload of the swap that the last reading asks for.
    pub open spec fn swap_request(self, cfg: LoopConfig) -> TransactionRequest {
        TransactionRequest::Swap {
            shortfall: match self.last_reading {
                Some(reading) => cfg.threshold.shortfall(reading) as u64,
                None => 0,
            },
        }
    }

    /// The states the loop can be in: each phase waits only for what belongs
    /// to it, and knows what it must know.
    pub open spec fn wf(self, cfg: LoopConfig) -> bool {
        &&& match self.phase {
            Phase::Bootstrapping => {
                &&& self.awaiting is AddressRecord || self.awaiting is DeploymentCode
                    || self.awaiting is DeployReceipt || self.awaiting is AddressStored
                    || self.awaiting is Timer
                &&& self.address is Some <==> self.awaiting is AddressStored
                &&& !self.registered
                &&& self.last_reading is None
                &&& self.last_swap is None
            },
            Phase::Registering => {
                &&& self.awaiting is RegisterReceipt || self.awaiting is Timer
                &&& self.address is Some
                &&& !self.registered
                &&& self.last_reading is None
                &&& self.last_swap is None
            },
            Phase::Monitoring => {
                &&& self.awaiting is BalanceResponse || self.awaiting is Timer
                &&& self.address is Some
                &&& self.registered
            },
            Phase::Triggering => {
                &&& self.awaiting is SwapReceipt || self.awaiting is Timer
                &&& self.address is Some
                &&& self.registered
                &&& self.last_reading matches Some(reading)
                &&& cfg.threshold.warrants_swap(reading)
            },
            Phase::Terminated { .. } => self.awaiting is Nothing,
            Phase::Stopped => self.awaiting is Nothing,
        }
        &&& self.stop_requested ==> self.is_final() || self.awaiting.is_commitment()
        &&& self.failures == 0 || self.failures < cfg.retry.max_attempts
        &&& self.failures > 0 ==> !self.is_final()
    }
}

/// The loop ends in `phase`.
pub open spec fn ended(s: LoopState, phase: Phase) -> (LoopState, Action) {
    (LoopState { phase, awaiting: Awaiting::Nothing, failures: 0, ..s }, Action::Halt)
}

/// After one more failure of an action that may be tried again: wait and
/// retry while the policy allows it, else end with `cause`.
pub open spec fn retried_or_ended(cfg: LoopConfig, s: LoopState, cause: LoopError) -> (
    LoopState,
    Action,
) {
    match decision(cfg.retry, (s.failures + 1) as nat) {
        RetryDecision::RetryAfter { seconds } => (
            LoopState { awaiting: Awaiting::Timer, failures: (s.failures + 1) as u32, ..s },
            Action::Sleep { seconds },
        ),
        RetryDecision::GiveUp => ended(s, Phase::Terminated { cause }),
    }
}

/// After one more failed poll: wait and retry while the policy allows it;
/// once it does not, give this cycle up and poll again after the usual
/// interval. A failed poll never ends the loop.
pub open spec fn poll_retried(cfg: LoopConfig, s: LoopState) -> (LoopState, Action) {
    match decision(cfg.retry, (s.failures + 1) as nat) {
        RetryDecision::RetryAfter { seconds } => (
            LoopState { awaiting: Awaiting::Timer, failures: (s.failures + 1) as u32, ..s },
            Action::Sleep { seconds },
        ),
        RetryDecision::GiveUp => (
            LoopState { awaiting: Awaiting::Timer, failures: 0, ..s },
            Action::Sleep { seconds: cfg.poll_interval_seconds },
        ),
    }
}

/// The address a deployment receipt gives: that of the created contract,
/// where the chain carried the deployment out and names one.
pub open spec fn deployed_at(receipt: TransactionReceipt) -> Option<ContractAddress> {
    if receipt.succeeded {
        receipt.contract_address
    } else {
        None
    }
}

/// After a register or swap call failed: a request that did not reach the
/// chain is submitted again while the policy allows it, unless a shutdown
/// was asked for meanwhile; a call that the contract refused, and one whose
/// outcome is not known, end the loop with that failure as the cause.
pub open spec fn call_failed_spec(cfg: LoopConfig, s: LoopState, failure: CallFailure) -> (
    LoopState,
    Action,
) {
    match failure.class {
        FailureClass::Transport => if s.stop_requested {
            ended(s, Phase::Stopped)
        } else {
            retried_or_ended(cfg, s, LoopError::CallFailed { failure })
        },
        _ => ended(s, Phase::Terminated { cause: LoopError::CallFailed { failure } }),
    }
}

/// The transition relation: the state and action that follow `s` on `e`.
pub open spec fn step_spec(cfg: LoopConfig, s: LoopState, e: Event) -> (LoopState, Action) {
    match (s.phase, s.awaiting, e) {
        (Phase::Terminated { .. }, _, _) => (s, Action::Halt),
        (Phase::Stopped, _, _) => (s, Action::Halt),
        (_, _, Event::ShutdownRequested) => {
            if s.awaiting.is_commitment() {
                (LoopState { stop_requested: true, ..s }, Action::Idle)
            } else {
                ended(s, Phase::Stopped)
            }
        },
        (Phase::Bootstrapping, Awaiting::AddressRecord, Event::AddressRecord { record }) => {
            match record {
                PersistedRecord::Found { address } => (
                    LoopState {
                        phase: Phase::Monitoring,
                        awaiting: Awaiting::BalanceResponse,
                        address: Some(address),
                        registered: true,
                        failures: 0,
                        ..s
                    },
                    Action::FetchBalance,
                ),
                PersistedRecord::Absent => (
                    LoopState { awaiting: Awaiting::DeploymentCode, failures: 0, ..s },
                    Action::LoadCode,
                ),
                PersistedRecord::Unreadable => ended(
                    s,
                    Phase::Terminated { cause: LoopError::RecordUnreadable },
                ),
            }
        },
        (Phase::Bootstrapping, Awaiting::DeploymentCode, Event::CodeLoaded { code }) => (
            LoopState { awaiting: Awaiting::DeployReceipt, ..s },
            Action::Submit { request: TransactionRequest::Deploy { code } },
        ),
        (Phase::Bootstrapping, Awaiting::DeploymentCode, Event::CodeUnreadable) => ended(
            s,
            Phase::Terminated { cause: LoopError::CodeUnreadable },
        ),
        (Phase::Bootstrapping, Awaiting::DeployReceipt, Event::DeployConfirmed { receipt }) => {
            match deployed_at(receipt) {
                Some(address) => (
                    LoopState {
                        awaiting: Awaiting::AddressStored,
                        address: Some(address),
                        failures: 0,
                        ..s
                    },
                    Action::StoreAddress { address },
                ),
                None => ended(s, Phase::Terminated { cause: LoopError::DeploymentFailed }),
            }
        },
        (Phase::Bootstrapping, Awaiting::DeployReceipt, Event::DeployUnreachable) => {
            if s.stop_requested {
                ended(s, Phase::Stopped)
            } else {
                retried_or_ended(cfg, s, LoopError::Connection)
            }
        },
        (Phase::Bootstrapping, Awaiting::DeployReceipt, Event::DeployUnconfirmed) => ended(
            s,
            Phase::Terminated { cause: LoopError::DeploymentUnconfirmed },
        ),
        (Phase::Bootstrapping, Awaiting::AddressStored, Event::AddressStored) => {
            if s.stop_requested {
                ended(s, Phase::Stopped)
            } else {
                (
                    LoopState {
                        phase: Phase::Registering,
                        awaiting: Awaiting::RegisterReceipt,
                        failures: 0,
                        ..s
                    },
                    Action::Submit {
                        request: TransactionRequest::Register { position: cfg.position },
                    },
                )
            }
        },
        (Phase::Bootstrapping, Awaiting::AddressStored, Event::AddressStoreFailed) => ended(
            s,
            Phase::Terminated { cause: LoopError::StoreFailed },
        ),
        (Phase::Bootstrapping, Awaiting::Timer, Event::TimerElapsed) => (
            LoopState { awaiting: Awaiting::DeploymentCode, ..s },
            Action::LoadCode,
        ),
        (Phase::Registering, Awaiting::RegisterReceipt, Event::CallConfirmed { receipt }) => {
            let done = LoopState { registered: true, failures: 0, ..s };
            if !receipt.succeeded {
                ended(
                    s,
                    Phase::Terminated {
                        cause: LoopError::CallReverted { transaction: receipt.transaction },
                    },
                )
            } else if s.stop_requested {
                ended(done, Phase::Stopped)
            } else {
                (
                    LoopState {
                        phase: Phase::Monitoring,
                        awaiting: Awaiting::BalanceResponse,
                        ..done
                    },
                    Action::FetchBalance,
                )
            }
        },
        (Phase::Registering, Awaiting::RegisterReceipt, Event::CallFailed { failure }) => {
            call_failed_spec(cfg, s, failure)
        },
        (Phase::Registering, Awaiting::Timer, Event::TimerElapsed) => (
            LoopState { awaiting: Awaiting::RegisterReceipt, ..s },
            Action::Submit { request: TransactionRequest::Register { position: cfg.position } },
        ),
        (Phase::Monitoring, Awaiting::BalanceResponse, Event::BalanceFetched { reading }) => {
            let taken = LoopState { last_reading: Some(reading), failures: 0, ..s };
            match cfg.threshold.request_for(reading) {
                Some(request) => (
                    LoopState {
                        phase: Phase::Triggering,
                        awaiting: Awaiting::SwapReceipt,
                        ..taken
                    },
                    Action::Submit { request },
                ),
                None => (
                    LoopState { awaiting: Awaiting::Timer, ..taken },
                    Action::Sleep { seconds: cfg.poll_interval_seconds },
                ),
            }
        },
        (Phase::Monitoring, Awaiting::BalanceResponse, Event::BalanceFetchFailed { error }) => {
            poll_retried(cfg, s)
        },
        (Phase::Monitoring, Awaiting::Timer, Event::TimerElapsed) => (
            LoopState { awaiting: Awaiting::BalanceResponse, ..s },
            Action::FetchBalance,
        ),
        (Phase::Triggering, Awaiting::SwapReceipt, Event::CallConfirmed { receipt }) => {
            let done = LoopState { last_swap: Some(receipt.transaction), failures: 0, ..s };
            if !receipt.succeeded {
                ended(
                    s,
                    Phase::Terminated {
                        cause: LoopError::CallReverted { transaction: receipt.transaction },
                    },
                )
            } else if s.stop_requested {
                ended(done, Phase::Stopped)
            } else {
                (
                    LoopState { phase: Phase::Monitoring, awaiting: Awaiting::Timer, ..done },
                    Action::Sleep { seconds: cfg.poll_interval_seconds },
                )
            }
        },
        (Phase::Triggering, Awaiting::SwapReceipt, Event::CallFailed { failure }) => {
            call_failed_spec(cfg, s, failure)
        },
        (Phase::Triggering, Awaiting::Timer, Event::TimerElapsed) => (
            LoopState { awaiting: Awaiting::SwapReceipt, ..s },
            Action::Submit { request: s.swap_request(cfg) },
        ),
        _ => (s, Action::Idle),
    }
}

impl LoopState {
    /// The state a loop starts in.
    pub fn new() -> (state: LoopState)
        ensures
            state == LoopState::initial(),
    {
        LoopState {
            phase: Phase::Bootstrapping,
            awaiting: Awaiting::AddressRecord,
            address: None,
            registered: false,
            last_reading: None,
            last_swap: None,
            failures: 0,
            stop_requested: false,
        }
    }

    /// Whether the loop has ended.
    pub fn has_ended(&self) -> (ended: bool)
        ensures
            ended == self.is_final(),
    {
        match self.phase {
            Phase::Terminated { .. } => true,
            Phase::Stopped => true,
            _ => false,
        }
    }

    /// The error the loop terminated on, if it did.
    pub fn cause(&self) -> (cause: Option<&LoopError>)
        ensures
            match self.phase {
                Phase::Terminated { cause: error } => cause == Some(&error),
                _ => cause is None,
            },
    {
        match &self.phase {
            Phase::Terminated { cause } => Some(cause),
            _ => None,
        }
    }
}

/// Starts a loop: the first thing to do is to read the stored address
/// record. This is the only time the record is read.
pub fn start(cfg: &LoopConfig) -> (begun: (LoopState, Action))
    ensures
        begun.0 == LoopState::initial(),
        begun.0.wf(*cfg),
        begun.1 == Action::LoadAddress,
{
    (LoopState::new(), Action::LoadAddress)
}

fn finish(s: LoopState, phase: Phase) -> (out: (LoopState, Action))
    ensures
        out == ended(s, phase),
{
    (LoopState { phase, awaiting: Awaiting::Nothing, failures: 0, ..s }, Action::Halt)
}

fn verdict_after_failure(cfg: &LoopConfig, s: &LoopState) -> (verdict: RetryDecision)
    ensures
        verdict == decision(cfg.retry, (s.failures + 1) as nat),
{
    if s.failures == u32::MAX {
        RetryDecision::GiveUp
    } else {
        cfg.retry.decide(s.failures + 1)
    }
}

fn retry_or_finish(cfg: &LoopConfig, s: LoopState, cause: LoopError) -> (out: (LoopState, Action))
    ensures
        out == retried_or_ended(*cfg, s, cause),
{
    match verdict_after_failure(cfg, &s) {
        RetryDecision::RetryAfter { seconds } => (
            LoopState { awaiting: Awaiting::Timer, failures: s.failures + 1, ..s },
            Action::Sleep { seconds },
        ),
        RetryDecision::GiveUp => finish(s, Phase::Terminated { cause }),
    }
}

fn retry_poll(cfg: &LoopConfig, s: LoopState) -> (out: (LoopState, Action))
    ensures
        out == poll_retried(*cfg, s),
{
    match verdict_after_failure(cfg, &s) {
        RetryDecision::RetryAfter { seconds } => (
            LoopState { awaiting: Awaiting::Timer, failures: s.failures + 1, ..s },
            Action::Sleep { seconds },
        ),
        RetryDecision::GiveUp => (
            LoopState { awaiting: Awaiting::Timer, failures: 0, ..s },
            Action::Sleep { seconds: cfg.poll_interval_seconds },
        ),
    }
}

fn swap_payload(cfg: &LoopConfig, s: &LoopState) -> (request: TransactionRequest)
    ensures
        request == s.swap_request(*cfg),
{
    TransactionRequest::Swap {
        shortfall: match s.last_reading {
            Some(reading) => cfg.threshold.missing(&reading),
            None => 0,
        },
    }
}

fn deployed(receipt: &TransactionReceipt) -> (address: Option<ContractAddress>)
    ensures
        address == deployed_at(*receipt),
{
    if receipt.succeeded {
        receipt.contract_address
    } else {
        None
    }
}

fn call_failed(cfg: &LoopConfig, s: LoopState, failure: CallFailure) -> (out: (LoopState, Action))
    ensures
        out == call_failed_spec(*cfg, s, failure),
{
    match failure.class {
        FailureClass::Transport => if s.stop_requested {
            finish(s, Phase::Stopped)
        } else {
            retry_or_finish(cfg, s, LoopError::CallFailed { failure })
        },
        _ => finish(s, Phase::Terminated { cause: LoopError::CallFailed { failure } }),
    }
}

/// Moves the loop on by one event: the state that follows, and what the
/// driver is to do next. Every state and every event is taken; what the state
/// does not wait for leaves it as it is and asks for nothing.
pub fn step(cfg: &LoopConfig, s: LoopState, e: Event) -> (out: (LoopState, Action))
    ensures
        out == step_spec(*cfg, s, e),
        s.wf(*cfg) ==> out.0.wf(*cfg),
{
    proof {
        if s.wf(*cfg) {
            lemma_step_keeps_wf(*cfg, s, e);
        }
    }
    match (&s.phase, s.awaiting, e) {
        (Phase::Terminated { .. }, _, _) => (s, Action::Halt),
        (Phase::Stopped, _, _) => (s, Action::Halt),
        (_, _, Event::ShutdownRequested) => {
            if s.awaiting.commitment() {
                (LoopState { stop_requested: true, ..s }, Action::Idle)
            } else {
                finish(s, Phase::Stopped)
            }
        },
        (Phase::Bootstrapping, Awaiting::AddressRecord, Event::AddressRecord { record }) => {
            match record {
                PersistedRecord::Found { address } => (
                    LoopState {
                        phase: Phase::Monitoring,
                        awaiting: Awaiting::BalanceResponse,
                        address: Some(address),
                        registered: true,
                        failures: 0,
                        ..s
                    },
                    Action::FetchBalance,
                ),
                PersistedRecord::Absent => (
                    LoopState { awaiting: Awaiting::DeploymentCode, failures: 0, ..s },
                    Action::LoadCode,
                ),
                PersistedRecord::Unreadable => finish(
                    s,
                    Phase::Terminated { cause: LoopError::RecordUnreadable },
                ),
            }
        },
        (Phase::Bootstrapping, Awaiting::DeploymentCode, Event::CodeLoaded { code }) => (
            LoopState { awaiting: Awaiting::DeployReceipt, ..s },
            Action::Submit { request: TransactionRequest::Deploy { code } },
        ),
        (Phase::Bootstrapping, Awaiting::DeploymentCode, Event::CodeUnreadable) => finish(
            s,
            Phase::Terminated { cause: LoopError::CodeUnreadable },
        ),
        (Phase::Bootstrapping, Awaiting::DeployReceipt, Event::DeployConfirmed { receipt }) => {
            match deployed(&receipt) {
                Some(address) => (
                    LoopState {
                        awaiting: Awaiting::AddressStored,
                        address: Some(address),
                        failures: 0,
                        ..s
                    },
                    Action::StoreAddress { address },
                ),
                None => finish(s, Phase::Terminated { cause: LoopError::DeploymentFailed }),
            }
        },
        (Phase::Bootstrapping, Awaiting::DeployReceipt, Event::DeployUnreachable) => {
            if s.stop_requested {
                finish(s, Phase::Stopped)
            } else {
                retry_or_finish(cfg, s, LoopError::Connection)
            }
        },
        (Phase::Bootstrapping, Awaiting::DeployReceipt, Event::DeployUnconfirmed) => finish(
            s,
            Phase::Terminated { cause: LoopError::DeploymentUnconfirmed },
        ),
        (Phase::Bootstrapping, Awaiting::AddressStored, Event::AddressStored) => {
            if s.stop_requested {
                finish(s, Phase::Stopped)
            } else {
                (
                    LoopState {
                        phase: Phase::Registering,
                        awaiting: Awaiting::RegisterReceipt,
                        failures: 0,
                        ..s
                    },
                    Action::Submit {
                        request: TransactionRequest::Register { position: cfg.position },
                    },
                )
            }
        },
        (Phase::Bootstrapping, Awaiting::AddressStored, Event::AddressStoreFailed) => finish(
            s,
            Phase::Terminated { cause: LoopError::StoreFailed },
        ),
        (Phase::Bootstrapping, Awaiting::Timer, Event::TimerElapsed) => (
            LoopState { awaiting: Awaiting::DeploymentCode, ..s },
            Action::LoadCode,
        ),
        (Phase::Registering, Awaiting::RegisterReceipt, Event::CallConfirmed { receipt }) => {
            if !receipt.succeeded {
                return finish(
                    s,
                    Phase::Terminated {
                        cause: LoopError::CallReverted { transaction: receipt.transaction },
                    },
                );
            }
            let stop = s.stop_requested;
            let done = LoopState { registered: true, failures: 0, ..s };
            if stop {
                finish(done, Phase::Stopped)
            } else {
                (
                    LoopState {
                        phase: Phase::Monitoring,
                        awaiting: Awaiting::BalanceResponse,
                        ..done
                    },
                    Action::FetchBalance,
                )
            }
        },
        (Phase::Registering, Awaiting::RegisterReceipt, Event::CallFailed { failure }) => {
            call_failed(cfg, s, failure)
        },
        (Phase::Registering, Awaiting::Timer, Event::TimerElapsed) => (
            LoopState { awaiting: Awaiting::RegisterReceipt, ..s },
            Action::Submit { request: TransactionRequest::Register { position: cfg.position } },
        ),
        (Phase::Monitoring, Awaiting::BalanceResponse, Event::BalanceFetched { reading }) => {
            let taken = LoopState { last_reading: Some(reading), failures: 0, ..s };
            match cfg.threshold.trigger(&reading) {
                Some(request) => (
                    LoopState {
                        phase: Phase::Triggering,
                        awaiting: Awaiting::SwapReceipt,
                        ..taken
                    },
                    Action::Submit { request },
                ),
                None => (
                    LoopState { awaiting: Awaiting::Timer, ..taken },
                    Action::Sleep { seconds: cfg.poll_interval_seconds },
                ),
            }
        },
        (Phase::Monitoring, Awaiting::BalanceResponse, Event::BalanceFetchFailed { .. }) => {
            retry_poll(cfg, s)
        },
        (Phase::Monitoring, Awaiting::Timer, Event::TimerElapsed) => (
            LoopState { awaiting: Awaiting::BalanceResponse, ..s },
            Action::FetchBalance,
        ),
        (Phase::Triggering, Awaiting::SwapReceipt, Event::CallConfirmed { receipt }) => {
            if !receipt.succeeded {
                return finish(
                    s,
                    Phase::Terminated {
                        cause: LoopError::CallReverted { transaction: receipt.transaction },
                    },
                );
            }
            let stop = s.stop_requested;
            let done = LoopState { last_swap: Some(receipt.transaction), failures: 0, ..s };
            if stop {
                finish(done, Phase::Stopped)
            } else {
                (
                    LoopState { phase: Phase::Monitoring, awaiting: Awaiting::Timer, ..done },
                    Action::Sleep { seconds: cfg.poll_interval_seconds },
                )
            }
        },
        (Phase::Triggering, Awaiting::SwapReceipt, Event::CallFailed { failure }) => {
            call_failed(cfg, s, failure)
        },
        (Phase::Triggering, Awaiting::Timer, Event::TimerElapsed) => {
            let request = swap_payload(cfg, &s);
            (LoopState { awaiting: Awaiting::SwapReceipt, ..s }, Action::Submit { request })
        },
        _ => (s, Action::Idle),
    }
}

/// A step leads from a state the loop can be in to another such state.
pub proof fn lemma_step_keeps_wf(cfg: LoopConfig, s: LoopState, e: Event)
    requires
        s.wf(cfg),
    ensures
        step_spec(cfg, s, e).0.wf(cfg),
{
}

} // verus!
