//! The timelock: operations scheduled by the governor, executable only once
//! a mandatory delay has passed.
use vstd::prelude::*;
use std::collections::HashMap;
use crate::account::AccountId;

verus! {

broadcast use vstd::std_specs::hash::group_hash_axioms;

/// Where a scheduled operation stands.
#[derive(Debug, Clone, Copy, PartialEq, Eq, Structural)]
pub enum OperationState {
    Pending,
    Ready,
    Done,
    Cancelled,
}

/// An operation scheduled for execution.
pub struct Operation {
    pub id: u64,
    pub target: AccountId,
    pub function_name: Vec<u8>,
    pub eta_ledger: u32,
    pub state: OperationState,
    pub proposer: AccountId,
}

/// The parameters fixed when the timelock is initialized.
pub struct TimelockConfig {
    pub governor: AccountId,
    pub min_delay_ledgers: u32,
}

/// Why the timelock refuses a call.
#[derive(Debug, Clone, Copy, PartialEq, Eq, Structural)]
pub enum TimelockError {
    AlreadyInitialized,
    /// A minimum delay below 100 ledgers.
    MinDelayTooShort,
    NotInitialized,
    /// A delay below the minimum delay.
    DelayTooShort,
    /// The counter or the ETA would leave its integer type.
    Overflow,
    OperationNotFound,
    NotPending,
    NotReady,
}

/// The shortest minimum delay the timelock accepts, in ledgers.
pub const MIN_DELAY_FLOOR: u32 = 100;

/// The contents of the timelock's storage.
pub struct TimelockState {
    pub config: Option<TimelockConfig>,
    pub counter: u64,
    pub operations: Map<u64, Operation>,
}

/// Storage before the timelock is initialized.
pub open spec fn empty_timelock() -> TimelockState {
    TimelockState { config: None, counter: 0, operations: Map::empty() }
}

/// `initialize` records the governor and a minimum delay of at least 100
/// ledgers, once.
pub open spec fn initialize_spec(s: TimelockState, config: TimelockConfig) -> Result<
    TimelockState,
    TimelockError,
> {
    if s.config is Some {
        Err(TimelockError::AlreadyInitialized)
    } else if config.min_delay_ledgers < MIN_DELAY_FLOOR {
        Err(TimelockError::MinDelayTooShort)
    } else {
        Ok(TimelockState { config: Some(config), counter: 0, ..s })
    }
}

/// `schedule` stores a pending operation under the next identifier, due
/// `delay_ledgers` after the current ledger; the delay must reach the
/// minimum delay.
pub open spec fn schedule_spec(
    s: TimelockState,
    target: AccountId,
    function_name: Vec<u8>,
    delay_ledgers: u32,
    proposer: AccountId,
    current_ledger: u32,
) -> Result<(TimelockState, u64), TimelockError> {
    match s.config {
        None => Err(TimelockError::NotInitialized),
        Some(c) => {
            let id = s.counter + 1;
            let eta = current_ledger + delay_ledgers;
            if delay_ledgers < c.min_delay_ledgers {
                Err(TimelockError::DelayTooShort)
            } else if id > u64::MAX || eta > u32::MAX {
                Err(TimelockError::Overflow)
            } else {
                let op = Operation {
                    id: id as u64,
                    target,
                    function_name,
                    eta_ledger: eta as u32,
                    state: OperationState::Pending,
                    proposer,
                };
                Ok(
                    (
                        TimelockState {
                            counter: id as u64,
                            operations: s.operations.insert(id as u64, op),
                            ..s
                        },
                        id as u64,
                    ),
                )
            }
        },
    }
}

/// `execute` marks a pending operation done once its ETA is reached.
pub open spec fn execute_spec(s: TimelockState, id: u64, current_ledger: u32) -> Result<
    TimelockState,
    TimelockError,
> {
    if !s.operations.contains_key(id) {
        Err(TimelockError::OperationNotFound)
    } else {
        let op = s.operations[id];
        if op.state != OperationState::Pending {
            Err(TimelockError::NotPending)
        } else if current_ledger < op.eta_ledger {
            Err(TimelockError::NotReady)
        } else {
            Ok(
                TimelockState {
                    operations: s.operations.insert(id, Operation { state: OperationState::Done, ..op }),
                    ..s
                },
            )
        }
    }
}

/// `cancel` withdraws a pending operation.
pub open spec fn cancel_spec(s: TimelockState, id: u64) -> Result<TimelockState, TimelockError> {
    if s.config is None {
        Err(TimelockError::NotInitialized)
    } else if !s.operations.contains_key(id) {
        Err(TimelockError::OperationNotFound)
    } else {
        let op = s.operations[id];
        if op.state != OperationState::Pending {
            Err(TimelockError::NotPending)
        } else {
            Ok(
                TimelockState {
                    operations: s.operations.insert(
                        id,
                        Operation { state: OperationState::Cancelled, ..op },
                    ),
                    ..s
                },
            )
        }
    }
}

/// An operation is ready when it is pending and its ETA has been reached.
pub open spec fn ready(op: Operation, current_ledger: u32) -> bool {
    op.state == OperationState::Pending && current_ledger >= op.eta_ledger
}

/// The moves an operation's state may make in one call: none, execution or
/// cancellation of a pending operation.
pub open spec fn allowed_move(a: OperationState, b: OperationState) -> bool {
    ||| a == b
    ||| a == OperationState::Pending && (b == OperationState::Done || b == OperationState::Cancelled)
}

/// From `s` to `t`, every stored operation stays stored with the same target,
/// call and ETA, and moves only as allowed; new operations start pending.
pub open spec fn operation_step(s: TimelockState, t: TimelockState) -> bool {
    &&& forall|id: u64| #[trigger]
        s.operations.contains_key(id) ==> {
            &&& t.operations.contains_key(id)
            &&& allowed_move(s.operations[id].state, t.operations[id].state)
            &&& t.operations[id].eta_ledger == s.operations[id].eta_ledger
            &&& t.operations[id].target == s.operations[id].target
            &&& t.operations[id].function_name == s.operations[id].function_name
        }
    &&& forall|id: u64| #[trigger]
        t.operations.contains_key(id) && !s.operations.contains_key(id) ==> t.operations[id].state
            == OperationState::Pending
}

/// The counter bounds every stored identifier, nothing is stored before
/// initialization, and the minimum delay is at least 100 ledgers.
pub open spec fn timelock_inv(s: TimelockState) -> bool {
    &&& forall|id: u64| #[trigger] s.operations.contains_key(id) ==> 1 <= id <= s.counter
    &&& s.config matches Some(c) ==> c.min_delay_ledgers >= MIN_DELAY_FLOOR
    &&& s.config is None ==> s.counter == 0 && s.operations.dom().is_empty()
}

/// The empty storage meets the invariant.
pub proof fn law_empty_timelock_inv()
    ensures
        timelock_inv(empty_timelock()),
{
}

/// Initialization keeps the invariant: in particular the minimum delay it
/// records is at least 100 ledgers.
pub proof fn law_initialize_keeps_inv(s: TimelockState, config: TimelockConfig)
    requires
        timelock_inv(s),
    ensures
        initialize_spec(s, config) matches Ok(t) ==> timelock_inv(t) && operation_step(s, t)
            && config.min_delay_ledgers >= MIN_DELAY_FLOOR,
{
}

/// Scheduling stores a fresh pending operation, one above the last
/// identifier, and changes no stored one.
pub proof fn law_schedule_keeps_inv(
    s: TimelockState,
    target: AccountId,
    function_name: Vec<u8>,
    delay_ledgers: u32,
    proposer: AccountId,
    current_ledger: u32,
)
    requires
        timelock_inv(s),
    ensures
        schedule_spec(s, target, function_name, delay_ledgers, proposer, current_ledger) matches Ok((t, id)) ==> {
            &&& id == s.counter + 1
            &&& !s.operations.contains_key(id)
            &&& timelock_inv(t)
            &&& operation_step(s, t)
            &&& forall|k: u64| #[trigger] s.operations.contains_key(k) ==> t.operations[k] == s.operations[k]
        },
{
}

/// Execution keeps the invariant and only completes a ready operation.
pub proof fn law_execute_keeps_inv(s: TimelockState, id: u64, current_ledger: u32)
    requires
        timelock_inv(s),
    ensures
        execute_spec(s, id, current_ledger) matches Ok(t) ==> timelock_inv(t) && operation_step(s, t)
            && ready(s.operations[id], current_ledger),
{
}

/// Cancellation keeps the invariant and only withdraws a pending operation.
pub proof fn law_cancel_keeps_inv(s: TimelockState, id: u64)
    requires
        timelock_inv(s),
    ensures
        cancel_spec(s, id) matches Ok(t) ==> timelock_inv(t) && operation_step(s, t),
{
}

/// Scheduling an operation of an initialized timelock is refused as too
/// short exactly when its delay is below the configured minimum delay; a
/// scheduled operation is pending, calls what was asked, and is due its
/// delay after the current ledger.
pub proof fn law_schedule_respects_min_delay(
    s: TimelockState,
    target: AccountId,
    function_name: Vec<u8>,
    delay_ledgers: u32,
    proposer: AccountId,
    current_ledger: u32,
)
    ensures
        s.config is Some ==> (schedule_spec(s, target, function_name, delay_ledgers, proposer, current_ledger)
            == Err::<(TimelockState, u64), TimelockError>(TimelockError::DelayTooShort) <==> delay_ledgers
            < s.config->Some_0.min_delay_ledgers),
        schedule_spec(s, target, function_name, delay_ledgers, proposer, current_ledger) matches Ok((t, id)) ==> {
            &&& delay_ledgers >= s.config->Some_0.min_delay_ledgers
            &&& t.operations.contains_key(id)
            &&& t.operations[id].state == OperationState::Pending
            &&& t.operations[id].eta_ledger == current_ledger + delay_ledgers
            &&& t.operations[id].target == target
            &&& t.operations[id].function_name == function_name
            &&& t.operations[id].proposer == proposer
        },
{
}

/// Executing succeeds exactly on a pending operation whose ETA has been
/// reached, at that ledger or any later one, and then leaves it done with
/// everything else about it, and every other operation, as it was.
pub proof fn law_execute_completes(s: TimelockState, id: u64, current_ledger: u32)
    ensures
        execute_spec(s, id, current_ledger) is Ok <==> (s.operations.contains_key(id) && s.operations[id].state
            == OperationState::Pending && current_ledger >= s.operations[id].eta_ledger),
        execute_spec(s, id, current_ledger) matches Ok(t) ==> {
            &&& t.operations.contains_key(id)
            &&& t.operations[id].state == OperationState::Done
            &&& t.operations[id].eta_ledger == s.operations[id].eta_ledger
            &&& t.operations[id].target == s.operations[id].target
            &&& forall|k: u64| k != id ==> #[trigger] t.operations.get(k) == s.operations.get(k)
        },
{
}

/// Cancelling succeeds exactly on a pending operation of an initialized
/// timelock, and then leaves it cancelled and every other operation as it
/// was.
pub proof fn law_cancel_withdraws(s: TimelockState, id: u64)
    ensures
        cancel_spec(s, id) is Ok <==> (s.config is Some && s.operations.contains_key(id)
            && s.operations[id].state == OperationState::Pending),
        cancel_spec(s, id) matches Ok(t) ==> {
            &&& t.operations.contains_key(id)
            &&& t.operations[id].state == OperationState::Cancelled
            &&& forall|k: u64| k != id ==> #[trigger] t.operations.get(k) == s.operations.get(k)
        },
{
}

/// An operation is ready exactly when executing it would succeed.
pub proof fn law_ready_iff_executable(s: TimelockState, id: u64, current_ledger: u32)
    requires
        s.operations.contains_key(id),
    ensures
        ready(s.operations[id], current_ledger) <==> execute_spec(s, id, current_ledger) is Ok,
{
}

/// The security buffer: an operation scheduled at one ledger can be executed
/// exactly from the ledger its delay later, and that delay is at least the
/// minimum delay, itself at least 100 ledgers.
pub proof fn law_schedule_then_execute(
    s: TimelockState,
    target: AccountId,
    function_name: Vec<u8>,
    delay_ledgers: u32,
    proposer: AccountId,
    scheduled_at: u32,
    executed_at: u32,
)
    requires
        timelock_inv(s),
    ensures
        schedule_spec(s, target, function_name, delay_ledgers, proposer, scheduled_at) matches Ok((t, id)) ==> {
            &&& (execute_spec(t, id, executed_at) is Ok <==> executed_at >= scheduled_at + delay_ledgers)
            &&& delay_ledgers >= MIN_DELAY_FLOOR
        },
{
}

/// The storage of the timelock contract.
pub struct StellarTimelock {
    config: Option<TimelockConfig>,
    counter: u64,
    operations: HashMap<u64, Operation>,
}

impl View for StellarTimelock {
    type V = TimelockState;

    closed spec fn view(&self) -> TimelockState {
        TimelockState { config: self.config, counter: self.counter, operations: self.operations@ }
    }
}

impl StellarTimelock {
    /// Storage in which nothing has been written.
    pub fn new() -> (t: StellarTimelock)
        ensures
            t@ == empty_timelock(),
    {
        StellarTimelock { config: None, counter: 0, operations: HashMap::new() }
    }

    /// Storage holding the given parameters and counter, and no operation.
    pub fn from_parts(config: Option<TimelockConfig>, counter: u64) -> (t: StellarTimelock)
        ensures
            t@ == (TimelockState { config, counter, operations: Map::empty() }),
    {
        StellarTimelock { config, counter, operations: HashMap::new() }
    }

    /// Adds a stored operation under `id`.
    pub fn load_operation(&mut self, id: u64, op: Operation)
        ensures
            final(self)@ == (TimelockState { operations: old(self)@.operations.insert(id, op), ..old(self)@ }),
    {
        self.operations.insert(id, op);
    }

    /// The governor, who alone may schedule and cancel.
    pub fn governor(&self) -> (g: Option<&AccountId>)
        ensures
            match g {
                Some(a) => self@.config matches Some(c) && *a == c.governor,
                None => self@.config is None,
            },
    {
        match &self.config {
            Some(c) => Some(&c.governor),
            None => None,
        }
    }

    /// Records the governor and the minimum delay in ledgers.
    pub fn initialize(&mut self, governor: AccountId, min_delay_ledgers: u32) -> (r: Result<(), TimelockError>)
        ensures
            match initialize_spec(old(self)@, TimelockConfig { governor, min_delay_ledgers }) {
                Ok(next) => r is Ok && final(self)@ == next,
                Err(e) => r == Err::<(), TimelockError>(e) && final(self)@ == old(self)@,
            },
    {
        if self.config.is_some() {
            return Err(TimelockError::AlreadyInitialized);
        }
        if min_delay_ledgers < MIN_DELAY_FLOOR {
            return Err(TimelockError::MinDelayTooShort);
        }
        self.config = Some(TimelockConfig { governor, min_delay_ledgers });
        self.counter = 0;
        Ok(())
    }

    /// Schedules a call of `function_name` on `target` at ledger
    /// `current_ledger`, due `delay_ledgers` later, and returns its
    /// identifier.
    pub fn schedule(
        &mut self,
        target: AccountId,
        function_name: Vec<u8>,
        delay_ledgers: u32,
        proposer: AccountId,
        current_ledger: u32,
    ) -> (r: Result<u64, TimelockError>)
        ensures
            match schedule_spec(old(self)@, target, function_name, delay_ledgers, proposer, current_ledger) {
                Ok((next, id)) => r == Ok::<u64, TimelockError>(id) && final(self)@ == next,
                Err(e) => r == Err::<u64, TimelockError>(e) && final(self)@ == old(self)@,
            },
    {
        let min_delay = match &self.config {
            None => return Err(TimelockError::NotInitialized),
            Some(c) => c.min_delay_ledgers,
        };
        if delay_ledgers < min_delay {
            return Err(TimelockError::DelayTooShort);
        }
        let id = match self.counter.checked_add(1) {
            Some(v) => v,
            None => return Err(TimelockError::Overflow),
        };
        let eta = match current_ledger.checked_add(delay_ledgers) {
            Some(v) => v,
            None => return Err(TimelockError::Overflow),
        };
        let op = Operation {
            id,
            target,
            function_name,
            eta_ledger: eta,
            state: OperationState::Pending,
            proposer,
        };
        self.counter = id;
        self.operations.insert(id, op);
        Ok(id)
    }

    /// Marks operation `operation_id` done at ledger `current_ledger`.
    pub fn execute(&mut self, operation_id: u64, current_ledger: u32) -> (r: Result<(), TimelockError>)
        ensures
            match execute_spec(old(self)@, operation_id, current_ledger) {
                Ok(next) => r is Ok && final(self)@ == next,
                Err(e) => r == Err::<(), TimelockError>(e) && final(self)@ == old(self)@,
            },
    {
        match self.operations.get(&operation_id) {
            None => return Err(TimelockError::OperationNotFound),
            Some(op) => {
                if op.state != OperationState::Pending {
                    return Err(TimelockError::NotPending);
                }
                if current_ledger < op.eta_ledger {
                    return Err(TimelockError::NotReady);
                }
            },
        }
        self.set_state(operation_id, OperationState::Done);
        Ok(())
    }

    /// Cancels pending operation `operation_id`.
    pub fn cancel(&mut self, operation_id: u64) -> (r: Result<(), TimelockError>)
        ensures
            match cancel_spec(old(self)@, operation_id) {
                Ok(next) => r is Ok && final(self)@ == next,
                Err(e) => r == Err::<(), TimelockError>(e) && final(self)@ == old(self)@,
            },
    {
        if self.config.is_none() {
            return Err(TimelockError::NotInitialized);
        }
        match self.operations.get(&operation_id) {
            None => return Err(TimelockError::OperationNotFound),
            Some(op) => {
                if op.state != OperationState::Pending {
                    return Err(TimelockError::NotPending);
                }
            },
        }
        self.set_state(operation_id, OperationState::Cancelled);
        Ok(())
    }

    /// Sets the state of stored operation `operation_id`.
    fn set_state(&mut self, operation_id: u64, st: OperationState)
        requires
            old(self)@.operations.contains_key(operation_id),
        ensures
            final(self)@ == (TimelockState {
                operations: old(self)@.operations.insert(
                    operation_id,
                    Operation { state: st, ..old(self)@.operations[operation_id] },
                ),
                ..old(self)@
            }),
    {
        match self.operations.remove(&operation_id) {
            Some(op) => {
                let mut op = op;
                op.state = st;
                self.operations.insert(operation_id, op);
                proof {
                    assert(self.operations@ =~= old(self).operations@.insert(
                        operation_id,
                        Operation { state: st, ..old(self).operations@[operation_id] },
                    ));
                }
            },
            None => {},
        }
    }

    /// Operation `id`.
    pub fn get_operation(&self, id: u64) -> (r: Result<&Operation, TimelockError>)
        ensures
            match r {
                Ok(op) => self@.operations.contains_key(id) && *op == self@.operations[id],
                Err(e) => !self@.operations.contains_key(id) && e == TimelockError::OperationNotFound,
            },
    {
        match self.operations.get(&id) {
            Some(op) => Ok(op),
            None => Err(TimelockError::OperationNotFound),
        }
    }

    /// Whether operation `id` can be executed at ledger `current_ledger`.
    pub fn is_ready(&self, id: u64, current_ledger: u32) -> (r: Result<bool, TimelockError>)
        ensures
            match r {
                Ok(b) => self@.operations.contains_key(id) && b == ready(self@.operations[id], current_ledger),
                Err(e) => !self@.operations.contains_key(id) && e == TimelockError::OperationNotFound,
            },
    {
        match self.operations.get(&id) {
            Some(op) => Ok(op.state == OperationState::Pending && current_ledger >= op.eta_ledger),
            None => Err(TimelockError::OperationNotFound),
        }
    }
}

} // verus!
