//! The treasury: per-asset balances, allocations approved through the
//! timelock, and streaming allowances.
use vstd::prelude::*;
use std::collections::HashMap;
use crate::account::{AccountId, AccountMap};
use crate::voting_token::balance_in;

verus! {

broadcast use vstd::std_specs::hash::group_hash_axioms;

/// A governance-approved payment out of the treasury.
pub struct Allocation {
    pub recipient: AccountId,
    pub asset: AccountId,
    pub amount: i128,
    pub description: Vec<u8>,
    pub executed: bool,
}

/// The parties fixed when the treasury is initialized.
pub struct TreasuryConfig {
    pub governor: AccountId,
    pub timelock: AccountId,
}

/// Why the treasury refuses a call.
#[derive(Debug, Clone, Copy, PartialEq, Eq, Structural)]
pub enum TreasuryError {
    AlreadyInitialized,
    NotInitialized,
    /// An amount of zero or less.
    NonPositiveAmount,
    /// An allocation larger than the asset's balance.
    InsufficientTreasuryBalance,
    /// A balance or the counter would leave its integer type.
    Overflow,
    AllocationNotFound,
    AlreadyExecuted,
    /// An execution larger than the asset's balance.
    InsufficientBalance,
}

/// The contents of the treasury's storage.
pub struct TreasuryState {
    pub config: Option<TreasuryConfig>,
    pub counter: u64,
    pub allocations: Map<u64, Allocation>,
    pub balances: Map<Seq<u8>, i128>,
    pub stream_allowances: Map<Seq<u8>, i128>,
}

/// Storage before the treasury is initialized.
pub open spec fn empty_treasury() -> TreasuryState {
    TreasuryState {
        config: None,
        counter: 0,
        allocations: Map::empty(),
        balances: Map::empty(),
        stream_allowances: Map::empty(),
    }
}

/// `initialize` records the governor and the timelock, once.
pub open spec fn initialize_spec(s: TreasuryState, config: TreasuryConfig) -> Result<
    TreasuryState,
    TreasuryError,
> {
    if s.config is Some {
        Err(TreasuryError::AlreadyInitialized)
    } else {
        Ok(TreasuryState { config: Some(config), counter: 0, ..s })
    }
}

/// `record_deposit` adds a positive amount to the asset's balance.
pub open spec fn record_deposit_spec(s: TreasuryState, asset: Seq<u8>, amount: i128) -> Result<
    TreasuryState,
    TreasuryError,
> {
    let new_balance = balance_in(s.balances, asset) + amount;
    if amount <= 0 {
        Err(TreasuryError::NonPositiveAmount)
    } else if new_balance > i128::MAX {
        Err(TreasuryError::Overflow)
    } else {
        Ok(TreasuryState { balances: s.balances.insert(asset, new_balance as i128), ..s })
    }
}

/// `create_allocation` stores an unexecuted allocation under the next
/// identifier, when the asset's balance covers it.
pub open spec fn create_allocation_spec(
    s: TreasuryState,
    recipient: AccountId,
    asset: AccountId,
    amount: i128,
    description: Vec<u8>,
) -> Result<(TreasuryState, u64), TreasuryError> {
    let id = s.counter + 1;
    if s.config is None {
        Err(TreasuryError::NotInitialized)
    } else if amount <= 0 {
        Err(TreasuryError::NonPositiveAmount)
    } else if balance_in(s.balances, asset@) < amount {
        Err(TreasuryError::InsufficientTreasuryBalance)
    } else if id > u64::MAX {
        Err(TreasuryError::Overflow)
    } else {
        let a = Allocation { recipient, asset, amount, description, executed: false };
        Ok(
            (
                TreasuryState {
                    counter: id as u64,
                    allocations: s.allocations.insert(id as u64, a),
                    ..s
                },
                id as u64,
            ),
        )
    }
}

/// `execute_allocation` pays out an unexecuted allocation: it debits the
/// asset's balance by the amount and marks the allocation executed.
pub open spec fn execute_allocation_spec(s: TreasuryState, id: u64) -> Result<TreasuryState, TreasuryError> {
    if !s.allocations.contains_key(id) {
        Err(TreasuryError::AllocationNotFound)
    } else {
        let a = s.allocations[id];
        let balance = balance_in(s.balances, a.asset@);
        if a.executed {
            Err(TreasuryError::AlreadyExecuted)
        } else if balance < a.amount {
            Err(TreasuryError::InsufficientBalance)
        } else if balance - a.amount > i128::MAX {
            Err(TreasuryError::Overflow)
        } else {
            Ok(
                TreasuryState {
                    balances: s.balances.insert(a.asset@, (balance - a.amount) as i128),
                    allocations: s.allocations.insert(id, Allocation { executed: true, ..a }),
                    ..s
                },
            )
        }
    }
}

/// `set_stream_allowance` records the monthly allowance of a recipient.
pub open spec fn set_stream_allowance_spec(s: TreasuryState, recipient: Seq<u8>, monthly_amount: i128) -> Result<
    TreasuryState,
    TreasuryError,
> {
    if s.config is None {
        Err(TreasuryError::NotInitialized)
    } else {
        Ok(TreasuryState { stream_allowances: s.stream_allowances.insert(recipient, monthly_amount), ..s })
    }
}

/// Every asset balance is non-negative and every allocation is for a
/// positive amount.
pub open spec fn treasury_inv(s: TreasuryState) -> bool {
    &&& forall|asset: Seq<u8>| #[trigger] s.balances.contains_key(asset) ==> s.balances[asset] >= 0
    &&& forall|id: u64| #[trigger] s.allocations.contains_key(id) ==> s.allocations[id].amount > 0
}

/// The empty storage meets the invariant.
pub proof fn law_empty_treasury_inv()
    ensures
        treasury_inv(empty_treasury()),
{
}

/// Initialization and allowances keep the invariant.
pub proof fn law_initialize_and_allowance_keep_inv(
    s: TreasuryState,
    config: TreasuryConfig,
    recipient: Seq<u8>,
    monthly_amount: i128,
)
    requires
        treasury_inv(s),
    ensures
        initialize_spec(s, config) matches Ok(t) ==> treasury_inv(t),
        set_stream_allowance_spec(s, recipient, monthly_amount) matches Ok(t) ==> treasury_inv(t)
            && t.balances == s.balances && t.allocations == s.allocations,
{
}

/// A deposit credits exactly its amount to its asset, changes no other
/// balance, and keeps the invariant.
pub proof fn law_deposit_credits(s: TreasuryState, asset: Seq<u8>, amount: i128)
    requires
        treasury_inv(s),
    ensures
        record_deposit_spec(s, asset, amount) matches Ok(t) ==> {
            &&& treasury_inv(t)
            &&& balance_in(t.balances, asset) == balance_in(s.balances, asset) + amount
            &&& forall|other: Seq<u8>|
                other != asset ==> #[trigger] balance_in(t.balances, other) == balance_in(s.balances, other)
        },
{
}

/// Creating an allocation moves no funds and keeps the invariant.
pub proof fn law_create_allocation_keeps_inv(
    s: TreasuryState,
    recipient: AccountId,
    asset: AccountId,
    amount: i128,
    description: Vec<u8>,
)
    requires
        treasury_inv(s),
    ensures
        create_allocation_spec(s, recipient, asset, amount, description) matches Ok((t, id)) ==> {
            &&& treasury_inv(t)
            &&& t.balances == s.balances
            &&& !t.allocations[id].executed
        },
{
}

/// Paying out an allocation debits exactly its amount from its asset,
/// never below zero, changes no other balance, and can happen only once.
pub proof fn law_execute_allocation_debits_once(s: TreasuryState, id: u64)
    requires
        treasury_inv(s),
    ensures
        execute_allocation_spec(s, id) matches Ok(t) ==> {
            let a = s.allocations[id];
            &&& treasury_inv(t)
            &&& balance_in(t.balances, a.asset@) == balance_in(s.balances, a.asset@) - a.amount
            &&& forall|other: Seq<u8>|
                other != a.asset@ ==> #[trigger] balance_in(t.balances, other) == balance_in(s.balances, other)
            &&& execute_allocation_spec(t, id) == Err::<TreasuryState, TreasuryError>(
                TreasuryError::AlreadyExecuted,
            )
        },
{
}

/// The storage of the treasury contract.
pub struct StellarTreasury {
    config: Option<TreasuryConfig>,
    counter: u64,
    allocations: HashMap<u64, Allocation>,
    balances: AccountMap<i128>,
    stream_allowances: AccountMap<i128>,
}

impl View for StellarTreasury {
    type V = TreasuryState;

    closed spec fn view(&self) -> TreasuryState {
        TreasuryState {
            config: self.config,
            counter: self.counter,
            allocations: self.allocations@,
            balances: self.balances@,
            stream_allowances: self.stream_allowances@,
        }
    }
}

impl StellarTreasury {
    /// Storage in which nothing has been written.
    pub fn new() -> (t: StellarTreasury)
        ensures
            t@ == empty_treasury(),
    {
        StellarTreasury {
            config: None,
            counter: 0,
            allocations: HashMap::new(),
            balances: AccountMap::new(),
            stream_allowances: AccountMap::new(),
        }
    }

    /// Storage holding the given entries and no allocation.
    pub fn from_parts(
        config: Option<TreasuryConfig>,
        counter: u64,
        balances: AccountMap<i128>,
        stream_allowances: AccountMap<i128>,
    ) -> (t: StellarTreasury)
        ensures
            t@ == (TreasuryState {
                config,
                counter,
                allocations: Map::empty(),
                balances: balances@,
                stream_allowances: stream_allowances@,
            }),
    {
        StellarTreasury { config, counter, allocations: HashMap::new(), balances, stream_allowances }
    }

    /// Adds a stored allocation under `id`.
    pub fn load_allocation(&mut self, id: u64, allocation: Allocation)
        ensures
            final(self)@ == (TreasuryState {
                allocations: old(self)@.allocations.insert(id, allocation),
                ..old(self)@
            }),
    {
        self.allocations.insert(id, allocation);
    }

    /// The timelock, which alone may create allocations and set allowances.
    pub fn timelock(&self) -> (t: Option<&AccountId>)
        ensures
            match t {
                Some(a) => self@.config matches Some(c) && *a == c.timelock,
                None => self@.config is None,
            },
    {
        match &self.config {
            Some(c) => Some(&c.timelock),
            None => None,
        }
    }

    /// Records the governor and the timelock.
    pub fn initialize(&mut self, governor: AccountId, timelock: AccountId) -> (r: Result<(), TreasuryError>)
        ensures
            match initialize_spec(old(self)@, TreasuryConfig { governor, timelock }) {
                Ok(next) => r is Ok && final(self)@ == next,
                Err(e) => r == Err::<(), TreasuryError>(e) && final(self)@ == old(self)@,
            },
    {
        if self.config.is_some() {
            return Err(TreasuryError::AlreadyInitialized);
        }
        self.config = Some(TreasuryConfig { governor, timelock });
        self.counter = 0;
        Ok(())
    }

    /// Records an inbound deposit of `amount` of `asset`.
    pub fn record_deposit(&mut self, asset: &AccountId, amount: i128) -> (r: Result<(), TreasuryError>)
        ensures
            match record_deposit_spec(old(self)@, asset@, amount) {
                Ok(next) => r is Ok && final(self)@ == next,
                Err(e) => r == Err::<(), TreasuryError>(e) && final(self)@ == old(self)@,
            },
    {
        if amount <= 0 {
            return Err(TreasuryError::NonPositiveAmount);
        }
        let new_balance = match self.get_balance(asset).checked_add(amount) {
            Some(v) => v,
            None => return Err(TreasuryError::Overflow),
        };
        self.balances.insert(asset.duplicate(), new_balance);
        Ok(())
    }

    /// Creates an allocation of `amount` of `asset` to `recipient` and
    /// returns its identifier.
    pub fn create_allocation(
        &mut self,
        recipient: AccountId,
        asset: AccountId,
        amount: i128,
        description: Vec<u8>,
    ) -> (r: Result<u64, TreasuryError>)
        ensures
            match create_allocation_spec(old(self)@, recipient, asset, amount, description) {
                Ok((next, id)) => r == Ok::<u64, TreasuryError>(id) && final(self)@ == next,
                Err(e) => r == Err::<u64, TreasuryError>(e) && final(self)@ == old(self)@,
            },
    {
        if self.config.is_none() {
            return Err(TreasuryError::NotInitialized);
        }
        if amount <= 0 {
            return Err(TreasuryError::NonPositiveAmount);
        }
        if self.get_balance(&asset) < amount {
            return Err(TreasuryError::InsufficientTreasuryBalance);
        }
        let id = match self.counter.checked_add(1) {
            Some(v) => v,
            None => return Err(TreasuryError::Overflow),
        };
        self.counter = id;
        self.allocations.insert(id, Allocation { recipient, asset, amount, description, executed: false });
        Ok(id)
    }

    /// Pays out allocation `allocation_id`.
    pub fn execute_allocation(&mut self, allocation_id: u64) -> (r: Result<(), TreasuryError>)
        ensures
            match execute_allocation_spec(old(self)@, allocation_id) {
                Ok(next) => r is Ok && final(self)@ == next,
                Err(e) => r == Err::<(), TreasuryError>(e) && final(self)@ == old(self)@,
            },
    {
        let (asset, amount) = match self.allocations.get(&allocation_id) {
            None => return Err(TreasuryError::AllocationNotFound),
            Some(a) => {
                if a.executed {
                    return Err(TreasuryError::AlreadyExecuted);
                }
                (a.asset.duplicate(), a.amount)
            },
        };
        let balance = self.get_balance(&asset);
        if balance < amount {
            return Err(TreasuryError::InsufficientBalance);
        }
        let remaining = match balance.checked_sub(amount) {
            Some(v) => v,
            None => return Err(TreasuryError::Overflow),
        };
        let mut a = match self.allocations.remove(&allocation_id) {
            Some(a) => a,
            None => return Err(TreasuryError::AllocationNotFound),
        };
        a.executed = true;
        self.allocations.insert(allocation_id, a);
        self.balances.insert(asset, remaining);
        proof {
            assert(self.allocations@ =~= old(self).allocations@.insert(
                allocation_id,
                Allocation { executed: true, ..old(self).allocations@[allocation_id] },
            ));
        }
        Ok(())
    }

    /// Sets the monthly streaming allowance of `recipient`.
    pub fn set_stream_allowance(&mut self, recipient: &AccountId, monthly_amount: i128) -> (r: Result<
        (),
        TreasuryError,
    >)
        ensures
            match set_stream_allowance_spec(old(self)@, recipient@, monthly_amount) {
                Ok(next) => r is Ok && final(self)@ == next,
                Err(e) => r == Err::<(), TreasuryError>(e) && final(self)@ == old(self)@,
            },
    {
        if self.config.is_none() {
            return Err(TreasuryError::NotInitialized);
        }
        self.stream_allowances.insert(recipient.duplicate(), monthly_amount);
        Ok(())
    }

    /// The treasury's balance of `asset`.
    pub fn get_balance(&self, asset: &AccountId) -> (balance: i128)
        ensures
            balance == balance_in(self@.balances, asset@),
    {
        match self.balances.get(asset) {
            Some(b) => *b,
            None => 0,
        }
    }

    /// Allocation `id`.
    pub fn get_allocation(&self, id: u64) -> (r: Result<&Allocation, TreasuryError>)
        ensures
            match r {
                Ok(a) => self@.allocations.contains_key(id) && *a == self@.allocations[id],
                Err(e) => !self@.allocations.contains_key(id) && e == TreasuryError::AllocationNotFound,
            },
    {
        match self.allocations.get(&id) {
            Some(a) => Ok(a),
            None => Err(TreasuryError::AllocationNotFound),
        }
    }
}

} // verus!
