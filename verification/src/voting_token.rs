//! The voting token: balances, minting by an administrator, transfers,
//! delegation of voting power, and balance checkpoints for looking up a
//! balance at a past ledger.
use vstd::prelude::*;
use crate::account::{AccountId, AccountMap};
use crate::checkpoint::{
    accepts_ledger, lemma_past_votes_push, latest_votes, past_votes, Checkpoint, CheckpointList,
};

verus! {

/// Why the token refuses a call.
#[derive(Debug, Clone, Copy, PartialEq, Eq, Structural)]
pub enum TokenError {
    /// No administrator has been recorded yet.
    NotInitialized,
    /// A transfer of zero or fewer tokens.
    NonPositiveAmount,
    /// The sender holds fewer tokens than it sends.
    InsufficientBalance,
    /// A balance, a voting power or the supply would leave the range of
    /// `i128`.
    Overflow,
    /// A checkpoint for a ledger before the account's latest checkpoint.
    StaleLedger,
}

/// The contents of the token's storage: the administrator, the supply, the
/// balances, each account's delegate, each delegate's voting power, and each
/// account's balance checkpoints.
pub struct TokenState {
    pub admin: Option<Seq<u8>>,
    pub total_supply: i128,
    pub balances: Map<Seq<u8>, i128>,
    pub delegates: Map<Seq<u8>, Seq<u8>>,
    pub votes: Map<Seq<u8>, i128>,
    pub checkpoints: Map<Seq<u8>, Seq<Checkpoint>>,
}

/// The balance recorded for `account`, zero where none is recorded.
pub open spec fn balance_in(balances: Map<Seq<u8>, i128>, account: Seq<u8>) -> i128 {
    if balances.contains_key(account) {
        balances[account]
    } else {
        0
    }
}

/// The delegate of `account`, if it has one.
pub open spec fn delegate_in(delegates: Map<Seq<u8>, Seq<u8>>, account: Seq<u8>) -> Option<Seq<u8>> {
    if delegates.contains_key(account) {
        Some(delegates[account])
    } else {
        None
    }
}

/// The checkpoints of `account`, none where none are recorded.
pub open spec fn checkpoints_of(c: Map<Seq<u8>, Seq<Checkpoint>>, account: Seq<u8>) -> Seq<Checkpoint> {
    if c.contains_key(account) {
        c[account]
    } else {
        Seq::empty()
    }
}

/// `c` with a checkpoint of `value` at `ledger` appended for `account`.
pub open spec fn record(c: Map<Seq<u8>, Seq<Checkpoint>>, account: Seq<u8>, ledger: u32, value: i128) -> Map<
    Seq<u8>,
    Seq<Checkpoint>,
> {
    c.insert(account, checkpoints_of(c, account).push(Checkpoint { ledger, votes: value }))
}

/// Whether `x` lies in the range of `i128`.
pub open spec fn in_i128(x: int) -> bool {
    i128::MIN <= x <= i128::MAX
}

/// The voting powers with `amount` taken from delegate `d`, if there is one;
/// `None` where that leaves the range of `i128`.
pub open spec fn debit_votes(v: Map<Seq<u8>, i128>, d: Option<Seq<u8>>, amount: int) -> Option<
    Map<Seq<u8>, i128>,
> {
    match d {
        None => Some(v),
        Some(k) => if in_i128(balance_in(v, k) - amount) {
            Some(v.insert(k, (balance_in(v, k) - amount) as i128))
        } else {
            None
        },
    }
}

/// The voting powers with `amount` given to delegate `d`, if there is one;
/// `None` where that leaves the range of `i128`.
pub open spec fn credit_votes(v: Map<Seq<u8>, i128>, d: Option<Seq<u8>>, amount: int) -> Option<
    Map<Seq<u8>, i128>,
> {
    match d {
        None => Some(v),
        Some(k) => if in_i128(balance_in(v, k) + amount) {
            Some(v.insert(k, (balance_in(v, k) + amount) as i128))
        } else {
            None
        },
    }
}

/// The voting powers after taking `sub` from delegate `from`, then giving
/// `add` to delegate `to`.
pub open spec fn shift_votes(
    v: Map<Seq<u8>, i128>,
    from: Option<Seq<u8>>,
    sub: int,
    to: Option<Seq<u8>>,
    add: int,
) -> Option<Map<Seq<u8>, i128>> {
    match debit_votes(v, from, sub) {
        None => None,
        Some(v1) => credit_votes(v1, to, add),
    }
}

/// Storage before the token is initialized.
pub open spec fn empty_token() -> TokenState {
    TokenState {
        admin: None,
        total_supply: 0,
        balances: Map::empty(),
        delegates: Map::empty(),
        votes: Map::empty(),
        checkpoints: Map::empty(),
    }
}

/// `initialize` records the administrator and the supply, sets the
/// administrator's balance to the whole supply, moves the administrator's
/// delegate's voting power with it, and checkpoints the new balance.
pub open spec fn initialize_spec(s: TokenState, admin: Seq<u8>, initial_supply: i128, ledger: u32) -> Result<
    TokenState,
    TokenError,
> {
    let d = delegate_in(s.delegates, admin);
    match shift_votes(s.votes, d, balance_in(s.balances, admin) as int, d, initial_supply as int) {
        None => Err(TokenError::Overflow),
        Some(votes) => if !accepts_ledger(checkpoints_of(s.checkpoints, admin), ledger) {
            Err(TokenError::StaleLedger)
        } else {
            Ok(
                TokenState {
                    admin: Some(admin),
                    total_supply: initial_supply,
                    balances: s.balances.insert(admin, initial_supply),
                    delegates: s.delegates,
                    votes,
                    checkpoints: record(s.checkpoints, admin, ledger, initial_supply),
                },
            )
        },
    }
}

/// `transfer` debits the sender, then credits the recipient's balance as it
/// stands after the debit; moves the voting power from the sender's
/// delegate to the recipient's; and checkpoints both new balances.
pub open spec fn transfer_spec(s: TokenState, from: Seq<u8>, to: Seq<u8>, amount: i128, ledger: u32) -> Result<
    TokenState,
    TokenError,
> {
    let from_balance = balance_in(s.balances, from);
    if amount <= 0 {
        Err(TokenError::NonPositiveAmount)
    } else if from_balance < amount {
        Err(TokenError::InsufficientBalance)
    } else {
        let debited = s.balances.insert(from, (from_balance - amount) as i128);
        let to_balance = balance_in(debited, to);
        if to_balance + amount > i128::MAX {
            Err(TokenError::Overflow)
        } else {
            let balances = debited.insert(to, (to_balance + amount) as i128);
            match shift_votes(
                s.votes,
                delegate_in(s.delegates, from),
                amount as int,
                delegate_in(s.delegates, to),
                amount as int,
            ) {
                None => Err(TokenError::Overflow),
                Some(votes) => if !accepts_ledger(checkpoints_of(s.checkpoints, from), ledger)
                    || !accepts_ledger(checkpoints_of(s.checkpoints, to), ledger) {
                    Err(TokenError::StaleLedger)
                } else {
                    let c1 = record(s.checkpoints, from, ledger, balance_in(balances, from));
                    Ok(
                        TokenState {
                            balances,
                            votes,
                            checkpoints: record(c1, to, ledger, balance_in(balances, to)),
                            ..s
                        },
                    )
                },
            }
        }
    }
}

/// `mint` adds `amount` (of any sign) to the recipient's balance, to the
/// supply and to the recipient's delegate's voting power, and checkpoints
/// the new balance.
pub open spec fn mint_spec(s: TokenState, to: Seq<u8>, amount: i128, ledger: u32) -> Result<
    TokenState,
    TokenError,
> {
    let new_balance = balance_in(s.balances, to) + amount;
    let new_supply = s.total_supply + amount;
    if s.admin is None {
        Err(TokenError::NotInitialized)
    } else if !in_i128(new_balance) || !in_i128(new_supply) {
        Err(TokenError::Overflow)
    } else {
        match shift_votes(s.votes, None, 0, delegate_in(s.delegates, to), amount as int) {
            None => Err(TokenError::Overflow),
            Some(votes) => if !accepts_ledger(checkpoints_of(s.checkpoints, to), ledger) {
                Err(TokenError::StaleLedger)
            } else {
                Ok(
                    TokenState {
                        total_supply: new_supply as i128,
                        balances: s.balances.insert(to, new_balance as i128),
                        votes,
                        checkpoints: record(s.checkpoints, to, ledger, new_balance as i128),
                        ..s
                    },
                )
            },
        }
    }
}

/// `delegate` records `delegatee` as the delegate of `delegator` and moves
/// the delegator's balance from its former delegate's voting power to the
/// delegatee's.
pub open spec fn delegate_spec(s: TokenState, delegator: Seq<u8>, delegatee: Seq<u8>) -> Result<
    TokenState,
    TokenError,
> {
    let b = balance_in(s.balances, delegator) as int;
    match shift_votes(s.votes, delegate_in(s.delegates, delegator), b, Some(delegatee), b) {
        None => Err(TokenError::Overflow),
        Some(votes) => Ok(TokenState { delegates: s.delegates.insert(delegator, delegatee), votes, ..s }),
    }
}

/// The sum of the balances held in a finite map.
pub open spec fn balance_sum(m: Map<Seq<u8>, i128>) -> int
    decreases m.dom().len(),
{
    if m.dom().finite() && m.dom().len() > 0 {
        let k = m.dom().choose();
        m[k] + balance_sum(m.remove(k))
    } else {
        0
    }
}

/// The recorded supply equals the sum of all balances.
pub open spec fn supply_backed(s: TokenState) -> bool {
    s.total_supply == balance_sum(s.balances)
}

/// The sum of the balances of the accounts whose delegate is `x`.
pub open spec fn delegated_sum(d: Map<Seq<u8>, Seq<u8>>, b: Map<Seq<u8>, i128>, x: Seq<u8>) -> int
    decreases d.dom().len(),
{
    if d.dom().finite() && d.dom().len() > 0 {
        let k = d.dom().choose();
        (if d[k] == x {
            balance_in(b, k) as int
        } else {
            0
        }) + delegated_sum(d.remove(k), b, x)
    } else {
        0
    }
}

/// What account `k` adds to the voting power of `x`.
pub open spec fn share(d: Map<Seq<u8>, Seq<u8>>, b: Map<Seq<u8>, i128>, x: Seq<u8>, k: Seq<u8>) -> int {
    if d.contains_key(k) && d[k] == x {
        balance_in(b, k) as int
    } else {
        0
    }
}

/// Every voting power equals the sum of the balances delegated to it.
pub open spec fn votes_consistent(s: TokenState) -> bool {
    forall|x: Seq<u8>| #[trigger] balance_in(s.votes, x) == delegated_sum(s.delegates, s.balances, x)
}

/// Every account's latest checkpoint holds its balance.
pub open spec fn checkpoints_match(s: TokenState) -> bool {
    forall|a: Seq<u8>| #[trigger] latest_votes(checkpoints_of(s.checkpoints, a)) == balance_in(s.balances, a)
}

/// Any one balance can be taken out of the sum first.
proof fn lemma_balance_sum_remove(m: Map<Seq<u8>, i128>, k: Seq<u8>)
    requires
        m.dom().finite(),
        m.contains_key(k),
    ensures
        balance_sum(m) == m[k] + balance_sum(m.remove(k)),
    decreases m.dom().len(),
{
    let c = m.dom().choose();
    if c != k {
        lemma_balance_sum_remove(m.remove(c), k);
        lemma_balance_sum_remove(m.remove(k), c);
        assert(m.remove(c).remove(k) =~= m.remove(k).remove(c));
    }
}

/// Setting one balance changes the sum by the difference.
proof fn lemma_balance_sum_insert(m: Map<Seq<u8>, i128>, k: Seq<u8>, v: i128)
    requires
        m.dom().finite(),
    ensures
        m.insert(k, v).dom().finite(),
        balance_sum(m.insert(k, v)) == balance_sum(m) - balance_in(m, k) + v,
{
    let n = m.insert(k, v);
    lemma_balance_sum_remove(n, k);
    assert(n.remove(k) =~= m.remove(k));
    if m.contains_key(k) {
        lemma_balance_sum_remove(m, k);
    } else {
        assert(m.remove(k) =~= m);
    }
}

/// Any one delegating account can be taken out of a delegated sum first.
proof fn lemma_delegated_sum_remove(d: Map<Seq<u8>, Seq<u8>>, b: Map<Seq<u8>, i128>, x: Seq<u8>, k: Seq<u8>)
    requires
        d.dom().finite(),
        d.contains_key(k),
    ensures
        delegated_sum(d, b, x) == share(d, b, x, k) + delegated_sum(d.remove(k), b, x),
    decreases d.dom().len(),
{
    let c = d.dom().choose();
    if c != k {
        lemma_delegated_sum_remove(d.remove(c), b, x, k);
        lemma_delegated_sum_remove(d.remove(k), b, x, c);
        assert(d.remove(c).remove(k) =~= d.remove(k).remove(c));
    }
}

/// The balance of an account that delegates to nobody adds to no voting
/// power.
proof fn lemma_delegated_sum_undelegated(
    d: Map<Seq<u8>, Seq<u8>>,
    b: Map<Seq<u8>, i128>,
    x: Seq<u8>,
    k: Seq<u8>,
    v: i128,
)
    requires
        d.dom().finite(),
        !d.contains_key(k),
    ensures
        delegated_sum(d, b.insert(k, v), x) == delegated_sum(d, b, x),
    decreases d.dom().len(),
{
    if d.dom().len() > 0 {
        let c = d.dom().choose();
        lemma_delegated_sum_undelegated(d.remove(c), b, x, k, v);
    }
}

/// Setting one balance changes a delegated sum by that account's change of
/// share.
pub proof fn lemma_delegated_sum_balance(
    d: Map<Seq<u8>, Seq<u8>>,
    b: Map<Seq<u8>, i128>,
    x: Seq<u8>,
    k: Seq<u8>,
    v: i128,
)
    requires
        d.dom().finite(),
    ensures
        delegated_sum(d, b.insert(k, v), x) == delegated_sum(d, b, x) - share(d, b, x, k) + share(
            d,
            b.insert(k, v),
            x,
            k,
        ),
{
    if d.contains_key(k) {
        lemma_delegated_sum_remove(d, b, x, k);
        lemma_delegated_sum_remove(d, b.insert(k, v), x, k);
        lemma_delegated_sum_undelegated(d.remove(k), b, x, k, v);
    } else {
        lemma_delegated_sum_undelegated(d, b, x, k, v);
    }
}

/// Changing one account's delegate moves its balance from its former
/// delegate's sum to the new delegate's.
pub proof fn lemma_delegated_sum_delegate(
    d: Map<Seq<u8>, Seq<u8>>,
    b: Map<Seq<u8>, i128>,
    x: Seq<u8>,
    a: Seq<u8>,
    y: Seq<u8>,
)
    requires
        d.dom().finite(),
    ensures
        delegated_sum(d.insert(a, y), b, x) == delegated_sum(d, b, x) - share(d, b, x, a) + (if y == x {
            balance_in(b, a) as int
        } else {
            0
        }),
{
    let d2 = d.insert(a, y);
    lemma_delegated_sum_remove(d2, b, x, a);
    assert(d2.remove(a) =~= d.remove(a));
    if d.contains_key(a) {
        lemma_delegated_sum_remove(d, b, x, a);
    } else {
        assert(d.remove(a) =~= d);
    }
}

/// The empty storage has no balances, no voting power and no checkpoints,
/// and they agree.
pub proof fn law_empty_token_consistent()
    ensures
        supply_backed(empty_token()),
        votes_consistent(empty_token()),
        checkpoints_match(empty_token()),
{
}

/// Initializing a token whose storage is empty succeeds, makes the supply
/// equal to the sum of the balances, and checkpoints the administrator's
/// balance.
pub proof fn law_initialize_backs_supply(admin: Seq<u8>, initial_supply: i128, ledger: u32)
    ensures
        initialize_spec(empty_token(), admin, initial_supply, ledger) matches Ok(t) && supply_backed(t)
            && votes_consistent(t) && checkpoints_match(t),
{
    let m = Map::<Seq<u8>, i128>::empty();
    assert(balance_sum(m) == 0);
    lemma_balance_sum_insert(m, admin, initial_supply);
}

/// Initialization keeps every voting power equal to the balances delegated
/// to it, and the checkpoints in step with the balances.
pub proof fn law_initialize_keeps_votes(s: TokenState, admin: Seq<u8>, initial_supply: i128, ledger: u32)
    requires
        s.delegates.dom().finite(),
        votes_consistent(s),
        checkpoints_match(s),
    ensures
        initialize_spec(s, admin, initial_supply, ledger) matches Ok(t) ==> votes_consistent(t)
            && checkpoints_match(t),
{
    if let Ok(t) = initialize_spec(s, admin, initial_supply, ledger) {
        assert forall|x: Seq<u8>| #[trigger] balance_in(t.votes, x) == delegated_sum(t.delegates, t.balances, x) by {
            assert(balance_in(s.votes, x) == delegated_sum(s.delegates, s.balances, x));
            lemma_delegated_sum_balance(s.delegates, s.balances, x, admin, initial_supply);
        }
        assert forall|a: Seq<u8>| #[trigger] latest_votes(checkpoints_of(t.checkpoints, a)) == balance_in(
            t.balances,
            a,
        ) by {
            if a != admin {
                assert(latest_votes(checkpoints_of(s.checkpoints, a)) == balance_in(s.balances, a));
            }
        }
    }
}

/// A transfer moves exactly `amount` from the sender to a different
/// recipient, leaves every other balance and the supply as they were, and
/// keeps the sum of all balances.
pub proof fn law_transfer_conserves(s: TokenState, from: Seq<u8>, to: Seq<u8>, amount: i128, ledger: u32)
    requires
        s.balances.dom().finite(),
    ensures
        transfer_spec(s, from, to, amount, ledger) matches Ok(t) ==> {
            &&& t.total_supply == s.total_supply
            &&& balance_sum(t.balances) == balance_sum(s.balances)
            &&& from != to ==> balance_in(t.balances, from) == balance_in(s.balances, from) - amount
            &&& from != to ==> balance_in(t.balances, to) == balance_in(s.balances, to) + amount
            &&& from == to ==> balance_in(t.balances, from) == balance_in(s.balances, from)
            &&& forall|a: Seq<u8>|
                a != from && a != to ==> #[trigger] balance_in(t.balances, a) == balance_in(s.balances, a)
        },
{
    if let Ok(t) = transfer_spec(s, from, to, amount, ledger) {
        let from_balance = balance_in(s.balances, from);
        let debited = s.balances.insert(from, (from_balance - amount) as i128);
        let to_balance = balance_in(debited, to);
        lemma_balance_sum_insert(s.balances, from, (from_balance - amount) as i128);
        lemma_balance_sum_insert(debited, to, (to_balance + amount) as i128);
    }
}

/// Transfers keep the supply equal to the sum of the balances.
pub proof fn law_transfer_keeps_supply_backed(s: TokenState, from: Seq<u8>, to: Seq<u8>, amount: i128, ledger: u32)
    requires
        s.balances.dom().finite(),
        supply_backed(s),
    ensures
        transfer_spec(s, from, to, amount, ledger) matches Ok(t) ==> supply_backed(t),
{
    law_transfer_conserves(s, from, to, amount, ledger);
}

/// Transfers keep every voting power equal to the balances delegated to it:
/// the amount leaves the sender's delegate's voting power and joins the
/// recipient's delegate's.
pub proof fn law_transfer_keeps_votes(s: TokenState, from: Seq<u8>, to: Seq<u8>, amount: i128, ledger: u32)
    requires
        s.delegates.dom().finite(),
        votes_consistent(s),
    ensures
        transfer_spec(s, from, to, amount, ledger) matches Ok(t) ==> votes_consistent(t),
{
    if let Ok(t) = transfer_spec(s, from, to, amount, ledger) {
        let from_balance = balance_in(s.balances, from);
        let debited = s.balances.insert(from, (from_balance - amount) as i128);
        let to_balance = balance_in(debited, to);
        assert forall|x: Seq<u8>| #[trigger] balance_in(t.votes, x) == delegated_sum(t.delegates, t.balances, x) by {
            assert(balance_in(s.votes, x) == delegated_sum(s.delegates, s.balances, x));
            lemma_delegated_sum_balance(s.delegates, s.balances, x, from, (from_balance - amount) as i128);
            lemma_delegated_sum_balance(s.delegates, debited, x, to, (to_balance + amount) as i128);
        }
    }
}

/// Minting adds the same amount to the supply and to the sum of the
/// balances, so it keeps them equal.
pub proof fn law_mint_keeps_supply_backed(s: TokenState, to: Seq<u8>, amount: i128, ledger: u32)
    requires
        s.balances.dom().finite(),
        supply_backed(s),
    ensures
        mint_spec(s, to, amount, ledger) matches Ok(t) ==> {
            &&& supply_backed(t)
            &&& t.total_supply == s.total_supply + amount
            &&& balance_in(t.balances, to) == balance_in(s.balances, to) + amount
        },
{
    if let Ok(t) = mint_spec(s, to, amount, ledger) {
        lemma_balance_sum_insert(s.balances, to, (balance_in(s.balances, to) + amount) as i128);
    }
}

/// Minting adds the minted amount to the recipient's delegate's voting
/// power, so every voting power stays equal to the balances delegated to it.
pub proof fn law_mint_keeps_votes(s: TokenState, to: Seq<u8>, amount: i128, ledger: u32)
    requires
        s.delegates.dom().finite(),
        votes_consistent(s),
    ensures
        mint_spec(s, to, amount, ledger) matches Ok(t) ==> votes_consistent(t),
{
    if let Ok(t) = mint_spec(s, to, amount, ledger) {
        assert forall|x: Seq<u8>| #[trigger] balance_in(t.votes, x) == delegated_sum(t.delegates, t.balances, x) by {
            assert(balance_in(s.votes, x) == delegated_sum(s.delegates, s.balances, x));
            lemma_delegated_sum_balance(s.delegates, s.balances, x, to, (balance_in(s.balances, to) + amount) as i128);
        }
    }
}

/// Delegation moves no tokens and no checkpoint, moves the delegator's
/// balance from its former delegate's voting power to the new delegate's,
/// and keeps every voting power equal to the balances delegated to it.
pub proof fn law_delegate_moves_votes(s: TokenState, delegator: Seq<u8>, delegatee: Seq<u8>)
    requires
        s.delegates.dom().finite(),
        votes_consistent(s),
    ensures
        delegate_spec(s, delegator, delegatee) matches Ok(t) ==> {
            &&& t.balances == s.balances
            &&& t.total_supply == s.total_supply
            &&& t.checkpoints == s.checkpoints
            &&& votes_consistent(t)
            &&& delegated_sum(t.delegates, t.balances, delegatee) == delegated_sum(s.delegates, s.balances, delegatee)
                - share(s.delegates, s.balances, delegatee, delegator) + balance_in(s.balances, delegator)
        },
{
    if let Ok(t) = delegate_spec(s, delegator, delegatee) {
        assert forall|x: Seq<u8>| #[trigger] balance_in(t.votes, x) == delegated_sum(t.delegates, t.balances, x) by {
            assert(balance_in(s.votes, x) == delegated_sum(s.delegates, s.balances, x));
            lemma_delegated_sum_delegate(s.delegates, s.balances, x, delegator, delegatee);
        }
        lemma_delegated_sum_delegate(s.delegates, s.balances, delegatee, delegator, delegatee);
    }
}

/// A delegation that succeeds makes the delegatee the delegator's recorded
/// delegate, whatever the delegator's balance, and changes no other
/// account's delegate; it fails only when a voting power would leave the
/// range of `i128`.
pub proof fn law_delegate_records_delegatee(s: TokenState, delegator: Seq<u8>, delegatee: Seq<u8>)
    ensures
        delegate_spec(s, delegator, delegatee) matches Ok(t) ==> {
            &&& delegate_in(t.delegates, delegator) == Some(delegatee)
            &&& forall|other: Seq<u8>|
                other != delegator ==> #[trigger] delegate_in(t.delegates, other) == delegate_in(s.delegates, other)
        },
        delegate_spec(s, delegator, delegatee) matches Err(e) ==> e == TokenError::Overflow,
{
}

/// Once an account has delegated to itself, its voting power follows its
/// balance: minting to it raises its voting power by the minted amount.
pub proof fn law_self_delegation_then_mint(s: TokenState, account: Seq<u8>, amount: i128, ledger: u32)
    requires
        s.delegates.dom().finite(),
        votes_consistent(s),
    ensures
        delegate_spec(s, account, account) matches Ok(t) ==> {
            &&& balance_in(t.votes, account) == delegated_sum(t.delegates, t.balances, account)
            &&& share(t.delegates, t.balances, account, account) == balance_in(t.balances, account)
            &&& mint_spec(t, account, amount, ledger) matches Ok(u) ==> balance_in(u.votes, account)
                == balance_in(t.votes, account) + amount
        },
{
    law_delegate_moves_votes(s, account, account);
}

/// Transfers and mints keep each account's latest checkpoint equal to its
/// balance, and leave every lookup at an earlier ledger as it was.
pub proof fn law_checkpoints_follow_balances(
    s: TokenState,
    from: Seq<u8>,
    to: Seq<u8>,
    amount: i128,
    ledger: u32,
    account: Seq<u8>,
    past: u32,
)
    requires
        checkpoints_match(s),
    ensures
        transfer_spec(s, from, to, amount, ledger) matches Ok(t) ==> {
            &&& checkpoints_match(t)
            &&& past < ledger ==> past_votes(checkpoints_of(t.checkpoints, account), past) == past_votes(
                checkpoints_of(s.checkpoints, account),
                past,
            )
        },
        mint_spec(s, to, amount, ledger) matches Ok(t) ==> {
            &&& checkpoints_match(t)
            &&& past < ledger ==> past_votes(checkpoints_of(t.checkpoints, account), past) == past_votes(
                checkpoints_of(s.checkpoints, account),
                past,
            )
        },
{
    let cp = |v: i128| Checkpoint { ledger, votes: v };
    if let Ok(t) = transfer_spec(s, from, to, amount, ledger) {
        assert forall|a: Seq<u8>| #[trigger] latest_votes(checkpoints_of(t.checkpoints, a)) == balance_in(
            t.balances,
            a,
        ) by {
            if a != from && a != to {
                assert(latest_votes(checkpoints_of(s.checkpoints, a)) == balance_in(s.balances, a));
            }
        }
        let c1 = record(s.checkpoints, from, ledger, balance_in(t.balances, from));
        lemma_past_votes_push(checkpoints_of(s.checkpoints, account), cp(balance_in(t.balances, from)), past);
        lemma_past_votes_push(checkpoints_of(c1, account), cp(balance_in(t.balances, to)), past);
    }
    if let Ok(t) = mint_spec(s, to, amount, ledger) {
        assert forall|a: Seq<u8>| #[trigger] latest_votes(checkpoints_of(t.checkpoints, a)) == balance_in(
            t.balances,
            a,
        ) by {
            if a != to {
                assert(latest_votes(checkpoints_of(s.checkpoints, a)) == balance_in(s.balances, a));
            }
        }
        lemma_past_votes_push(checkpoints_of(s.checkpoints, account), cp(balance_in(t.balances, to)), past);
    }
}

/// While each latest checkpoint holds its account's balance, a lookup at or
/// after an account's latest checkpoint gives its current balance.
pub proof fn law_current_lookup_is_balance(s: TokenState, account: Seq<u8>, ledger: u32)
    requires
        checkpoints_match(s),
        accepts_ledger(checkpoints_of(s.checkpoints, account), ledger),
    ensures
        past_votes(checkpoints_of(s.checkpoints, account), ledger) == balance_in(s.balances, account),
{
    assert(latest_votes(checkpoints_of(s.checkpoints, account)) == balance_in(s.balances, account));
}

/// The address text of an optional identity.
pub open spec fn id_view(a: Option<AccountId>) -> Option<Seq<u8>> {
    match a {
        Some(a) => Some(a@),
        None => None,
    }
}

/// The voting powers with `from_votes` set for `from` and then `to_votes`
/// set for `to`, for each of them that is present.
pub open spec fn set_votes(
    v: Map<Seq<u8>, i128>,
    from: Option<Seq<u8>>,
    from_votes: i128,
    to: Option<Seq<u8>>,
    to_votes: i128,
) -> Map<Seq<u8>, i128> {
    let v1 = match from {
        Some(k) => v.insert(k, from_votes),
        None => v,
    };
    match to {
        Some(k) => v1.insert(k, to_votes),
        None => v1,
    }
}

/// The storage of the voting token contract.
pub struct StellarVotingToken {
    admin: Option<AccountId>,
    total_supply: i128,
    balances: AccountMap<i128>,
    delegates: AccountMap<AccountId>,
    votes: AccountMap<i128>,
    checkpoints: AccountMap<CheckpointList>,
}

impl View for StellarVotingToken {
    type V = TokenState;

    closed spec fn view(&self) -> TokenState {
        TokenState {
            admin: id_view(self.admin),
            total_supply: self.total_supply,
            balances: self.balances@,
            delegates: self.delegates@,
            votes: self.votes@,
            checkpoints: self.checkpoints@,
        }
    }
}

impl StellarVotingToken {
    /// The token's storage holds finitely many balances and delegations.
    pub proof fn lemma_finite(&self)
        ensures
            self@.balances.dom().finite(),
            self@.delegates.dom().finite(),
    {
        self.balances.lemma_finite();
        self.delegates.lemma_finite();
    }

    /// Storage in which nothing has been written.
    pub fn new() -> (token: StellarVotingToken)
        ensures
            token@ == empty_token(),
    {
        StellarVotingToken {
            admin: None,
            total_supply: 0,
            balances: AccountMap::new(),
            delegates: AccountMap::new(),
            votes: AccountMap::new(),
            checkpoints: AccountMap::new(),
        }
    }

    /// Storage holding the given entries.
    pub fn from_parts(
        admin: Option<AccountId>,
        total_supply: i128,
        balances: AccountMap<i128>,
        delegates: AccountMap<AccountId>,
        votes: AccountMap<i128>,
        checkpoints: AccountMap<CheckpointList>,
    ) -> (token: StellarVotingToken)
        ensures
            token@ == (TokenState {
                admin: id_view(admin),
                total_supply,
                balances: balances@,
                delegates: delegates@,
                votes: votes@,
                checkpoints: checkpoints@,
            }),
    {
        StellarVotingToken { admin, total_supply, balances, delegates, votes, checkpoints }
    }

    /// The new voting powers of delegates `from` and `to` after taking `sub`
    /// from `from` and then giving `add` to `to`; `None` where that leaves
    /// the range of `i128`.
    fn plan_shift(&self, from: &Option<AccountId>, sub: i128, to: &Option<AccountId>, add: i128) -> (r: Option<
        (i128, i128),
    >)
        ensures
            match shift_votes(self@.votes, id_view(*from), sub as int, id_view(*to), add as int) {
                None => r is None,
                Some(m) => r matches Some((a, b)) && m == set_votes(self@.votes, id_view(*from), a, id_view(*to), b),
            },
    {
        let a = match from {
            None => 0,
            Some(d) => match self.get_votes(d).checked_sub(sub) {
                Some(v) => v,
                None => return None,
            },
        };
        let b = match to {
            None => 0,
            Some(t) => {
                let base = match from {
                    Some(d) => if d.same_as(t) {
                        a
                    } else {
                        self.get_votes(t)
                    },
                    None => self.get_votes(t),
                };
                match base.checked_add(add) {
                    Some(v) => v,
                    None => return None,
                }
            },
        };
        Some((a, b))
    }

    /// Sets the voting powers that `plan_shift` planned.
    fn apply_shift(&mut self, from: Option<AccountId>, a: i128, to: Option<AccountId>, b: i128)
        ensures
            final(self)@ == (TokenState {
                votes: set_votes(old(self)@.votes, id_view(from), a, id_view(to), b),
                ..old(self)@
            }),
    {
        match from {
            Some(d) => self.votes.insert(d, a),
            None => {},
        }
        match to {
            Some(t) => self.votes.insert(t, b),
            None => {},
        }
    }

    /// Whether `account` may take a checkpoint at `ledger`.
    fn accepts_checkpoint(&self, account: &AccountId, ledger: u32) -> (ok: bool)
        ensures
            ok == accepts_ledger(checkpoints_of(self@.checkpoints, account@), ledger),
    {
        match self.checkpoints.get(account) {
            None => true,
            Some(l) => l.accepts(ledger),
        }
    }

    /// Appends a checkpoint of `value` at `ledger` for `account`.
    fn record_checkpoint(&mut self, account: &AccountId, ledger: u32, value: i128)
        requires
            accepts_ledger(checkpoints_of(old(self)@.checkpoints, account@), ledger),
        ensures
            final(self)@ == (TokenState {
                checkpoints: record(old(self)@.checkpoints, account@, ledger, value),
                ..old(self)@
            }),
    {
        let cp = Checkpoint { ledger, votes: value };
        let list = match self.checkpoints.get(account) {
            None => CheckpointList::new().appended(cp),
            Some(l) => l.appended(cp),
        };
        self.checkpoints.insert(account.duplicate(), list);
    }

    /// Records the administrator and the initial supply, held by the
    /// administrator from ledger `current_ledger` on.
    pub fn initialize(&mut self, admin: AccountId, initial_supply: i128, current_ledger: u32) -> (r: Result<
        (),
        TokenError,
    >)
        ensures
            match initialize_spec(old(self)@, admin@, initial_supply, current_ledger) {
                Ok(next) => r is Ok && final(self)@ == next,
                Err(e) => r == Err::<(), TokenError>(e) && final(self)@ == old(self)@,
            },
    {
        let d = self.get_delegate(&admin);
        let old_balance = self.balance(&admin);
        let (a, b) = match self.plan_shift(&d, old_balance, &d, initial_supply) {
            Some(p) => p,
            None => return Err(TokenError::Overflow),
        };
        if !self.accepts_checkpoint(&admin, current_ledger) {
            return Err(TokenError::StaleLedger);
        }
        let d2 = match &d {
            Some(x) => Some(x.duplicate()),
            None => None,
        };
        self.apply_shift(d, a, d2, b);
        self.balances.insert(admin.duplicate(), initial_supply);
        self.record_checkpoint(&admin, current_ledger, initial_supply);
        self.admin = Some(admin);
        self.total_supply = initial_supply;
        Ok(())
    }

    /// Moves `amount` tokens from `from` to `to` at ledger `current_ledger`.
    pub fn transfer(&mut self, from: &AccountId, to: &AccountId, amount: i128, current_ledger: u32) -> (r:
        Result<(), TokenError>)
        ensures
            match transfer_spec(old(self)@, from@, to@, amount, current_ledger) {
                Ok(next) => r is Ok && final(self)@ == next,
                Err(e) => r == Err::<(), TokenError>(e) && final(self)@ == old(self)@,
            },
    {
        if amount <= 0 {
            return Err(TokenError::NonPositiveAmount);
        }
        let from_balance = self.balance(from);
        if from_balance < amount {
            return Err(TokenError::InsufficientBalance);
        }
        let debited = from_balance - amount;
        let same = from.same_as(to);
        let to_balance = if same {
            debited
        } else {
            self.balance(to)
        };
        let credited = match to_balance.checked_add(amount) {
            Some(v) => v,
            None => return Err(TokenError::Overflow),
        };
        let df = self.get_delegate(from);
        let dt = self.get_delegate(to);
        let (a, b) = match self.plan_shift(&df, amount, &dt, amount) {
            Some(p) => p,
            None => return Err(TokenError::Overflow),
        };
        if !self.accepts_checkpoint(from, current_ledger) || !self.accepts_checkpoint(to, current_ledger) {
            return Err(TokenError::StaleLedger);
        }
        self.apply_shift(df, a, dt, b);
        self.balances.insert(from.duplicate(), debited);
        self.balances.insert(to.duplicate(), credited);
        let new_from = if same {
            credited
        } else {
            debited
        };
        self.record_checkpoint(from, current_ledger, new_from);
        self.record_checkpoint(to, current_ledger, credited);
        Ok(())
    }

    /// The administrator, who alone may mint.
    pub fn admin(&self) -> (admin: Option<&AccountId>)
        ensures
            match admin {
                Some(a) => self@.admin == Some(a@),
                None => self@.admin is None,
            },
    {
        match &self.admin {
            Some(a) => Some(a),
            None => None,
        }
    }

    /// Creates `amount` new tokens for `to` at ledger `current_ledger`.
    pub fn mint(&mut self, to: &AccountId, amount: i128, current_ledger: u32) -> (r: Result<(), TokenError>)
        ensures
            match mint_spec(old(self)@, to@, amount, current_ledger) {
                Ok(next) => r is Ok && final(self)@ == next,
                Err(e) => r == Err::<(), TokenError>(e) && final(self)@ == old(self)@,
            },
    {
        if self.admin.is_none() {
            return Err(TokenError::NotInitialized);
        }
        let new_balance = match self.balance(to).checked_add(amount) {
            Some(v) => v,
            None => return Err(TokenError::Overflow),
        };
        let new_supply = match self.total_supply.checked_add(amount) {
            Some(v) => v,
            None => return Err(TokenError::Overflow),
        };
        let dt = self.get_delegate(to);
        let (a, b) = match self.plan_shift(&None, 0, &dt, amount) {
            Some(p) => p,
            None => return Err(TokenError::Overflow),
        };
        if !self.accepts_checkpoint(to, current_ledger) {
            return Err(TokenError::StaleLedger);
        }
        self.apply_shift(None, a, dt, b);
        self.balances.insert(to.duplicate(), new_balance);
        self.total_supply = new_supply;
        self.record_checkpoint(to, current_ledger, new_balance);
        Ok(())
    }

    /// Makes `delegatee` the delegate of `delegator`, moving the delegator's
    /// balance to the delegatee's voting power.
    pub fn delegate(&mut self, delegator: &AccountId, delegatee: AccountId) -> (r: Result<(), TokenError>)
        ensures
            match delegate_spec(old(self)@, delegator@, delegatee@) {
                Ok(next) => r is Ok && final(self)@ == next,
                Err(e) => r == Err::<(), TokenError>(e) && final(self)@ == old(self)@,
            },
    {
        let b = self.balance(delegator);
        let old_delegate = self.get_delegate(delegator);
        let new_delegate = Some(delegatee.duplicate());
        let (x, y) = match self.plan_shift(&old_delegate, b, &new_delegate, b) {
            Some(p) => p,
            None => return Err(TokenError::Overflow),
        };
        self.apply_shift(old_delegate, x, new_delegate, y);
        self.delegates.insert(delegator.duplicate(), delegatee);
        Ok(())
    }

    /// The voting power of `account`: the balances delegated to it.
    pub fn get_votes(&self, account: &AccountId) -> (votes: i128)
        ensures
            votes == balance_in(self@.votes, account@),
    {
        match self.votes.get(account) {
            Some(v) => *v,
            None => 0,
        }
    }

    /// The balance `account` held at ledger `ledger`, by its checkpoints.
    pub fn get_past_votes(&self, account: &AccountId, ledger: u32) -> (votes: i128)
        ensures
            votes == past_votes(checkpoints_of(self@.checkpoints, account@), ledger),
    {
        match self.checkpoints.get(account) {
            Some(l) => l.lookup(ledger),
            None => 0,
        }
    }

    /// The checkpoints of `account`, oldest first.
    pub fn get_checkpoints(&self, account: &AccountId) -> (cps: &[Checkpoint])
        ensures
            cps@ == checkpoints_of(self@.checkpoints, account@),
    {
        match self.checkpoints.get(account) {
            Some(l) => l.as_slice(),
            None => &[],
        }
    }

    /// The balance of `account`.
    pub fn balance(&self, account: &AccountId) -> (balance: i128)
        ensures
            balance == balance_in(self@.balances, account@),
    {
        match self.balances.get(account) {
            Some(b) => *b,
            None => 0,
        }
    }

    /// The recorded supply.
    pub fn total_supply(&self) -> (supply: i128)
        ensures
            supply == self@.total_supply,
    {
        self.total_supply
    }

    /// The delegate of `account`, if it has one.
    pub fn get_delegate(&self, account: &AccountId) -> (delegate: Option<AccountId>)
        ensures
            id_view(delegate) == delegate_in(self@.delegates, account@),
    {
        match self.delegates.get(account) {
            Some(d) => Some(d.duplicate()),
            None => None,
        }
    }
}

} // verus!
