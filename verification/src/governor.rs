//! The governor: proposals, voting, finalization, queueing, execution and
//! cancellation.
use vstd::prelude::*;
use std::collections::HashMap;
use crate::account::AccountId;

verus! {

broadcast use vstd::std_specs::hash::group_hash_axioms;

/// Where a proposal stands in its lifecycle.
#[derive(Debug, Clone, Copy, PartialEq, Eq, Structural)]
pub enum ProposalState {
    /// Created, voting not yet started.
    Pending,
    /// Voting in progress.
    Active,
    /// Voting closed without quorum or without a majority for it.
    Defeated,
    /// Voting closed with quorum and a majority for it.
    Succeeded,
    /// Waiting out the timelock.
    Queued,
    /// Carried out.
    Executed,
    /// Withdrawn by its proposer.
    Cancelled,
}

/// A governance proposal and its tallies.
pub struct Proposal {
    pub id: u64,
    pub proposer: AccountId,
    pub description: Vec<u8>,
    pub for_votes: i128,
    pub against_votes: i128,
    pub abstain_votes: i128,
    pub start_ledger: u32,
    pub end_ledger: u32,
    pub state: ProposalState,
    pub eta_ledger: u32,
}

/// The parameters fixed when the governor is initialized.
pub struct GovernorConfig {
    pub voting_token: AccountId,
    pub timelock_contract: AccountId,
    pub voting_delay_ledgers: u32,
    pub voting_period_ledgers: u32,
    pub proposal_threshold: i128,
    pub quorum_numerator: u32,
}

/// Why the governor refuses a call.
#[derive(Debug, Clone, Copy, PartialEq, Eq, Structural)]
pub enum GovernorError {
    AlreadyInitialized,
    /// A quorum above 100 percent.
    QuorumTooHigh,
    NotInitialized,
    /// A proposer whose voting power is below the proposal threshold.
    BelowProposalThreshold,
    /// A counter, ledger number or tally would leave its integer type.
    Overflow,
    /// A vote other than 0 (against), 1 (for) or 2 (abstain).
    InvalidSupport,
    /// A vote of zero or negative weight.
    NoVotingPower,
    AlreadyVoted,
    ProposalNotFound,
    VotingNotStarted,
    VotingEnded,
    VotingStillActive,
    AlreadyFinalized,
    NotSucceeded,
    NotQueued,
    TimelockNotExpired,
    AlreadyExecuted,
}

/// The record of which voters have voted on which proposals.
pub struct VoteRecord {
    entries: Vec<(u64, AccountId)>,
}

impl View for VoteRecord {
    type V = Set<(u64, Seq<u8>)>;

    closed spec fn view(&self) -> Set<(u64, Seq<u8>)> {
        Set::new(
            |v: (u64, Seq<u8>)|
                exists|i: int|
                    0 <= i < self.entries@.len() && (#[trigger] self.entries@[i]).0 == v.0
                        && self.entries@[i].1@ == v.1,
        )
    }
}

impl VoteRecord {
    /// The record in which nobody has voted.
    pub fn new() -> (r: VoteRecord)
        ensures
            r@ == Set::<(u64, Seq<u8>)>::empty(),
    {
        let r = VoteRecord { entries: Vec::new() };
        assert(r@ =~= Set::<(u64, Seq<u8>)>::empty());
        r
    }

    /// Whether `voter` has voted on proposal `id`.
    pub fn contains(&self, id: u64, voter: &AccountId) -> (voted: bool)
        ensures
            voted == self@.contains((id, voter@)),
    {
        let n = self.entries.len();
        let mut i: usize = 0;
        while i < n
            invariant
                n == self.entries@.len(),
                0 <= i <= n,
                forall|j: int|
                    0 <= j < i ==> !((#[trigger] self.entries@[j]).0 == id && self.entries@[j].1@ == voter@),
            decreases n - i,
        {
            if self.entries[i].0 == id && self.entries[i].1.same_as(voter) {
                return true;
            }
            i = i + 1;
        }
        false
    }

    /// Records that `voter` has voted on proposal `id`.
    pub fn insert(&mut self, id: u64, voter: AccountId)
        ensures
            final(self)@ == old(self)@.insert((id, voter@)),
    {
        let ghost key = (id, voter@);
        self.entries.push((id, voter));
        proof {
            let n = old(self).entries@.len() as int;
            assert forall|v: (u64, Seq<u8>)| #[trigger] final(self)@.contains(v) == old(self)@.insert(key).contains(v) by {
                if final(self)@.contains(v) {
                    let i = choose|i: int|
                        0 <= i < self.entries@.len() && (#[trigger] self.entries@[i]).0 == v.0
                            && self.entries@[i].1@ == v.1;
                    if i < n {
                        assert(old(self).entries@[i] == self.entries@[i]);
                    }
                }
                if old(self)@.contains(v) {
                    let i = choose|i: int|
                        0 <= i < old(self).entries@.len() && (#[trigger] old(self).entries@[i]).0 == v.0
                            && old(self).entries@[i].1@ == v.1;
                    assert(old(self).entries@[i] == self.entries@[i]);
                }
                if v == key {
                    assert(self.entries@[n].0 == v.0);
                }
            }
            assert(final(self)@ =~= old(self)@.insert(key));
        }
    }
}

/// The contents of the governor's storage.
pub struct GovernorState {
    pub config: Option<GovernorConfig>,
    pub counter: u64,
    pub proposals: Map<u64, Proposal>,
    pub voted: Set<(u64, Seq<u8>)>,
}

/// Storage before the governor is initialized.
pub open spec fn empty_governor() -> GovernorState {
    GovernorState { config: None, counter: 0, proposals: Map::empty(), voted: Set::empty() }
}

/// `initialize` records the parameters once and starts the proposal counter
/// at zero.
pub open spec fn initialize_spec(s: GovernorState, config: GovernorConfig) -> Result<
    GovernorState,
    GovernorError,
> {
    if s.config is Some {
        Err(GovernorError::AlreadyInitialized)
    } else if config.quorum_numerator > 100 {
        Err(GovernorError::QuorumTooHigh)
    } else {
        Ok(GovernorState { config: Some(config), counter: 0, ..s })
    }
}

/// `propose` refuses a proposer whose voting power is below the proposal
/// threshold; otherwise it takes the next identifier and stores a pending
/// proposal whose voting window opens after the voting delay and lasts the
/// voting period.
pub open spec fn propose_spec(
    s: GovernorState,
    proposer: AccountId,
    description: Vec<u8>,
    proposer_votes: i128,
    current_ledger: u32,
) -> Result<(GovernorState, u64), GovernorError> {
    match s.config {
        None => Err(GovernorError::NotInitialized),
        Some(c) => {
            let id = s.counter + 1;
            let start = current_ledger + c.voting_delay_ledgers;
            let end = start + c.voting_period_ledgers;
            if proposer_votes < c.proposal_threshold {
                Err(GovernorError::BelowProposalThreshold)
            } else if id > u64::MAX || start > u32::MAX || end > u32::MAX {
                Err(GovernorError::Overflow)
            } else {
                let p = Proposal {
                    id: id as u64,
                    proposer,
                    description,
                    for_votes: 0,
                    against_votes: 0,
                    abstain_votes: 0,
                    start_ledger: start as u32,
                    end_ledger: end as u32,
                    state: ProposalState::Pending,
                    eta_ledger: 0,
                };
                Ok(
                    (
                        GovernorState {
                            counter: id as u64,
                            proposals: s.proposals.insert(id as u64, p),
                            ..s
                        },
                        id as u64,
                    ),
                )
            }
        },
    }
}

/// The tally that a vote of kind `support` counts towards.
pub open spec fn tally_of(p: Proposal, support: u32) -> i128 {
    if support == 1 {
        p.for_votes
    } else if support == 0 {
        p.against_votes
    } else {
        p.abstain_votes
    }
}

/// `p` with `weight` added to the tally of kind `support`.
pub open spec fn with_vote(p: Proposal, support: u32, weight: i128) -> Proposal {
    let t = (tally_of(p, support) + weight) as i128;
    if support == 1 {
        Proposal { for_votes: t, ..p }
    } else if support == 0 {
        Proposal { against_votes: t, ..p }
    } else {
        Proposal { abstain_votes: t, ..p }
    }
}

/// `cast_vote` adds the voter's weight to one tally of an open proposal, at
/// most once per voter and proposal.
pub open spec fn cast_vote_spec(
    s: GovernorState,
    voter: Seq<u8>,
    id: u64,
    support: u32,
    weight: i128,
    current_ledger: u32,
) -> Result<GovernorState, GovernorError> {
    if support > 2 {
        Err(GovernorError::InvalidSupport)
    } else if weight <= 0 {
        Err(GovernorError::NoVotingPower)
    } else if s.voted.contains((id, voter)) {
        Err(GovernorError::AlreadyVoted)
    } else if !s.proposals.contains_key(id) {
        Err(GovernorError::ProposalNotFound)
    } else {
        let p = s.proposals[id];
        if current_ledger < p.start_ledger {
            Err(GovernorError::VotingNotStarted)
        } else if current_ledger > p.end_ledger {
            Err(GovernorError::VotingEnded)
        } else if tally_of(p, support) + weight > i128::MAX {
            Err(GovernorError::Overflow)
        } else {
            Ok(
                GovernorState {
                    proposals: s.proposals.insert(id, with_vote(p, support, weight)),
                    voted: s.voted.insert((id, voter)),
                    ..s
                },
            )
        }
    }
}

/// Whether `x` lies in the range of `i128`.
pub open spec fn fits_i128(x: int) -> bool {
    i128::MIN <= x <= i128::MAX
}

/// Whether comparing the votes for `p` with `quorum` percent of
/// `total_supply` leaves the range of `i128`.
pub open spec fn tally_overflows(p: Proposal, total_supply: i128, quorum: u32) -> bool {
    ||| !fits_i128(p.for_votes * 100)
    ||| !fits_i128(total_supply * quorum)
}

/// The outcome of a closed vote: the proposal succeeds when the votes for
/// it reach `quorum` percent of the token's total supply and outnumber the
/// votes against it.
pub open spec fn outcome(p: Proposal, total_supply: i128, quorum: u32) -> ProposalState {
    let quorum_met = p.for_votes * 100 >= total_supply * quorum;
    if quorum_met && p.for_votes > p.against_votes {
        ProposalState::Succeeded
    } else {
        ProposalState::Defeated
    }
}

/// `finalize` settles a proposal whose voting window has closed, against
/// the token's total supply.
pub open spec fn finalize_spec(s: GovernorState, id: u64, total_supply: i128, current_ledger: u32) -> Result<
    (GovernorState, ProposalState),
    GovernorError,
> {
    if !s.proposals.contains_key(id) {
        Err(GovernorError::ProposalNotFound)
    } else {
        let p = s.proposals[id];
        if current_ledger <= p.end_ledger {
            Err(GovernorError::VotingStillActive)
        } else if !(p.state == ProposalState::Active || p.state == ProposalState::Pending) {
            Err(GovernorError::AlreadyFinalized)
        } else {
            match s.config {
                None => Err(GovernorError::NotInitialized),
                Some(c) => {
                    if tally_overflows(p, total_supply, c.quorum_numerator) {
                        Err(GovernorError::Overflow)
                    } else {
                        let st = outcome(p, total_supply, c.quorum_numerator);
                        Ok(
                            (
                                GovernorState {
                                    proposals: s.proposals.insert(id, Proposal { state: st, ..p }),
                                    ..s
                                },
                                st,
                            ),
                        )
                    }
                },
            }
        }
    }
}

/// `queue` moves a succeeded proposal into the timelock, to be executable
/// `timelock_delay` ledgers from now.
pub open spec fn queue_spec(s: GovernorState, id: u64, timelock_delay: u32, current_ledger: u32) -> Result<
    (GovernorState, u32),
    GovernorError,
> {
    if !s.proposals.contains_key(id) {
        Err(GovernorError::ProposalNotFound)
    } else {
        let p = s.proposals[id];
        let eta = current_ledger + timelock_delay;
        if p.state != ProposalState::Succeeded {
            Err(GovernorError::NotSucceeded)
        } else if eta > u32::MAX {
            Err(GovernorError::Overflow)
        } else {
            Ok(
                (
                    GovernorState {
                        proposals: s.proposals.insert(
                            id,
                            Proposal { state: ProposalState::Queued, eta_ledger: eta as u32, ..p },
                        ),
                        ..s
                    },
                    eta as u32,
                ),
            )
        }
    }
}

/// `execute` carries out a queued proposal once its ETA has been reached.
pub open spec fn execute_spec(s: GovernorState, id: u64, current_ledger: u32) -> Result<
    GovernorState,
    GovernorError,
> {
    if !s.proposals.contains_key(id) {
        Err(GovernorError::ProposalNotFound)
    } else {
        let p = s.proposals[id];
        if p.state != ProposalState::Queued {
            Err(GovernorError::NotQueued)
        } else if current_ledger < p.eta_ledger {
            Err(GovernorError::TimelockNotExpired)
        } else {
            Ok(
                GovernorState {
                    proposals: s.proposals.insert(id, Proposal { state: ProposalState::Executed, ..p }),
                    ..s
                },
            )
        }
    }
}

/// `cancel` withdraws any proposal that has not been executed.
pub open spec fn cancel_spec(s: GovernorState, id: u64) -> Result<GovernorState, GovernorError> {
    if !s.proposals.contains_key(id) {
        Err(GovernorError::ProposalNotFound)
    } else {
        let p = s.proposals[id];
        if p.state == ProposalState::Executed {
            Err(GovernorError::AlreadyExecuted)
        } else {
            Ok(
                GovernorState {
                    proposals: s.proposals.insert(id, Proposal { state: ProposalState::Cancelled, ..p }),
                    ..s
                },
            )
        }
    }
}

/// The state of `p` at ledger `ledger`: a pending proposal is active while
/// its voting window is open.
pub open spec fn state_at(p: Proposal, ledger: u32) -> ProposalState {
    if p.state == ProposalState::Pending && p.start_ledger <= ledger <= p.end_ledger {
        ProposalState::Active
    } else {
        p.state
    }
}

/// The arguments of one call of `propose`: the proposer, the description,
/// the proposer's voting power and the current ledger.
pub type ProposeCall = (AccountId, Vec<u8>, i128, u32);

/// The storage and the identifiers returned after the calls of `propose` in
/// `calls`, one after the other; the first refusal where one is refused.
pub open spec fn propose_all(s: GovernorState, calls: Seq<ProposeCall>) -> Result<
    (GovernorState, Seq<u64>),
    GovernorError,
>
    decreases calls.len(),
{
    if calls.len() == 0 {
        Ok((s, Seq::empty()))
    } else {
        match propose_all(s, calls.drop_last()) {
            Err(e) => Err(e),
            Ok((t, ids)) => {
                let c = calls.last();
                match propose_spec(t, c.0, c.1, c.2, c.3) {
                    Err(e) => Err(e),
                    Ok((u, id)) => Ok((u, ids.push(id))),
                }
            },
        }
    }
}

/// After a run of successful proposals the counter has grown by their
/// number, and they received the identifiers that follow it, in order.
pub proof fn law_propose_run_counts(s: GovernorState, calls: Seq<ProposeCall>)
    ensures
        propose_all(s, calls) matches Ok((t, ids)) ==> {
            &&& t.counter == s.counter + calls.len()
            &&& ids.len() == calls.len()
            &&& forall|i: int| 0 <= i < ids.len() ==> #[trigger] ids[i] == s.counter + i + 1
        },
    decreases calls.len(),
{
    if calls.len() > 0 {
        law_propose_run_counts(s, calls.drop_last());
    }
}

/// Right after initialization the proposal count is the number of
/// proposals made since, and the last one made has that count as its
/// identifier.
pub proof fn law_proposal_count_after_initialize(s: GovernorState, config: GovernorConfig, calls: Seq<ProposeCall>)
    ensures
        initialize_spec(s, config) matches Ok(s0) ==> (propose_all(s0, calls) matches Ok((t, ids)) ==> {
            &&& t.counter == calls.len()
            &&& calls.len() > 0 ==> ids.last() == t.counter
        }),
{
    if let Ok(s0) = initialize_spec(s, config) {
        law_propose_run_counts(s0, calls);
    }
}

/// The moves a proposal's state may make in one call: none, the close of
/// voting, queueing after success, execution after queueing, or
/// cancellation before execution.
pub open spec fn allowed_move(a: ProposalState, b: ProposalState) -> bool {
    ||| a == b
    ||| (a == ProposalState::Pending || a == ProposalState::Active) && (b == ProposalState::Succeeded
        || b == ProposalState::Defeated)
    ||| a == ProposalState::Succeeded && b == ProposalState::Queued
    ||| a == ProposalState::Queued && b == ProposalState::Executed
    ||| a != ProposalState::Executed && b == ProposalState::Cancelled
}

/// From `s` to `t`, every stored proposal stays stored and moves only as the
/// lifecycle allows, and every new proposal starts out pending.
pub open spec fn lifecycle_step(s: GovernorState, t: GovernorState) -> bool {
    &&& forall|id: u64| #[trigger]
        s.proposals.contains_key(id) ==> t.proposals.contains_key(id) && allowed_move(
            s.proposals[id].state,
            t.proposals[id].state,
        )
    &&& forall|id: u64| #[trigger]
        t.proposals.contains_key(id) && !s.proposals.contains_key(id) ==> t.proposals[id].state
            == ProposalState::Pending
}

/// The counter bounds every stored identifier, and nothing is stored before
/// initialization.
pub open spec fn ids_within_counter(s: GovernorState) -> bool {
    &&& forall|id: u64| #[trigger] s.proposals.contains_key(id) ==> 1 <= id <= s.counter
    &&& s.config is None ==> s.counter == 0 && s.proposals.dom().is_empty()
}

/// Executed and cancelled proposals stay as they are.
pub proof fn law_executed_and_cancelled_are_final(b: ProposalState)
    ensures
        allowed_move(ProposalState::Executed, b) ==> b == ProposalState::Executed,
        allowed_move(ProposalState::Cancelled, b) ==> b == ProposalState::Cancelled,
{
}

/// The empty storage meets the counter invariant.
pub proof fn law_empty_ids_within_counter()
    ensures
        ids_within_counter(empty_governor()),
{
}

/// Initialization keeps the counter invariant and moves no proposal.
pub proof fn law_initialize_lifecycle(s: GovernorState, config: GovernorConfig)
    requires
        ids_within_counter(s),
    ensures
        initialize_spec(s, config) matches Ok(t) ==> ids_within_counter(t) && lifecycle_step(s, t),
{
}

/// A proposal takes a fresh identifier, one above the last, and starts out
/// pending; no stored proposal changes.
pub proof fn law_propose_lifecycle(
    s: GovernorState,
    proposer: AccountId,
    description: Vec<u8>,
    proposer_votes: i128,
    current_ledger: u32,
)
    requires
        ids_within_counter(s),
    ensures
        propose_spec(s, proposer, description, proposer_votes, current_ledger) matches Ok((t, id)) ==> {
            &&& proposer_votes >= s.config->Some_0.proposal_threshold
            &&& id == s.counter + 1
            &&& !s.proposals.contains_key(id)
            &&& t.counter == id
            &&& ids_within_counter(t)
            &&& lifecycle_step(s, t)
            &&& forall|k: u64| #[trigger] s.proposals.contains_key(k) ==> t.proposals[k] == s.proposals[k]
        },
{
}

/// A vote moves no proposal and keeps the counter invariant.
pub proof fn law_cast_vote_lifecycle(
    s: GovernorState,
    voter: Seq<u8>,
    id: u64,
    support: u32,
    weight: i128,
    current_ledger: u32,
)
    requires
        ids_within_counter(s),
    ensures
        cast_vote_spec(s, voter, id, support, weight, current_ledger) matches Ok(t) ==> ids_within_counter(t)
            && lifecycle_step(s, t),
{
}

/// Finalization only closes the vote of a pending or active proposal.
pub proof fn law_finalize_lifecycle(s: GovernorState, id: u64, total_supply: i128, current_ledger: u32)
    requires
        ids_within_counter(s),
    ensures
        finalize_spec(s, id, total_supply, current_ledger) matches Ok((t, st)) ==> {
            &&& ids_within_counter(t)
            &&& lifecycle_step(s, t)
            &&& current_ledger > s.proposals[id].end_ledger
            &&& t.proposals[id].state == st
        },
{
}

/// A closed vote succeeds exactly when the votes for reach the quorum
/// percentage of the total supply and outnumber the votes against;
/// otherwise it is defeated.
pub proof fn law_finalize_outcome(s: GovernorState, id: u64, total_supply: i128, current_ledger: u32)
    ensures
        finalize_spec(s, id, total_supply, current_ledger) matches Ok((t, st)) ==> {
            let p = s.proposals[id];
            let q = s.config->Some_0.quorum_numerator;
            &&& (st == ProposalState::Succeeded) <==> (p.for_votes * 100 >= total_supply * q
                && p.for_votes > p.against_votes)
            &&& (st == ProposalState::Succeeded || st == ProposalState::Defeated)
        },
{
}

/// Queueing only moves a succeeded proposal.
pub proof fn law_queue_lifecycle(s: GovernorState, id: u64, timelock_delay: u32, current_ledger: u32)
    requires
        ids_within_counter(s),
    ensures
        queue_spec(s, id, timelock_delay, current_ledger) matches Ok((t, eta)) ==> ids_within_counter(t)
            && lifecycle_step(s, t),
{
}

/// Execution only moves a queued proposal whose ETA has been reached.
pub proof fn law_execute_lifecycle(s: GovernorState, id: u64, current_ledger: u32)
    requires
        ids_within_counter(s),
    ensures
        execute_spec(s, id, current_ledger) matches Ok(t) ==> {
            &&& ids_within_counter(t)
            &&& lifecycle_step(s, t)
            &&& current_ledger >= s.proposals[id].eta_ledger
        },
{
}

/// Cancellation moves no executed proposal.
pub proof fn law_cancel_lifecycle(s: GovernorState, id: u64)
    requires
        ids_within_counter(s),
    ensures
        cancel_spec(s, id) matches Ok(t) ==> ids_within_counter(t) && lifecycle_step(s, t),
{
}

/// Cancelling succeeds exactly on a stored proposal that has not been
/// executed, and then leaves that proposal cancelled with everything else
/// about it, and every other proposal, as it was.
pub proof fn law_cancel_cancels(s: GovernorState, id: u64)
    ensures
        cancel_spec(s, id) is Ok <==> (s.proposals.contains_key(id) && s.proposals[id].state
            != ProposalState::Executed),
        cancel_spec(s, id) matches Ok(t) ==> {
            &&& t.proposals.contains_key(id)
            &&& t.proposals[id].state == ProposalState::Cancelled
            &&& t.proposals[id].eta_ledger == s.proposals[id].eta_ledger
            &&& t.proposals[id].for_votes == s.proposals[id].for_votes
            &&& forall|k: u64| k != id ==> #[trigger] t.proposals.get(k) == s.proposals.get(k)
        },
{
}

/// Execution succeeds exactly on a queued proposal whose ETA has been
/// reached, at that ledger or any later one, and then leaves that proposal
/// executed with everything else about it, and every other proposal, as it
/// was.
pub proof fn law_execute_executes(s: GovernorState, id: u64, current_ledger: u32)
    ensures
        execute_spec(s, id, current_ledger) is Ok <==> (s.proposals.contains_key(id) && s.proposals[id].state
            == ProposalState::Queued && current_ledger >= s.proposals[id].eta_ledger),
        execute_spec(s, id, current_ledger) matches Ok(t) ==> {
            &&& t.proposals.contains_key(id)
            &&& t.proposals[id].state == ProposalState::Executed
            &&& t.proposals[id].eta_ledger == s.proposals[id].eta_ledger
            &&& t.proposals[id].for_votes == s.proposals[id].for_votes
            &&& forall|k: u64| k != id ==> #[trigger] t.proposals.get(k) == s.proposals.get(k)
        },
{
}

/// Queueing succeeds on a succeeded proposal whose ETA fits in a ledger
/// number, and then leaves it queued with its ETA the timelock delay after
/// the current ledger.
pub proof fn law_queue_queues(s: GovernorState, id: u64, timelock_delay: u32, current_ledger: u32)
    ensures
        queue_spec(s, id, timelock_delay, current_ledger) is Ok <==> (s.proposals.contains_key(id)
            && s.proposals[id].state == ProposalState::Succeeded && current_ledger + timelock_delay <= u32::MAX),
        queue_spec(s, id, timelock_delay, current_ledger) matches Ok((t, eta)) ==> {
            &&& t.proposals.contains_key(id)
            &&& t.proposals[id].state == ProposalState::Queued
            &&& eta == current_ledger + timelock_delay
            &&& t.proposals[id].eta_ledger == eta
            &&& forall|k: u64| k != id ==> #[trigger] t.proposals.get(k) == s.proposals.get(k)
        },
{
}

/// A voter votes at most once on a proposal: once a vote is counted, every
/// further vote of the same voter on the same proposal is refused.
pub proof fn law_one_vote_per_voter(
    s: GovernorState,
    voter: Seq<u8>,
    id: u64,
    support: u32,
    weight: i128,
    current_ledger: u32,
    support2: u32,
    weight2: i128,
    current_ledger2: u32,
)
    ensures
        cast_vote_spec(s, voter, id, support, weight, current_ledger) matches Ok(t) ==> {
            &&& cast_vote_spec(t, voter, id, support2, weight2, current_ledger2) is Err
            &&& support2 <= 2 && weight2 > 0 ==> cast_vote_spec(t, voter, id, support2, weight2, current_ledger2)
                == Err::<GovernorState, GovernorError>(GovernorError::AlreadyVoted)
        },
{
}

/// No call forgets a recorded vote: the record of who voted on what only
/// grows.
pub proof fn law_votes_never_forgotten(
    s: GovernorState,
    voter: Seq<u8>,
    id: u64,
    support: u32,
    weight: i128,
    total_supply: i128,
    timelock_delay: u32,
    current_ledger: u32,
    call: ProposeCall,
)
    ensures
        cast_vote_spec(s, voter, id, support, weight, current_ledger) matches Ok(t) ==> s.voted.subset_of(t.voted)
            && t.voted.contains((id, voter)),
        propose_spec(s, call.0, call.1, call.2, call.3) matches Ok((t, _n)) ==> t.voted == s.voted,
        finalize_spec(s, id, total_supply, current_ledger) matches Ok((t, _st)) ==> t.voted == s.voted,
        queue_spec(s, id, timelock_delay, current_ledger) matches Ok((t, _eta)) ==> t.voted == s.voted,
        execute_spec(s, id, current_ledger) matches Ok(t) ==> t.voted == s.voted,
        cancel_spec(s, id) matches Ok(t) ==> t.voted == s.voted,
{
}

/// A counted vote adds exactly its weight to the one tally it names.
pub proof fn law_vote_adds_weight(
    s: GovernorState,
    voter: Seq<u8>,
    id: u64,
    support: u32,
    weight: i128,
    current_ledger: u32,
)
    ensures
        cast_vote_spec(s, voter, id, support, weight, current_ledger) matches Ok(t) ==> {
            let before = s.proposals[id];
            let after = t.proposals[id];
            &&& after.for_votes + after.against_votes + after.abstain_votes == before.for_votes
                + before.against_votes + before.abstain_votes + weight
            &&& support == 1 ==> after.for_votes == before.for_votes + weight
            &&& support == 0 ==> after.against_votes == before.against_votes + weight
            &&& support == 2 ==> after.abstain_votes == before.abstain_votes + weight
            &&& after.state == before.state
        },
{
}

/// A queued proposal can be executed exactly from the ledger at which the
/// timelock delay has passed.
pub proof fn law_queue_then_execute(
    s: GovernorState,
    id: u64,
    timelock_delay: u32,
    queued_at: u32,
    executed_at: u32,
)
    ensures
        queue_spec(s, id, timelock_delay, queued_at) matches Ok((t, eta)) ==> {
            &&& eta == queued_at + timelock_delay
            &&& (execute_spec(t, id, executed_at) is Ok <==> executed_at >= queued_at + timelock_delay)
        },
{
}

/// The storage of the governor contract.
pub struct StellarGovernor {
    config: Option<GovernorConfig>,
    counter: u64,
    proposals: HashMap<u64, Proposal>,
    voted: VoteRecord,
}

impl View for StellarGovernor {
    type V = GovernorState;

    closed spec fn view(&self) -> GovernorState {
        GovernorState {
            config: self.config,
            counter: self.counter,
            proposals: self.proposals@,
            voted: self.voted@,
        }
    }
}

impl StellarGovernor {
    /// Storage in which nothing has been written.
    pub fn new() -> (g: StellarGovernor)
        ensures
            g@ == empty_governor(),
    {
        StellarGovernor {
            config: None,
            counter: 0,
            proposals: HashMap::new(),
            voted: VoteRecord::new(),
        }
    }

    /// Storage holding the given parameters and counter, and no proposal
    /// or vote.
    pub fn from_parts(config: Option<GovernorConfig>, counter: u64) -> (g: StellarGovernor)
        ensures
            g@ == (GovernorState { config, counter, proposals: Map::empty(), voted: Set::empty() }),
    {
        StellarGovernor { config, counter, proposals: HashMap::new(), voted: VoteRecord::new() }
    }

    /// Adds a stored proposal under `id`.
    pub fn load_proposal(&mut self, id: u64, proposal: Proposal)
        ensures
            final(self)@ == (GovernorState { proposals: old(self)@.proposals.insert(id, proposal), ..old(self)@ }),
    {
        self.proposals.insert(id, proposal);
    }

    /// Adds a stored record that `voter` has voted on proposal `id`.
    pub fn load_vote(&mut self, id: u64, voter: AccountId)
        ensures
            final(self)@ == (GovernorState { voted: old(self)@.voted.insert((id, voter@)), ..old(self)@ }),
    {
        self.voted.insert(id, voter);
    }

    /// Records the governor's parameters: the voting token, the timelock,
    /// the voting delay and period in ledgers, the proposal threshold, and
    /// the quorum in percent.
    pub fn initialize(
        &mut self,
        voting_token: AccountId,
        timelock_contract: AccountId,
        voting_delay_ledgers: u32,
        voting_period_ledgers: u32,
        proposal_threshold: i128,
        quorum_numerator: u32,
    ) -> (r: Result<(), GovernorError>)
        ensures
            ({
                let config = GovernorConfig {
                    voting_token,
                    timelock_contract,
                    voting_delay_ledgers,
                    voting_period_ledgers,
                    proposal_threshold,
                    quorum_numerator,
                };
                match initialize_spec(old(self)@, config) {
                    Ok(next) => r is Ok && final(self)@ == next,
                    Err(e) => r == Err::<(), GovernorError>(e) && final(self)@ == old(self)@,
                }
            }),
    {
        if self.config.is_some() {
            return Err(GovernorError::AlreadyInitialized);
        }
        if quorum_numerator > 100 {
            return Err(GovernorError::QuorumTooHigh);
        }
        self.config = Some(
            GovernorConfig {
                voting_token,
                timelock_contract,
                voting_delay_ledgers,
                voting_period_ledgers,
                proposal_threshold,
                quorum_numerator,
            },
        );
        self.counter = 0;
        Ok(())
    }

    /// Creates a proposal at ledger `current_ledger` for a proposer holding
    /// `proposer_votes` of voting power, and returns its identifier.
    pub fn propose(
        &mut self,
        proposer: AccountId,
        description: Vec<u8>,
        proposer_votes: i128,
        current_ledger: u32,
    ) -> (r: Result<u64, GovernorError>)
        ensures
            match propose_spec(old(self)@, proposer, description, proposer_votes, current_ledger) {
                Ok((next, id)) => r == Ok::<u64, GovernorError>(id) && final(self)@ == next,
                Err(e) => r == Err::<u64, GovernorError>(e) && final(self)@ == old(self)@,
            },
    {
        let (delay, period, threshold) = match &self.config {
            None => return Err(GovernorError::NotInitialized),
            Some(c) => (c.voting_delay_ledgers, c.voting_period_ledgers, c.proposal_threshold),
        };
        if proposer_votes < threshold {
            return Err(GovernorError::BelowProposalThreshold);
        }
        let id = match self.counter.checked_add(1) {
            Some(v) => v,
            None => return Err(GovernorError::Overflow),
        };
        let start = match current_ledger.checked_add(delay) {
            Some(v) => v,
            None => return Err(GovernorError::Overflow),
        };
        let end = match start.checked_add(period) {
            Some(v) => v,
            None => return Err(GovernorError::Overflow),
        };
        let p = Proposal {
            id,
            proposer,
            description,
            for_votes: 0,
            against_votes: 0,
            abstain_votes: 0,
            start_ledger: start,
            end_ledger: end,
            state: ProposalState::Pending,
            eta_ledger: 0,
        };
        self.counter = id;
        self.proposals.insert(id, p);
        Ok(id)
    }

    /// Casts `voter`'s vote of `weight` on proposal `proposal_id` at ledger
    /// `current_ledger`: 0 against, 1 for, 2 abstain.
    pub fn cast_vote(
        &mut self,
        voter: &AccountId,
        proposal_id: u64,
        support: u32,
        weight: i128,
        current_ledger: u32,
    ) -> (r: Result<(), GovernorError>)
        ensures
            match cast_vote_spec(old(self)@, voter@, proposal_id, support, weight, current_ledger) {
                Ok(next) => r is Ok && final(self)@ == next,
                Err(e) => r == Err::<(), GovernorError>(e) && final(self)@ == old(self)@,
            },
    {
        if support > 2 {
            return Err(GovernorError::InvalidSupport);
        }
        if weight <= 0 {
            return Err(GovernorError::NoVotingPower);
        }
        if self.voted.contains(proposal_id, voter) {
            return Err(GovernorError::AlreadyVoted);
        }
        let tally = match self.proposals.get(&proposal_id) {
            None => return Err(GovernorError::ProposalNotFound),
            Some(p) => {
                if current_ledger < p.start_ledger {
                    return Err(GovernorError::VotingNotStarted);
                }
                if current_ledger > p.end_ledger {
                    return Err(GovernorError::VotingEnded);
                }
                if support == 1 {
                    p.for_votes
                } else if support == 0 {
                    p.against_votes
                } else {
                    p.abstain_votes
                }
            },
        };
        let new_tally = match tally.checked_add(weight) {
            Some(v) => v,
            None => return Err(GovernorError::Overflow),
        };
        let mut p = match self.proposals.remove(&proposal_id) {
            Some(p) => p,
            None => return Err(GovernorError::ProposalNotFound),
        };
        if support == 1 {
            p.for_votes = new_tally;
        } else if support == 0 {
            p.against_votes = new_tally;
        } else {
            p.abstain_votes = new_tally;
        }
        self.proposals.insert(proposal_id, p);
        self.voted.insert(proposal_id, voter.duplicate());
        proof {
            assert(self.proposals@ =~= old(self).proposals@.insert(
                proposal_id,
                with_vote(old(self).proposals@[proposal_id], support, weight),
            ));
        }
        Ok(())
    }

    /// Settles proposal `proposal_id` at ledger `current_ledger`, after its
    /// voting window, against the token's total supply `total_supply`, and
    /// returns its new state.
    pub fn finalize(&mut self, proposal_id: u64, total_supply: i128, current_ledger: u32) -> (r: Result<
        ProposalState,
        GovernorError,
    >)
        ensures
            match finalize_spec(old(self)@, proposal_id, total_supply, current_ledger) {
                Ok((next, st)) => r == Ok::<ProposalState, GovernorError>(st) && final(self)@ == next,
                Err(e) => r == Err::<ProposalState, GovernorError>(e) && final(self)@ == old(self)@,
            },
    {
        let (f, a) = match self.proposals.get(&proposal_id) {
            None => return Err(GovernorError::ProposalNotFound),
            Some(p) => {
                if current_ledger <= p.end_ledger {
                    return Err(GovernorError::VotingStillActive);
                }
                if !(p.state == ProposalState::Active || p.state == ProposalState::Pending) {
                    return Err(GovernorError::AlreadyFinalized);
                }
                (p.for_votes, p.against_votes)
            },
        };
        let quorum = match &self.config {
            None => return Err(GovernorError::NotInitialized),
            Some(c) => c.quorum_numerator,
        };
        let for_scaled = match f.checked_mul(100) {
            Some(v) => v,
            None => return Err(GovernorError::Overflow),
        };
        let needed = match total_supply.checked_mul(quorum as i128) {
            Some(v) => v,
            None => return Err(GovernorError::Overflow),
        };
        let st = if for_scaled >= needed && f > a {
            ProposalState::Succeeded
        } else {
            ProposalState::Defeated
        };
        let mut p = match self.proposals.remove(&proposal_id) {
            Some(p) => p,
            None => return Err(GovernorError::ProposalNotFound),
        };
        p.state = st;
        self.proposals.insert(proposal_id, p);
        proof {
            assert(self.proposals@ =~= old(self).proposals@.insert(
                proposal_id,
                Proposal { state: st, ..old(self).proposals@[proposal_id] },
            ));
        }
        Ok(st)
    }

    /// Queues succeeded proposal `proposal_id` at ledger `current_ledger`
    /// with a timelock of `timelock_delay` ledgers, and returns its ETA.
    pub fn queue(&mut self, proposal_id: u64, timelock_delay: u32, current_ledger: u32) -> (r: Result<
        u32,
        GovernorError,
    >)
        ensures
            match queue_spec(old(self)@, proposal_id, timelock_delay, current_ledger) {
                Ok((next, eta)) => r == Ok::<u32, GovernorError>(eta) && final(self)@ == next,
                Err(e) => r == Err::<u32, GovernorError>(e) && final(self)@ == old(self)@,
            },
    {
        match self.proposals.get(&proposal_id) {
            None => return Err(GovernorError::ProposalNotFound),
            Some(p) => {
                if p.state != ProposalState::Succeeded {
                    return Err(GovernorError::NotSucceeded);
                }
            },
        }
        let eta = match current_ledger.checked_add(timelock_delay) {
            Some(v) => v,
            None => return Err(GovernorError::Overflow),
        };
        let mut p = match self.proposals.remove(&proposal_id) {
            Some(p) => p,
            None => return Err(GovernorError::ProposalNotFound),
        };
        p.state = ProposalState::Queued;
        p.eta_ledger = eta;
        self.proposals.insert(proposal_id, p);
        proof {
            assert(self.proposals@ =~= old(self).proposals@.insert(
                proposal_id,
                Proposal {
                    state: ProposalState::Queued,
                    eta_ledger: eta,
                    ..old(self).proposals@[proposal_id]
                },
            ));
        }
        Ok(eta)
    }

    /// Executes queued proposal `proposal_id` at ledger `current_ledger`.
    pub fn execute(&mut self, proposal_id: u64, current_ledger: u32) -> (r: Result<(), GovernorError>)
        ensures
            match execute_spec(old(self)@, proposal_id, current_ledger) {
                Ok(next) => r is Ok && final(self)@ == next,
                Err(e) => r == Err::<(), GovernorError>(e) && final(self)@ == old(self)@,
            },
    {
        match self.proposals.get(&proposal_id) {
            None => return Err(GovernorError::ProposalNotFound),
            Some(p) => {
                if p.state != ProposalState::Queued {
                    return Err(GovernorError::NotQueued);
                }
                if current_ledger < p.eta_ledger {
                    return Err(GovernorError::TimelockNotExpired);
                }
            },
        }
        self.set_state(proposal_id, ProposalState::Executed);
        Ok(())
    }

    /// Cancels proposal `proposal_id`.
    pub fn cancel(&mut self, proposal_id: u64) -> (r: Result<(), GovernorError>)
        ensures
            match cancel_spec(old(self)@, proposal_id) {
                Ok(next) => r is Ok && final(self)@ == next,
                Err(e) => r == Err::<(), GovernorError>(e) && final(self)@ == old(self)@,
            },
    {
        match self.proposals.get(&proposal_id) {
            None => return Err(GovernorError::ProposalNotFound),
            Some(p) => {
                if p.state == ProposalState::Executed {
                    return Err(GovernorError::AlreadyExecuted);
                }
            },
        }
        self.set_state(proposal_id, ProposalState::Cancelled);
        Ok(())
    }

    /// Sets the state of stored proposal `proposal_id`.
    fn set_state(&mut self, proposal_id: u64, st: ProposalState)
        requires
            old(self)@.proposals.contains_key(proposal_id),
        ensures
            final(self)@ == (GovernorState {
                proposals: old(self)@.proposals.insert(
                    proposal_id,
                    Proposal { state: st, ..old(self)@.proposals[proposal_id] },
                ),
                ..old(self)@
            }),
    {
        match self.proposals.remove(&proposal_id) {
            Some(p) => {
                let mut p = p;
                p.state = st;
                self.proposals.insert(proposal_id, p);
                proof {
                    assert(self.proposals@ =~= old(self).proposals@.insert(
                        proposal_id,
                        Proposal { state: st, ..old(self).proposals@[proposal_id] },
                    ));
                }
            },
            None => {},
        }
    }

    /// Proposal `id`.
    pub fn get_proposal(&self, id: u64) -> (r: Result<&Proposal, GovernorError>)
        ensures
            match r {
                Ok(p) => self@.proposals.contains_key(id) && *p == self@.proposals[id],
                Err(e) => !self@.proposals.contains_key(id) && e == GovernorError::ProposalNotFound,
            },
    {
        match self.proposals.get(&id) {
            Some(p) => Ok(p),
            None => Err(GovernorError::ProposalNotFound),
        }
    }

    /// The state of proposal `id` at ledger `current_ledger`.
    pub fn proposal_state(&self, id: u64, current_ledger: u32) -> (r: Result<ProposalState, GovernorError>)
        ensures
            match r {
                Ok(st) => self@.proposals.contains_key(id) && st == state_at(self@.proposals[id], current_ledger),
                Err(e) => !self@.proposals.contains_key(id) && e == GovernorError::ProposalNotFound,
            },
    {
        match self.proposals.get(&id) {
            Some(p) => {
                if p.state == ProposalState::Pending && p.start_ledger <= current_ledger && current_ledger
                    <= p.end_ledger {
                    Ok(ProposalState::Active)
                } else {
                    Ok(p.state)
                }
            },
            None => Err(GovernorError::ProposalNotFound),
        }
    }

    /// The number of proposals created so far.
    pub fn proposal_count(&self) -> (n: u64)
        ensures
            n == self@.counter,
    {
        self.counter
    }
}

} // verus!
