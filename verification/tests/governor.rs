use stellargov::account::AccountId;
use stellargov::governor::{GovernorError, ProposalState, StellarGovernor};

fn account(name: &str) -> AccountId {
    AccountId::new(name.as_bytes().to_vec())
}

fn init(g: &mut StellarGovernor, delay: u32, period: u32, threshold: i128, quorum: u32) -> Result<(), GovernorError> {
    g.initialize(account("CTOKEN"), account("CTIMELOCK"), delay, period, threshold, quorum)
}

fn governor() -> StellarGovernor {
    let token = account("CTOKEN");
    let timelock = account("CTIMELOCK");
    let mut g = StellarGovernor::new();
    g.initialize(token, timelock, 0u32, 100u32, 1000i128, 4u32).unwrap();
    g
}

#[test]
fn propose_and_vote() {
    let proposer = account("GPROPOSER");
    let voter = account("GVOTER");
    let (token, timelock) = (account("CTOKEN"), account("CTIMELOCK"));
    let mut g = StellarGovernor::new();
    g.initialize(token, timelock, 0u32, 100u32, 1000i128, 4u32).unwrap();
    let desc = b"Increase protocol fee from 0.1% to 0.2%".to_vec();
    let pid = g.propose(proposer, desc, 1_000, 0).unwrap();

    g.cast_vote(&voter, pid, 1u32, 5000i128, 0).unwrap(); // For
    assert_eq!(g.get_proposal(pid).unwrap().for_votes, 5000);
}

#[test]
fn cancelled_proposal() {
    let proposer = account("GPROPOSER");
    let (token, timelock) = (account("CTOKEN"), account("CTIMELOCK"));
    let mut g = StellarGovernor::new();
    g.initialize(token, timelock, 0u32, 100u32, 1000i128, 4u32).unwrap();
    let desc = b"Test cancel".to_vec();
    let pid = g.propose(proposer, desc, 1_000, 0).unwrap();
    g.cancel(pid).unwrap();
    assert_eq!(g.get_proposal(pid).unwrap().state, ProposalState::Cancelled);
}

#[test]
fn initialize_only_once_and_quorum_bounded() {
    let mut g = StellarGovernor::new();
    assert_eq!(init(&mut g, 0, 100, 1000, 101), Err(GovernorError::QuorumTooHigh));
    assert_eq!(init(&mut g, 0, 100, 1000, 100), Ok(()));
    assert_eq!(init(&mut g, 0, 100, 1000, 4), Err(GovernorError::AlreadyInitialized));
    assert_eq!(g.proposal_count(), 0);
}

#[test]
fn propose_requires_initialization() {
    let mut g = StellarGovernor::new();
    assert_eq!(g.propose(account("GP"), b"x".to_vec(), 1_000, 0), Err(GovernorError::NotInitialized));
    assert_eq!(g.proposal_count(), 0);
}

#[test]
fn propose_sets_window_and_counts() {
    let mut g = StellarGovernor::new();
    init(&mut g, 17_280, 120_960, 0, 4).unwrap();
    let first = g.propose(account("GP"), b"first".to_vec(), 1_000, 1_000).unwrap();
    let second = g.propose(account("GQ"), b"second".to_vec(), 1_000, 2_000).unwrap();
    assert_eq!((first, second), (1, 2));
    assert_eq!(g.proposal_count(), 2);
    let p = g.get_proposal(first).unwrap();
    assert_eq!(p.id, 1);
    assert_eq!(p.start_ledger, 18_280);
    assert_eq!(p.end_ledger, 139_240);
    assert_eq!(p.state, ProposalState::Pending);
    assert_eq!(p.eta_ledger, 0);
    assert_eq!(p.description, b"first".to_vec());
    assert_eq!(p.proposer.as_bytes(), b"GP");
    assert_eq!((p.for_votes, p.against_votes, p.abstain_votes), (0, 0, 0));
}

#[test]
fn propose_refuses_ledger_overflow() {
    let mut g = StellarGovernor::new();
    init(&mut g, 10, 10, 0, 4).unwrap();
    assert_eq!(g.propose(account("GP"), b"x".to_vec(), 1_000, u32::MAX - 15), Err(GovernorError::Overflow));
    assert_eq!(g.propose(account("GP"), b"x".to_vec(), 1_000, u32::MAX - 5), Err(GovernorError::Overflow));
    assert_eq!(g.proposal_count(), 0);
    assert_eq!(g.propose(account("GP"), b"x".to_vec(), 1_000, u32::MAX - 20), Ok(1));
}

#[test]
fn votes_are_counted_by_kind() {
    let mut g = governor();
    let pid = g.propose(account("GP"), b"x".to_vec(), 1_000, 0).unwrap();
    g.cast_vote(&account("GA"), pid, 0, 30, 10).unwrap();
    g.cast_vote(&account("GB"), pid, 1, 50, 20).unwrap();
    g.cast_vote(&account("GC"), pid, 2, 7, 100).unwrap();
    let p = g.get_proposal(pid).unwrap();
    assert_eq!((p.for_votes, p.against_votes, p.abstain_votes), (50, 30, 7));
    assert_eq!(p.state, ProposalState::Pending);
}

#[test]
fn cast_vote_errors() {
    let mut g = StellarGovernor::new();
    init(&mut g, 10, 100, 0, 4).unwrap();
    let pid = g.propose(account("GP"), b"x".to_vec(), 1_000, 0).unwrap();
    let v = account("GV");
    assert_eq!(g.cast_vote(&v, pid, 3, 10, 10), Err(GovernorError::InvalidSupport));
    assert_eq!(g.cast_vote(&v, pid, 1, 0, 10), Err(GovernorError::NoVotingPower));
    assert_eq!(g.cast_vote(&v, 99, 1, 10, 10), Err(GovernorError::ProposalNotFound));
    assert_eq!(g.cast_vote(&v, pid, 1, 10, 9), Err(GovernorError::VotingNotStarted));
    assert_eq!(g.cast_vote(&v, pid, 1, 10, 111), Err(GovernorError::VotingEnded));
    assert_eq!(g.cast_vote(&v, pid, 1, 10, 110), Ok(()));
    assert_eq!(g.cast_vote(&v, pid, 0, 10, 50), Err(GovernorError::AlreadyVoted));
    assert_eq!(g.cast_vote(&account("GW"), pid, 1, i128::MAX, 50), Err(GovernorError::Overflow));
    assert_eq!(g.get_proposal(pid).unwrap().for_votes, 10);
}

#[test]
fn one_vote_per_voter_and_proposal() {
    let mut g = governor();
    let p1 = g.propose(account("GP"), b"one".to_vec(), 1_000, 0).unwrap();
    let p2 = g.propose(account("GP"), b"two".to_vec(), 1_000, 0).unwrap();
    let v = account("GV");
    g.cast_vote(&v, p1, 1, 10, 0).unwrap();
    assert_eq!(g.cast_vote(&v, p1, 1, 10, 0), Err(GovernorError::AlreadyVoted));
    assert_eq!(g.cast_vote(&v, p2, 1, 10, 0), Ok(()));
}

#[test]
fn finalize_succeeds_with_quorum_and_majority() {
    let mut g = governor();
    let pid = g.propose(account("GP"), b"x".to_vec(), 1_000, 0).unwrap();
    g.cast_vote(&account("GA"), pid, 1, 60, 0).unwrap();
    g.cast_vote(&account("GB"), pid, 0, 40, 0).unwrap();
    assert_eq!(g.finalize(pid, 1_000, 100), Err(GovernorError::VotingStillActive));
    assert_eq!(g.finalize(pid, 1_000, 101), Ok(ProposalState::Succeeded));
    assert_eq!(g.get_proposal(pid).unwrap().state, ProposalState::Succeeded);
    assert_eq!(g.finalize(pid, 1_000, 200), Err(GovernorError::AlreadyFinalized));
}

#[test]
fn finalize_defeats_without_votes_or_majority() {
    let mut g = governor();
    let empty = g.propose(account("GP"), b"none".to_vec(), 1_000, 0).unwrap();
    assert_eq!(g.finalize(empty, 1_000, 101), Ok(ProposalState::Defeated));
    let tie = g.propose(account("GP"), b"tie".to_vec(), 1_000, 0).unwrap();
    g.cast_vote(&account("GA"), tie, 1, 50, 0).unwrap();
    g.cast_vote(&account("GB"), tie, 0, 50, 0).unwrap();
    assert_eq!(g.finalize(tie, 1_000, 101), Ok(ProposalState::Defeated));
    assert_eq!(g.finalize(77, 1_000, 101), Err(GovernorError::ProposalNotFound));
}

#[test]
fn finalize_applies_quorum_percentage() {
    let mut g = StellarGovernor::new();
    init(&mut g, 0, 10, 0, 60).unwrap();
    // 55 for out of a supply of 100: majority, but below 60 percent
    let low = g.propose(account("GP"), b"low".to_vec(), 1_000, 0).unwrap();
    g.cast_vote(&account("GA"), low, 1, 55, 0).unwrap();
    g.cast_vote(&account("GB"), low, 2, 45, 0).unwrap();
    assert_eq!(g.finalize(low, 100, 11), Ok(ProposalState::Defeated));
    // 60 for out of a supply of 100: exactly the quorum
    let exact = g.propose(account("GP"), b"exact".to_vec(), 1_000, 0).unwrap();
    g.cast_vote(&account("GA"), exact, 1, 60, 0).unwrap();
    g.cast_vote(&account("GB"), exact, 2, 40, 0).unwrap();
    assert_eq!(g.finalize(exact, 100, 11), Ok(ProposalState::Succeeded));
}

#[test]
fn finalize_refuses_tally_overflow() {
    let mut g = governor();
    let pid = g.propose(account("GP"), b"x".to_vec(), 1_000, 0).unwrap();
    g.cast_vote(&account("GA"), pid, 1, i128::MAX / 50, 0).unwrap();
    assert_eq!(g.finalize(pid, 1_000, 101), Err(GovernorError::Overflow));
    assert_eq!(g.get_proposal(pid).unwrap().state, ProposalState::Pending);
    let other = g.propose(account("GP"), b"y".to_vec(), 1_000, 0).unwrap();
    g.cast_vote(&account("GB"), other, 1, 10, 0).unwrap();
    assert_eq!(g.finalize(other, i128::MAX / 2, 101), Err(GovernorError::Overflow));
}

#[test]
fn quorum_is_a_share_of_total_supply() {
    let mut g = governor();
    let pid = g.propose(account("GP"), b"x".to_vec(), 1_000, 0).unwrap();
    g.cast_vote(&account("GA"), pid, 1, 1, 0).unwrap();
    // one vote for, none against, but 4 percent of a supply of 1000 is 40
    assert_eq!(g.finalize(pid, 1_000, 101), Ok(ProposalState::Defeated));
    let big = g.propose(account("GP"), b"y".to_vec(), 1_000, 0).unwrap();
    g.cast_vote(&account("GA"), big, 1, 40, 0).unwrap();
    assert_eq!(g.finalize(big, 1_000, 101), Ok(ProposalState::Succeeded));
}

#[test]
fn propose_requires_threshold_voting_power() {
    let mut g = governor();
    assert_eq!(g.propose(account("GP"), b"x".to_vec(), 999, 0), Err(GovernorError::BelowProposalThreshold));
    assert_eq!(g.propose(account("GP"), b"x".to_vec(), 0, 0), Err(GovernorError::BelowProposalThreshold));
    assert_eq!(g.proposal_count(), 0);
    assert!(g.get_proposal(1).is_err());
    assert_eq!(g.propose(account("GP"), b"x".to_vec(), 1_000, 0), Ok(1));
}

#[test]
fn proposal_is_active_during_its_window() {
    let mut g = StellarGovernor::new();
    init(&mut g, 10, 100, 0, 4).unwrap();
    let pid = g.propose(account("GP"), b"x".to_vec(), 0, 0).unwrap();
    assert_eq!(g.proposal_state(pid, 9), Ok(ProposalState::Pending));
    assert_eq!(g.proposal_state(pid, 10), Ok(ProposalState::Active));
    assert_eq!(g.proposal_state(pid, 110), Ok(ProposalState::Active));
    assert_eq!(g.proposal_state(pid, 111), Ok(ProposalState::Pending));
    assert_eq!(g.get_proposal(pid).unwrap().state, ProposalState::Pending);
    g.cancel(pid).unwrap();
    assert_eq!(g.proposal_state(pid, 50), Ok(ProposalState::Cancelled));
    assert_eq!(g.proposal_state(pid + 1, 50), Err(GovernorError::ProposalNotFound));
}

#[test]
fn proposal_count_counts_proposals() {
    let mut g = governor();
    for k in 1..=5u64 {
        assert_eq!(g.propose(account("GP"), b"x".to_vec(), 1_000, 0), Ok(k));
        assert_eq!(g.proposal_count(), k);
    }
    assert_eq!(g.propose(account("GP"), b"x".to_vec(), 1, 0), Err(GovernorError::BelowProposalThreshold));
    assert_eq!(g.proposal_count(), 5);
}

#[test]
fn queue_and_execute_after_eta() {
    let mut g = governor();
    let pid = g.propose(account("GP"), b"x".to_vec(), 1_000, 0).unwrap();
    assert_eq!(g.queue(pid, 50, 0), Err(GovernorError::NotSucceeded));
    g.cast_vote(&account("GA"), pid, 1, 100, 0).unwrap();
    g.finalize(pid, 1_000, 101).unwrap();
    assert_eq!(g.execute(pid, 500), Err(GovernorError::NotQueued));
    assert_eq!(g.queue(pid, 50, 200), Ok(250));
    assert_eq!(g.get_proposal(pid).unwrap().eta_ledger, 250);
    assert_eq!(g.execute(pid, 249), Err(GovernorError::TimelockNotExpired));
    assert_eq!(g.execute(pid, 250), Ok(()));
    assert_eq!(g.get_proposal(pid).unwrap().state, ProposalState::Executed);
    assert_eq!(g.cancel(pid), Err(GovernorError::AlreadyExecuted));
    assert_eq!(g.execute(pid, 300), Err(GovernorError::NotQueued));
}

#[test]
fn queue_refuses_eta_overflow() {
    let mut g = governor();
    let pid = g.propose(account("GP"), b"x".to_vec(), 1_000, 0).unwrap();
    g.cast_vote(&account("GA"), pid, 1, 100, 0).unwrap();
    g.finalize(pid, 1_000, 101).unwrap();
    assert_eq!(g.queue(pid, 10, u32::MAX - 5), Err(GovernorError::Overflow));
    assert_eq!(g.get_proposal(pid).unwrap().state, ProposalState::Succeeded);
}

#[test]
fn missing_proposals_are_reported() {
    let mut g = governor();
    assert!(g.get_proposal(1).is_err());
    assert_eq!(g.queue(1, 1, 0), Err(GovernorError::ProposalNotFound));
    assert_eq!(g.execute(1, 0), Err(GovernorError::ProposalNotFound));
    assert_eq!(g.cancel(1), Err(GovernorError::ProposalNotFound));
}

#[test]
fn finalize_requires_initialization() {
    let mut g = StellarGovernor::from_parts(None, 0);
    let mut stored = StellarGovernor::new();
    init(&mut stored, 0, 1, 0, 4).unwrap();
    stored.propose(account("GP"), b"x".to_vec(), 1_000, 0).unwrap();
    let p = stored.get_proposal(1).unwrap();
    g.load_proposal(1, stellargov::governor::Proposal {
        id: p.id,
        proposer: p.proposer.clone(),
        description: p.description.clone(),
        for_votes: p.for_votes,
        against_votes: p.against_votes,
        abstain_votes: p.abstain_votes,
        start_ledger: p.start_ledger,
        end_ledger: p.end_ledger,
        state: p.state,
        eta_ledger: p.eta_ledger,
    });
    assert_eq!(g.finalize(1, 1_000, 5), Err(GovernorError::NotInitialized));
    g.load_vote(1, account("GV"));
    assert_eq!(g.cast_vote(&account("GV"), 1, 1, 5, 0), Err(GovernorError::AlreadyVoted));
}

#[test]
fn cancelled_proposals_stay_cancelled() {
    let mut g = governor();
    let pid = g.propose(account("GP"), b"x".to_vec(), 1_000, 0).unwrap();
    g.cast_vote(&account("GA"), pid, 1, 100, 0).unwrap();
    g.cancel(pid).unwrap();
    assert_eq!(g.finalize(pid, 1_000, 101), Err(GovernorError::AlreadyFinalized));
    assert_eq!(g.queue(pid, 10, 101), Err(GovernorError::NotSucceeded));
    assert_eq!(g.execute(pid, 500), Err(GovernorError::NotQueued));
    assert_eq!(g.cancel(pid), Ok(()));
    assert_eq!(g.get_proposal(pid).unwrap().state, ProposalState::Cancelled);
}

#[test]
fn queued_proposals_can_still_be_cancelled() {
    let mut g = governor();
    let pid = g.propose(account("GP"), b"x".to_vec(), 1_000, 0).unwrap();
    g.cast_vote(&account("GA"), pid, 1, 100, 0).unwrap();
    g.finalize(pid, 1_000, 101).unwrap();
    g.queue(pid, 10, 101).unwrap();
    assert_eq!(g.cancel(pid), Ok(()));
    assert_eq!(g.execute(pid, 500), Err(GovernorError::NotQueued));
}
