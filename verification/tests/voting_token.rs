use stellargov::account::{AccountId, AccountMap};
use stellargov::checkpoint::{Checkpoint, CheckpointList};
use stellargov::voting_token::{StellarVotingToken, TokenError};

fn account(name: &str) -> AccountId {
    AccountId::new(name.as_bytes().to_vec())
}

#[test]
fn mint_and_delegate() {
    let admin = account("GADMIN");
    let voter = account("GVOTER");
    let mut token = StellarVotingToken::new();
    token.initialize(admin, 0i128, 0).unwrap();
    token.mint(&voter, 10_000i128, 0).unwrap();
    assert_eq!(token.balance(&voter), 10_000);
    // No delegation yet — no votes
    assert_eq!(token.get_votes(&voter), 0);
    // Self-delegate to activate
    token.delegate(&voter, voter.clone()).unwrap();
    assert_eq!(token.get_votes(&voter), 10_000);
}

#[test]
fn transfer_updates_balances() {
    let admin = account("GADMIN");
    let alice = account("GALICE");
    let _bob = account("GBOB");
    let mut token = StellarVotingToken::new();
    token.initialize(admin.clone(), 5_000i128, 0).unwrap();
    token.transfer(&admin, &alice, 2_000i128, 0).unwrap();
    assert_eq!(token.balance(&admin), 3_000);
    assert_eq!(token.balance(&alice), 2_000);
}

#[test]
fn initialize_credits_admin_and_supply() {
    let admin = account("GADMIN");
    let mut token = StellarVotingToken::new();
    assert_eq!(token.total_supply(), 0);
    assert!(token.admin().is_none());
    token.initialize(admin.clone(), 7_500, 0).unwrap();
    assert_eq!(token.total_supply(), 7_500);
    assert_eq!(token.balance(&admin), 7_500);
    assert_eq!(token.admin().unwrap().as_bytes(), b"GADMIN");
}

#[test]
fn transfer_refuses_non_positive_amounts() {
    let admin = account("GADMIN");
    let alice = account("GALICE");
    let mut token = StellarVotingToken::new();
    token.initialize(admin.clone(), 100, 0).unwrap();
    assert_eq!(token.transfer(&admin, &alice, 0, 0), Err(TokenError::NonPositiveAmount));
    assert_eq!(token.transfer(&admin, &alice, -5, 0), Err(TokenError::NonPositiveAmount));
    assert_eq!(token.balance(&admin), 100);
    assert_eq!(token.balance(&alice), 0);
}

#[test]
fn transfer_refuses_more_than_balance() {
    let admin = account("GADMIN");
    let alice = account("GALICE");
    let mut token = StellarVotingToken::new();
    token.initialize(admin.clone(), 100, 0).unwrap();
    assert_eq!(token.transfer(&admin, &alice, 101, 0), Err(TokenError::InsufficientBalance));
    assert_eq!(token.transfer(&alice, &admin, 1, 0), Err(TokenError::InsufficientBalance));
    assert_eq!(token.balance(&admin), 100);
}

#[test]
fn transfer_refuses_recipient_overflow() {
    let rich = account("GRICH");
    let alice = account("GALICE");
    let mut balances = AccountMap::new();
    balances.insert(rich.clone(), i128::MAX);
    balances.insert(alice.clone(), 10);
    let mut token = StellarVotingToken::from_parts(
        Some(rich.clone()),
        i128::MAX,
        balances,
        AccountMap::new(),
        AccountMap::new(),
        AccountMap::new(),
    );
    assert_eq!(token.transfer(&alice, &rich, 1, 0), Err(TokenError::Overflow));
    assert_eq!(token.balance(&alice), 10);
    assert_eq!(token.balance(&rich), i128::MAX);
    // sending to oneself credits the balance as it stands after the debit
    assert_eq!(token.transfer(&rich, &rich, 5, 0), Ok(()));
    assert_eq!(token.balance(&rich), i128::MAX);
}

#[test]
fn transfer_to_self_keeps_balance() {
    let admin = account("GADMIN");
    let mut token = StellarVotingToken::new();
    token.initialize(admin.clone(), 500, 0).unwrap();
    token.transfer(&admin, &admin.clone(), 200, 0).unwrap();
    assert_eq!(token.balance(&admin), 500);
    assert_eq!(token.total_supply(), 500);
}

#[test]
fn mint_requires_initialization() {
    let voter = account("GVOTER");
    let mut token = StellarVotingToken::new();
    assert_eq!(token.mint(&voter, 10, 0), Err(TokenError::NotInitialized));
    assert_eq!(token.balance(&voter), 0);
    assert_eq!(token.total_supply(), 0);
}

#[test]
fn mint_refuses_overflow() {
    let admin = account("GADMIN");
    let voter = account("GVOTER");
    let mut token = StellarVotingToken::new();
    token.initialize(admin, i128::MAX - 5, 0).unwrap();
    assert_eq!(token.mint(&voter, 6, 0), Err(TokenError::Overflow));
    assert_eq!(token.balance(&voter), 0);
    assert_eq!(token.mint(&voter, 5, 0), Ok(()));
    assert_eq!(token.total_supply(), i128::MAX);
}

#[test]
fn mint_accepts_negative_amounts() {
    let admin = account("GADMIN");
    let mut token = StellarVotingToken::new();
    token.initialize(admin.clone(), 1_000, 0).unwrap();
    token.mint(&admin, -400, 0).unwrap();
    assert_eq!(token.balance(&admin), 600);
    assert_eq!(token.total_supply(), 600);
}

#[test]
fn supply_equals_sum_of_balances_after_activity() {
    let admin = account("GADMIN");
    let a = account("GA");
    let b = account("GB");
    let mut token = StellarVotingToken::new();
    token.initialize(admin.clone(), 1_000, 0).unwrap();
    token.mint(&a, 300, 0).unwrap();
    token.transfer(&admin, &b, 250, 0).unwrap();
    token.transfer(&a, &b, 100, 0).unwrap();
    token.delegate(&a, b.clone()).unwrap();
    let sum = token.balance(&admin) + token.balance(&a) + token.balance(&b);
    assert_eq!(sum, token.total_supply());
    assert_eq!(sum, 1_300);
}

#[test]
fn delegating_away_moves_votes() {
    let admin = account("GADMIN");
    let other = account("GOTHER");
    let mut token = StellarVotingToken::new();
    token.initialize(admin.clone(), 1_000, 0).unwrap();
    token.delegate(&admin, admin.clone()).unwrap();
    assert_eq!(token.get_votes(&admin), 1_000);
    token.delegate(&admin, other.clone()).unwrap();
    assert_eq!(token.get_votes(&admin), 0);
    assert_eq!(token.get_votes(&other), 1_000);
    assert_eq!(token.get_delegate(&admin).unwrap().as_bytes(), b"GOTHER");
    assert!(token.get_delegate(&other).is_none());
}

#[test]
fn account_identity_is_by_bytes() {
    let a1 = account("GSAME");
    let a2 = account("GSAME");
    let b = account("GOTHER");
    assert!(a1.same_as(&a2));
    assert!(!a1.same_as(&b));
    assert!(!a1.same_as(&account("GSAM")));
    assert_eq!(a1.duplicate().as_bytes(), b"GSAME");
}

#[test]
fn delegated_balances_add_up() {
    let admin = account("GADMIN");
    let a = account("GA");
    let b = account("GB");
    let mut token = StellarVotingToken::new();
    token.initialize(admin.clone(), 1_000, 1).unwrap();
    token.transfer(&admin, &a, 300, 2).unwrap();
    token.transfer(&admin, &b, 200, 3).unwrap();
    token.delegate(&a, b.clone()).unwrap();
    token.delegate(&b, b.clone()).unwrap();
    assert_eq!(token.get_votes(&b), 500);
    assert_eq!(token.get_votes(&a), 0);
    // balances moving between delegating accounts move the votes with them
    token.transfer(&a, &admin, 100, 4).unwrap();
    assert_eq!(token.get_votes(&b), 400);
    token.delegate(&admin, b.clone()).unwrap();
    assert_eq!(token.get_votes(&b), 1_000);
    token.mint(&a, 50, 5).unwrap();
    assert_eq!(token.get_votes(&b), 1_050);
    token.delegate(&a, a.clone()).unwrap();
    assert_eq!(token.get_votes(&b), 800);
    assert_eq!(token.get_votes(&a), 250);
}

#[test]
fn checkpoints_record_balance_history() {
    let admin = account("GADMIN");
    let alice = account("GALICE");
    let mut token = StellarVotingToken::new();
    token.initialize(admin.clone(), 5_000, 10).unwrap();
    token.transfer(&admin, &alice, 2_000, 20).unwrap();
    token.transfer(&alice, &admin, 500, 30).unwrap();
    token.mint(&alice, 100, 30).unwrap();
    assert_eq!(token.get_past_votes(&admin, 9), 0);
    assert_eq!(token.get_past_votes(&admin, 10), 5_000);
    assert_eq!(token.get_past_votes(&admin, 19), 5_000);
    assert_eq!(token.get_past_votes(&admin, 20), 3_000);
    assert_eq!(token.get_past_votes(&admin, 1_000), 3_500);
    assert_eq!(token.get_past_votes(&alice, 19), 0);
    assert_eq!(token.get_past_votes(&alice, 25), 2_000);
    assert_eq!(token.get_past_votes(&alice, 30), 1_600);
    assert_eq!(token.balance(&alice), 1_600);
    let cps = token.get_checkpoints(&alice);
    assert_eq!(cps.len(), 3);
    assert_eq!((cps[0].ledger, cps[0].votes), (20, 2_000));
    assert_eq!((cps[2].ledger, cps[2].votes), (30, 1_600));
    assert!(token.get_checkpoints(&account("GNOBODY")).is_empty());
}

#[test]
fn checkpoints_refuse_earlier_ledgers() {
    let admin = account("GADMIN");
    let alice = account("GALICE");
    let mut token = StellarVotingToken::new();
    token.initialize(admin.clone(), 100, 50).unwrap();
    assert_eq!(token.transfer(&admin, &alice, 10, 49), Err(TokenError::StaleLedger));
    assert_eq!(token.mint(&admin, 10, 49), Err(TokenError::StaleLedger));
    assert_eq!(token.balance(&admin), 100);
    assert_eq!(token.balance(&alice), 0);
    assert_eq!(token.transfer(&admin, &alice, 10, 50), Ok(()));
}

#[test]
fn delegation_refuses_voting_power_overflow() {
    let rich = account("GRICH");
    let poor = account("GPOOR");
    let mut balances = AccountMap::new();
    balances.insert(rich.clone(), i128::MAX);
    let mut votes = AccountMap::new();
    votes.insert(poor.clone(), 1);
    let mut token = StellarVotingToken::from_parts(
        Some(rich.clone()),
        i128::MAX,
        balances,
        AccountMap::new(),
        votes,
        AccountMap::new(),
    );
    assert_eq!(token.delegate(&rich, poor.clone()), Err(TokenError::Overflow));
    assert!(token.get_delegate(&rich).is_none());
    assert_eq!(token.get_votes(&poor), 1);
}

#[test]
fn checkpoint_lists_must_be_in_ledger_order() {
    let ordered = vec![Checkpoint { ledger: 1, votes: 5 }, Checkpoint { ledger: 1, votes: 7 }, Checkpoint { ledger: 4, votes: 2 }];
    let list = CheckpointList::from_checkpoints(ordered).unwrap();
    assert_eq!(list.lookup(0), 0);
    assert_eq!(list.lookup(1), 7);
    assert_eq!(list.lookup(3), 7);
    assert_eq!(list.lookup(4), 2);
    assert!(!list.accepts(3));
    assert!(list.accepts(4));
    let unordered = vec![Checkpoint { ledger: 2, votes: 5 }, Checkpoint { ledger: 1, votes: 7 }];
    assert!(CheckpointList::from_checkpoints(unordered).is_none());
}
