use stellargov::account::AccountId;
use stellargov::timelock::{OperationState, StellarTimelock, TimelockError};

fn account(name: &str) -> AccountId {
    AccountId::new(name.as_bytes().to_vec())
}

fn timelock(min_delay: u32) -> StellarTimelock {
    let mut t = StellarTimelock::new();
    t.initialize(account("CGOVERNOR"), min_delay).unwrap();
    t
}

#[test]
fn schedule_and_check_ready() {
    let governor = account("CGOVERNOR");
    let target = account("CTARGET");
    let proposer = account("GPROPOSER");
    let mut t = StellarTimelock::new();
    t.initialize(governor, 100u32).unwrap();
    let fname = b"set_fee".to_vec();
    let id = t.schedule(target, fname, 100u32, proposer, 0).unwrap();
    // Not ready yet (ETA is in the future for ledger sequence 0+100)
    let op = t.get_operation(id).unwrap();
    assert_eq!(op.state, OperationState::Pending);
}

#[test]
fn initialize_checks_min_delay_and_runs_once() {
    let mut t = StellarTimelock::new();
    assert!(t.governor().is_none());
    assert_eq!(t.initialize(account("CGOVERNOR"), 99), Err(TimelockError::MinDelayTooShort));
    assert_eq!(t.initialize(account("CGOVERNOR"), 100), Ok(()));
    assert_eq!(t.initialize(account("CGOVERNOR"), 500), Err(TimelockError::AlreadyInitialized));
    assert_eq!(t.governor().unwrap().as_bytes(), b"CGOVERNOR");
}

#[test]
fn schedule_sets_eta_and_identifiers() {
    let mut t = timelock(100);
    let a = t.schedule(account("CT"), b"a".to_vec(), 150, account("GP"), 1_000).unwrap();
    let b = t.schedule(account("CT"), b"b".to_vec(), 100, account("GP"), 2_000).unwrap();
    assert_eq!((a, b), (1, 2));
    let op = t.get_operation(a).unwrap();
    assert_eq!(op.id, 1);
    assert_eq!(op.eta_ledger, 1_150);
    assert_eq!(op.function_name, b"a".to_vec());
    assert_eq!(op.target.as_bytes(), b"CT");
    assert_eq!(op.proposer.as_bytes(), b"GP");
    assert_eq!(t.get_operation(b).unwrap().eta_ledger, 2_100);
}

#[test]
fn schedule_errors() {
    let mut u = StellarTimelock::new();
    assert_eq!(u.schedule(account("CT"), b"f".to_vec(), 100, account("GP"), 0), Err(TimelockError::NotInitialized));
    let mut t = timelock(200);
    assert_eq!(t.schedule(account("CT"), b"f".to_vec(), 199, account("GP"), 0), Err(TimelockError::DelayTooShort));
    assert_eq!(t.schedule(account("CT"), b"f".to_vec(), 200, account("GP"), u32::MAX - 100), Err(TimelockError::Overflow));
    assert!(t.get_operation(1).is_err());
}

#[test]
fn execute_waits_for_eta() {
    let mut t = timelock(100);
    let id = t.schedule(account("CT"), b"f".to_vec(), 100, account("GP"), 10).unwrap();
    assert_eq!(t.is_ready(id, 109), Ok(false));
    assert_eq!(t.execute(id, 109), Err(TimelockError::NotReady));
    assert_eq!(t.is_ready(id, 110), Ok(true));
    assert_eq!(t.execute(id, 110), Ok(()));
    assert_eq!(t.get_operation(id).unwrap().state, OperationState::Done);
    assert_eq!(t.is_ready(id, 500), Ok(false));
    assert_eq!(t.execute(id, 500), Err(TimelockError::NotPending));
    assert_eq!(t.cancel(id), Err(TimelockError::NotPending));
}

#[test]
fn cancelled_operations_cannot_run() {
    let mut t = timelock(100);
    let id = t.schedule(account("CT"), b"f".to_vec(), 100, account("GP"), 0).unwrap();
    assert_eq!(t.cancel(id), Ok(()));
    assert_eq!(t.get_operation(id).unwrap().state, OperationState::Cancelled);
    assert_eq!(t.execute(id, 1_000), Err(TimelockError::NotPending));
    assert_eq!(t.is_ready(id, 1_000), Ok(false));
}

#[test]
fn missing_operations_are_reported() {
    let mut t = timelock(100);
    assert_eq!(t.execute(5, 0), Err(TimelockError::OperationNotFound));
    assert_eq!(t.cancel(5), Err(TimelockError::OperationNotFound));
    assert_eq!(t.is_ready(5, 0), Err(TimelockError::OperationNotFound));
    let mut u = StellarTimelock::from_parts(None, 0);
    assert_eq!(u.cancel(5), Err(TimelockError::NotInitialized));
}
