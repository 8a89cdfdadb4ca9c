# stellargov

Verified state models of four Soroban governance contracts: a voting token,
a governor, a timelock and a treasury.

- `src/` is the Verus library. Each contract is a struct holding the contents
  of its storage (`StellarVotingToken`, `StellarGovernor`, `StellarTimelock`,
  `StellarTreasury`). Every entry point is a method whose contract equates the
  new storage and the result with a spec function of the old storage and the
  arguments; a refused call returns an error and leaves the storage as it
  was. The `law_*` proof functions state what holds across calls: token supply
  accounting, delegated voting power, balance checkpoints, the proposal and
  operation lifecycles, one vote per voter, the timelock delays, and treasury
  balances. `checkpoint` keeps an account's balance history in ledger order
  and looks it up by binary search.
- `app/` is the Soroban contract layer: it reads the entries a call touches
  into the library's model, asks the host for authorisation, runs the verified
  transition, writes back the entries and publishes events.
- `tests/` exercise the library on concrete values.
