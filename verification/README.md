# Core staking

Verified decisions of a staking program for digital assets. An owner stakes an asset of a
collection, earns a reward token for each full day, claims rewards while the asset stays staked,
and takes the asset out of staking after a freeze period.

- `src/` is the library, verified with Verus. `instructions/` holds the two instructions that pay
  out rewards, as machines whose steps name the next call to make; `accounts.rs` the rules on the
  accounts; `record.rs`, `attributes.rs` and `decimal.rs` the staking record and its text form;
  `plugins.rs` and `address.rs` what is read with the asset program's and the chain's own code;
  `laws/` what holds of the library as a whole.
- `app/` is the on-chain program around it. It takes the accounts apart, lets the library decide,
  and makes the calls.
- `tests/` runs the library on accounts in their real format.

A step that gives no answer (`None`) stands for a request that the program cannot finish: the
data of an account leads out of it, no update authority can be derived, or the token has more
decimals than an amount can scale to. The program aborts there.
