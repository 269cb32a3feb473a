# boundless

The decision logic of the Boundless proving market tools, written in Verus: what the prover,
broker, distributor, staking commands and rewards indexer compute, each function stated by a
contract over a mathematical model and proved.

## Layout

- `src/` is the verified library. Each module starts with a line saying what it covers:
  256-bit amounts (`u256`, `amounts`, `units`, `fixed_point`), addresses, sorted sets and maps
  (`address`, `sorted_set`, `sorted_map`, `sorting`), order prioritization (`prioritization`), block and
  event search (`block_search`, `patched`), the work-log, claim and mint flows of proof of
  verifiable work (`work_log`, `receipts`, `log_updater`, `claim`, `mint`), the mint
  calculator's reward computation (`mint_calculator`), staking
  (`staking`), the distributor (`distributor`), the Bento client (`bento`), deployments
  (`deployments`, `povw_deployments`), command-line configuration (`cli`) and the rewards
  indexer (`indexer`, `staking_views`, `delegation_views`, `db`).
- Calls into outside crates (`alloy-primitives`, `alloy-chains`, `rand`, `serde_json`) stand
  behind small trusted wrappers, each with a doc comment saying what its contract assumes.
- `tests/` runs the library on concrete values.
- `app/` is ordinary Rust around the library: serde copies of the API models, error responses,
  the confirmation prompt and the floating-point success estimate of the broker.
