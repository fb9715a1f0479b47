# tx_builder

The decision-making core of a Solana transaction builder, verified with Verus.

`src/` holds the library. Its own logic is proved against its contracts; the calls it
makes into outside crates go through small trusted wrappers whose contracts Verus takes
without proof (each one's doc comment says what it claims of the outside function):
`dashmap` (the program allow-list and the simulation cache), `solana-sdk` (program ids,
system and compute budget instructions, key parsing and printing, program address
derivation, message compilation, message header and keys, default signatures), `base64` (decoding), `sha2` (SHA-256), and
from std `str::to_lowercase` and `sort_unstable` on fee lists.

The modules:

- `config` — the builder configuration, its validation (with the exact messages), the
  program allow-list (a `dashmap::DashMap`) and the adaptive priority fee.
- `rate_limit` — token bucket, circuit breaker and retry policy, with their laws
  (capacity is never exceeded, failures open the circuit, successes close it again).
- `blockhash` — quorum voting on blockhashes and the cache of fetched blockhashes.
- `simulation` — cache keys (SHA-256 of the simulated message), the cache of simulated
  compute units (a `dashmap::DashMap`), compute unit limits and fatal simulation errors.
- `instructions` — the instruction order advance-nonce, compute budget, DEX, and its check.
- `external_api` — reading instructions from the JSON replies of PumpPortal and LetsBonk.
- `jito` — the dynamic tip and bundle preparation.
- `builder`, `flow`, `batch` — the builder's state (endpoint rotation, breakers, caches,
  counters) and the decisions taken between network calls: step functions for fetching
  a blockhash and for the pre-simulation, the order of a build's phases, and the order
  of a batch's results.
- `wsol` — the transaction that closes the wallet's wrapped SOL account.
- `solana`, `text`, `types`, `errors` — keys and instructions as plain values, string
  helpers, shared types and errors.

Time is a millisecond clock reading passed in by the caller; multipliers that the
configuration would naturally give as fractions are held in thousandths, and the retry
backoff is carried in billionths of a millisecond so that it is rounded once, at the end.

`app/` wraps the library for asynchronous use (locks, clock, task pool, the blockhash
fetch driven over any RPC endpoint type, buy and sell builds over a nonce pool, DEX APIs
and a simulator, the health probe, pre-flight checks and WSOL unwrapping), converts JSON
values, provides displayable errors and serialisable bundles, and keeps the
floating-point slippage predictor.
