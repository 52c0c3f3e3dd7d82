# contracts

A prediction market on the price of an asset, in two round modes: Up/Down
(bettors pick a direction) and Precision (bettors predict the final price,
optionally through a commit-reveal). The decisions of the market are a
library verified with Verus; a Soroban contract around it keeps the state.

## Layout

- `src/` — the verified library. Every entry point is a function from the
  values it reads (the stored state, the caller's standing, the ledger) to
  the values it writes, with a contract over spec functions.
  - `common` — shared constants, pending-winnings accounting, and the
    order of participants by address.
  - `admin`, `access_control`, `governance`, `contract` — runtime modes and
    the policy gate, schema versions, oracle liveness and health, access
    lists, dual-control governance, oracle rotation and status queries.
  - `config`, `config_state`, `config_entry` — validation rules, fee models,
    the timelocked configuration and its entry points.
  - `round`, `betting`, `commitment` — opening rounds, bets, predictions,
    commit-reveal digests, sealed batch orders, early cash-out, minting.
  - `oracle`, `oracle_committee`, `attestation` — accepting single-oracle
    and multi-feed prices, the stake-weighted committee, the message an
    oracle signs and when its signature is checked.
  - `settlement`, `settlement_math`, `archive`, `insurance` — payouts,
    refunds, cancellation with coverage, disputes, claims, archiving, the
    insurance fund.
  - `settlement_laws`, `precision_laws`, `solvency_laws` — properties that
    span functions: conservation and solvency of payouts, winner selection.
- `tests/` — tests of the library on concrete values.
- `app/` — the Soroban contract: storage keys, caller authentication,
  events, the network-facing copies of the library's types, and the entry
  points that read storage, call the library and write back its results.

## Data held by the library

The library works on plain values. Users are numeric ids, and an address
enters only as the key it is ordered by. The lists the contract keeps in
the host's collections (participants, sorted prices, payouts, winners,
positions) are passed to the library as std `Vec`s; the host's own `Vec`
and `Map` stay in `app/`, which converts them at the boundary.
