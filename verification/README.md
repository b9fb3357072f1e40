# Opinions

The rules of an opinion market, written in Rust and verified with Verus.

YES and NO shares trade against an automated market maker and redeem at the
final vote percentage. The library holds everything that decides: what a trade
costs, who may trade, what moves on the ledger, how a market settles, how votes
are scored, which configuration a running market accepts, and how money is moved
back when a decision was wrong. Each function states in its contract what it
returns for every input, and Verus proves it.

## Layout

- `src/money.rs`, `src/amm.rs`, `src/ledger.rs`, `src/resolution.rs`,
  `src/market.rs`: money, prices, the double-entry ledger, settlement and the
  lifecycle of a market. Rounding favors the pool.
- `src/scoring.rs`, `src/reputation.rs`, `src/ranking.rs`, `src/fee_policy.rs`,
  `src/pricing.rs`, `src/integrity.rs`: scores, tiers, fees and vote sweeps.
- `src/moderation.rs`, `src/mentions.rs`, `src/drafting.rs`: texts and drafts.
- `src/place_trade.rs`, `src/preview_trade.rs`, `src/seed_market.rs`: the trade
  path and seeding.
- `src/ops/`: the configuration catalog and its two write paths, fee overrides,
  unwinds and their reversals, remedial credits, replayed jobs, alerts and
  their delivery, and the chain reconciliation.
- `src/video/`: artifact jobs and share cards. `src/demo.rs`: the demo world.
- `src/json.rs`, `src/text.rs`, `src/clock.rs`, `src/identity.rs`,
  `src/digest.rs`, `src/unicode.rs`: plain values, and the few calls into outside
  crates that the rules rest on.
- `app/`: ports, and the loops that read what the rules ask for and write what
  they decide.
- `tests/`: the same rules on concrete values.

## Operations

An operation that reads and writes storage is a pure function from the request
and the facts read so far to the next step: something to read, a refusal, a
replay of an earlier answer, or the effect to commit. The loop around it, in
`app/`, only answers and commits. What an operation promises of every run (a
replay comes before every check, no money moves twice, two principals confirm
what one proposed) stands beside it as a proof function whose name begins with
`law_`.
