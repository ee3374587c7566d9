# orbital

An N-asset "Orbital" automated market maker whose reserves live on a sphere,
`Σ(r - xᵢ)² = r²`, written in Verus: the arithmetic, the geometry, the pool
aggregate, allowlists, positions and the checks and state changes of the
instructions are proved against their contracts. The pool-level deposit and
withdrawal of the liquidity instructions are not part of the library.

## Layout

- `src/math/` — Q64.64 fixed point (`fixed_point.rs`, with the 256-bit products,
  long division and digit-by-digit square root behind it in `wide.rs`), the
  sphere (`sphere.rs`), the torus of consolidated ticks (`torus.rs`) and the
  closed-form output amount of a trade (`newton.rs`).
- `src/domain/amm/` — the pool aggregate: invariant check, cached geometry,
  seeding and re-fitting the sphere (`pool.rs`), swap execution with fees and
  slippage (`swap.rs`), and the rounding laws that tie seeding and re-fitting to
  the invariant check (`rounding.rs`).
- `src/domain/settlement.rs` — settlement policies (per-trade and daily limits)
  and the hash that identifies a settlement action.
- `src/instructions/` — what each on-chain instruction decides: the checks on
  its accounts and parameters and the new state it commits.
- `src/state/` — account records, among them the allowlist of a settlement
  policy with its add, remove and membership operations (`allowlist.rs`),
  liquidity positions (`position.rs`) and program-derived addresses
  (`address.rs`).
- `src/events.rs`, `src/errors.rs` — events and error codes.
- `app/` — the Anchor program around the library: account validation macros,
  token transfers, clocks, events and serialisation.

## Laws

Besides the contract of each function, `src/` states and proves laws that span
functions, among them: adding then subtracting is the identity; multiplying or
dividing by one changes nothing; the square root of a square is exact; a
swap rejected before the trade leaves the pool unchanged (later rejections
keep the writes made up to the failing step, as on-chain state is written in
place); an accepted swap conserves reserves
(in plus fee, out minus payout) and keeps the invariant; the fee never exceeds
the input; a tick crossing reversed is the opposite crossing; a policy never
lets a trade past its limits and its daily window resets after a day; a seeded
pool and a re-fitted pool pass their own invariant check; adding to or
removing from an allowlist admits or withdraws exactly that participant.
