# percolator-match

A matcher for perpetual markets, written in Verus. A liquidity provider sets up a
context account; traders' requests are then filled against that provider's
inventory at a price around the oracle's, either at a fixed spread (passive) or at
a spread that grows with the size of the fill (vAMM). Every function of the
library is verified against its contract, but for the two calls named under `account`
below.

## Layout

- `src/abi.rs`, `src/context.rs`, `src/init.rs`: the call, the answer, the state
  and the set-up instruction, with their bytes.
- `src/pricing.rs`: how much of a request is filled and at what price.
- `src/settlement.rs`: one fill, booked.
- `src/calls.rs`: single calls and batches on a context account.
- `src/processor.rs`: checks on accounts, set-up, dispatch by tag.
- `src/passive_lp_matcher.rs`: a matcher that quotes a fixed edge and keeps only a
  position.
- `src/laws/`: what is proved of all of these together: that reading gives back
  what was written, that prices favour the provider, that positions stay within
  their bound, that no insurance fee is lost however a trade is split, that a batch
  is filled as a whole or not at all, and that an account stays bound to the
  provider that set it up.
- `src/account.rs`: accounts, and the two calls into `solana_program` that the
  library trusts (`Pubkey::new_from_array` and `Pubkey::to_bytes`).
- `app/`: the on-chain entry point, and a program that prints the layouts as JSON.

## Context account

| Offset | Size | What |
|--------|------|------|
| 0      | 64   | answer to the last single call |
| 64     | 256  | state |

## Instructions

Accounts: first the provider (signs), then the context account (writable, owned by
the program, 320 bytes or more).

| Tag | What | Data |
|-----|------|------|
| 0   | fill one request; the answer is written to the context account | 67 bytes |
| 2   | set up the context account, once | 78 bytes, or 66 without insurance, skew and number |
| 3   | fill up to 16 legs, all or none; the answers are returned | 18 + 26 per leg |
