# social_game

The rules of a social prediction game on Solana, verified with Verus.

Players bid a contest's minimum amount on a predicted count. When the contest
is finalized with the real count, the house takes its cut and ranked players
are paid from prize buckets laid out over the ranks.

- `src/` is the verified library: account data (`model`), the layout of prize
  buckets (`prize_layout`), the instruction logic with its account constraints
  (`instructions`), and the size of the contest NFT's mint (`nft`).
- `app/` is the Anchor program around it: it loads accounts into the
  library's types, performs transfers and NFT metadata updates, and computes
  each bucket's weighted prize share in floating point.
- `tests/` runs the library on concrete values.
