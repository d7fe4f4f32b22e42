# tari_dan

Verified core rules of a Tari DAN validator, written in Verus.

- `src/uint.rs`: 256-bit unsigned integers (four 64-bit words) with checked arithmetic.
- `src/substate_address.rs`, `src/shard.rs`: the division of the substate address space among
  committees, with proofs that the shards' ranges adjoin, cover the space and are balanced.
- `src/hotstuff/`: the HotStuff vote rules for a locally proposed block: the vote decision, the
  locks taken for a new leaf, the blocks locked and committed, what committing a block writes, and
  which validators forward locked blocks to foreign committees.
- `src/virtual_substate.rs`: the current-epoch and fee-claim virtual substates.
- `src/builder.rs`: the transaction builder and the signature it clears.
- `app/`: serialisation, error messages, logging and event broadcast around the library.
