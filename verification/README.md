# fruit_domain

The rules of a fruit gift-economy game, verified with Verus: bags, members and
communities, the event/effect log, gifts, burns, grants and the luck
adjustments computed at each grant, and the storage encodings of all of them.

Layout:

- `src/` — the verified library. Data types carry a mathematical view, and each
  public function states its result over those views. Storage and granting,
  which talk to the outside world, are written as stages: each stage says what
  to read or write and takes the outcome as a plain value.
- `tests/` — tests of the library on concrete values.
- `app/` — the REPL, the DynamoDB and in-memory stores, the random granter and
  the error plumbing; it runs the stages of `src/` against real storage.

Collections: a bag holds its fruits in a `Vec`, and a community its members in
a `Vec` kept in ascending identifier order with no identifier twice (the
invariant `wf`); their views are a multiset and a map, as a `HashMap` would
give. The order matters to the contracts: grants, stored snapshots and the
REPL's listing walk the members in roster order, which the contracts state
over the sequence; the walk order of a `HashMap` is unspecified, so a map
would need a separate sorted copy for the same contracts. A `HashMap` keyed by the member id's `u128` (or by a fruit index)
was not tried.
