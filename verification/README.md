# kitties

Verified runtime logic of a family of collectible modules (kitties and
gundams), written in Verus.

- `src/kitties.rs`: kitties numbered by creation, with per-account slots;
  creation, breeding by a bitwise DNA mix, and transfer between accounts.
- `src/gundams.rs`: gundams numbered by creation, whose DNA carries a star
  level and a type; creation and breeding.
- `src/numbered_kitties.rs`: kitties with a 128-bit DNA number.
- `src/hashed_kitties.rs`, `src/avalon.rs`: items identified by a 256-bit
  hash, listed in creation order, each with one owner; `avalon` also stores a
  few caller-set values.
- `src/kitty_lists.rs`: a list of kitties per account.
- `src/hash_index.rs`: a map keyed by 256-bit hashes, stored in a `BTreeMap`
  under each hash's four 64-bit words (vstd specifies `BTreeMap` for integer
  and tuple keys, not for byte arrays), with the words proved to determine
  the hash.
- `src/creation_list.rs`: the creation-order list of hash-keyed items and
  its inverse index.
- `src/encoding.rs`: the SCALE-encoded payloads that the chain hashes for
  randomness, and little-endian decoding of random bytes.
- `app/`: the dispatchable calls, which check the origin, draw randomness
  from the host and report messages and events.
