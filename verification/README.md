# reth

The decisions of an Ethereum node, verified with Verus: what it says to its peers and takes from
them, what it caches and prunes, in which order it works, and how it starts and stops.

- `src/rlp*.rs`, `src/primitives.rs`, `src/text.rs`: RLP, and what messages are made of.
- `src/eth_wire_types/`: the messages of the `eth` and `snap` protocols.
- `src/eth_wire/`: the `p2p`, `eth` and `snap` streams, without the transport under them.
- `src/trie/`, `src/sorted_map.rs`, `src/keyed.rs`: trie changesets, and the cache of them.
- `src/storage/`: the traits of a database, and the import of tables.
- `src/stages/`, `src/config.rs`, `src/engine/`: the stages of a sync, and what can be configured.
- `src/node/`: what a node is built from, its launch, and the loop of its engine.
- `src/cli/`: how commands are run, and how a stack trace is written.
- `tests/`: tests of the library.
- `app/`: the program around it: files, sockets, signals and tasks.

Functions and types that are marked `external_body` call other crates; the comment above each says
what is believed of them.
