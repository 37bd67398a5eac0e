# hyperlane_cli

A command-line tool that dispatches messages through a Hyperlane mailbox on an EVM
chain and searches the messages a mailbox sent, together with the fixed-width
integer and hash types it works with.

- `src/` is the verified library: the `U128`/`U256`/`U512` limb integers and their
  widening and checked narrowing conversions, the lossy conversion from a double's
  bit pattern, the `H128`/`H160`/`H256`/`H512` hashes with their conversions and hex
  reading, the reading of the signing key from the key file, and the decisions of
  the two factories and of the `send` and `search` commands.
- `app/` is the program: argument parsing, reading the key file, the RPC calls, the
  Hyperlane mailbox and indexer, logging, and the conversions to and from `f64`.
