# detta_node

The decisions of a DeTTa validator node, written in Verus and proved against
their contracts.

- `src/` is the verified library. Each module states what its functions
  compute over plain values (`Seq`, `Map`, `Set`, integers) and proves it:
  envelope framing (`protocol`), option grammars and command plans
  (`node_cli`, `client_cli`, `node_command`, `client_command`), the
  validator-set registry (`keyring`, `validator_update`, `validator_set`),
  block assembly (`block_selection`), the data-availability payload layout
  (`da_layout`), state sync (`state_sync`, `sync_metrics`), RPC serving
  (`serving`, `rpc_lookup`, `rate_limit`), consensus rounds
  (`consensus_round`, `ingest`), snapshot metadata roots (`metadata_roots`)
  and operator alerts (`alerts`). The only trusted code calls SHA-256 from
  the `sha2` crate (`digest`) and appends a character to a string (`text`).
- `tests/` runs the library on concrete values.
- `app/` is the process around the library: storage, RPC and network
  transport through the DeTTa crates, the sync clients, the message codec,
  and the `detta-node` and `detta-client` programs.
