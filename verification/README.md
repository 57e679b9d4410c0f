# fact_cli

The decisions and texts of the `fact` command-line client for trusted
knowledge ledgers, written in Verus and proved against their contracts.

- `src/` is the verified library. Each module holds one concern of the CLI:
  the remote actor exchange artifacts and their base64url bundles
  (`actor_exchange`, `base64url`, `records`, `bundles`), remote descriptors
  and remotes (`remote`, `remotes`, `sync_steps`), capabilities
  (`capabilities`, `capability_report`, `participation`), profiles and
  personas (`book`, `profiles`, `personas`), the human and JSON output of
  the commands (`display`, `overview`, `reports`, `ledger_show`, ...), and
  the messages for every failure (`errors`, `faults`).
- JSON documents are modelled by `json::Json`; reading and printing them is
  done by `serde_json` behind a few trusted wrappers whose results are
  named, not restated.
- `app/` is the command-line shell: argument parsing, files, network
  requests and the pager. The ledger store, signing and search libraries
  that the full client links are not part of this build, so the commands
  that need them are not offered.
- `tests/` runs the library on concrete values.

Entries kept by name (profiles, personas) live in `book::Book`, a vector
kept sorted by name with a type invariant, rather than a `BTreeMap` keyed by
`String`, whose contracts in vstd do not carry over to text keys.
