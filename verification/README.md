# fluxora_provenance

Release provenance and interface stability for the Fluxora payment-stream contract, written in
Verus. The functions of the library state what they return, and Verus proves it.

## Layout

- `src/` is the verified library.
  - `release`, `clearance`: the manifest of a release directory, its verification, and the laws
    that tie the two together.
  - `artifacts`, `digest`, `manifest`, `workspace`, `build_inputs`, `calendar`, `timestamps`: what a
    manifest records and where each entry comes from.
  - `cli`, `failure`: the command line and the messages.
  - `abi`: the interface inventory of the contract. `decode` and `spec_entry` read it from the
    embedded specification, `source` from the source text, `render` writes it as JSON,
    `compatibility` compares two of them, `baseline` is the frozen first version. The laws stand in
    `evolution` and `reordering` (comparing), `coverage` (which methods are listed, in which order),
    `snapshot`, `reading_back` and `recorded` (the JSON text tells inventories apart and reads back).
  - `packaging`, `profile_settings`, `token_stubs`: the release profile, the package and the
    failing tokens that the contract is tried against.
  - `lifecycle`, `stream`, `stream_ids`, `authority`: drivers and judges for runs of the contract.
  - `text`, `sorting`, `encoding`, `toml_doc`, `json_doc`, `json_text`: characters, order, and
    documents.
- `app/` is the command `fluxora-provenance` around the library: files, processes, JSON on disk,
  and token contracts.
- `tests/` runs the library on concrete values.

## What is not proved

The library calls `sha2`, `hex`, `toml`, `serde_json` and the XDR reader of `soroban-sdk`. Each call
stands in a small function marked `external_body`, whose contract Verus takes as given; its doc
comment says what is claimed. A result that would take pages to state has a name instead, such as
`sha256` or `toml_tree`, and the contracts above it speak of that name.
