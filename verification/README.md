# dsponsor

The DSponsor sponsorship protocol on Soroban: a sponsorship NFT collection,
a marketplace for its tokens, an admin gateway that manages sponsoring
offers and ad proposals, and a factory that deploys collections.

- `src/` is the verified library. Each contract is a plain value with a
  mathematical view; every operation either refuses a request with an error
  and leaves the state as it was, or moves the state forward and returns the
  token, NFT and deployment calls that the host has to make. `src/laws.rs`
  states the properties that span several operations.
- `app/` holds the Soroban contracts: storage, authorization, cross-contract
  calls, deployments and events, around the library.
- `tests/` runs the library on concrete scenarios.

The keyed tables are `KeyMap`s (`src/keymap.rs`), a verified map with a
`Map` view. Soroban's own `Map` lives in the host: it needs an `Env` and keys
and values of `#[contracttype]` types, and neither that macro nor a host
handle can stand in verified code, so the contracts in `app/` store their
state with Soroban types and convert it to and from the library's.

Who must authorize each operation is decided by `required_signer` in the
library; `app/` asks the host for that signature.
