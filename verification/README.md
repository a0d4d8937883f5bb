# say_hi

SayHi is a card-exchange service: users create card templates and cards
(a card may carry a red packet, split evenly or at random), other users scan
cards, and every accepted scan makes sender and receiver each other's
contacts.

- `src/` is the verified library (Verus):
  - `model.rs`: templates, cards and certificates, with their abstract views;
  - `table.rs`: the string-keyed tables the service keeps its mappings in;
  - `seed.rs`: record ids and random red-packet shares from a call's seed;
  - `service.rs`: the service state, its operations as transitions of an
    abstract state, and the state as plain data for storage;
  - `render.rs`: listing entries as key/value string pairs;
  - `laws.rs`: laws of the service, proved over the abstract state.
- `app/` is the NEAR contract around the library: it reads the call's
  environment, keeps the service in contract storage (borsh), and makes the
  payouts that scans ask for.
- `tests/` runs the library on concrete values.

Cargo.toml: `near-bindgen` and `borsh` (the version `near-bindgen` uses) serve
`app/`; `serde` and `serde_json` are used by the code that `#[near_bindgen]`
generates; `syn` is held at 1.0.57 because `near-bindgen`'s
`borsh-schema-derive-internal` 0.6.2 does not compile against later `syn` 1.x
releases. `src/` uses none of them.
