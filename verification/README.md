# engine_core

The decision logic of a blockchain execution engine, with its behaviour stated in
Verus contracts and proved.

- `u512`: 512-bit unsigned integers (eight 64-bit limbs, most significant first) with
  checked, overflowing and panic-free arithmetic, long division and decimal
  rendering; every operation is specified over the number the limbs denote.
- `gas`, `motes`: amounts of gas and of motes, their arithmetic and conversion at a
  rate of motes per gas; `gas_laws` proves how the operations undo one another and how
  amounts are ordered.
- `compare`: equality and ordering by value.
- `key`, `named_keys`: keys of the global state, access rights, and the names under
  which accounts and contracts know keys, kept in the order of the names' UTF-8 bytes.
- `engine_state`: the engine's configuration, tracking copies of global state
  snapshots, where the code of a deploy is found (`executable_deploy_item`), and the
  deploy itself as a state machine (`deploy`) whose laws (`deploy_laws`) are proved:
  every deploy ends, code runs only after authorization, payment code runs only when
  the main purse holds the maximal payment, and finalization charges the sender. It
  also commits genesis onto the empty state and finds where the bonded validators are
  read.

`app/` runs deploys: it performs the requests the state machine names (reading the
global state, loading and executing wasm) and feeds the answers back. It also reads the
bonded validators and prepares genesis through the engine.
