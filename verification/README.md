# brc20_unwrap

Finds the unwraps of frBTC that wait to be paid out, as the FrBTC contract on
BRC20-Prog records them. The library is verified with Verus; it performs no I/O.

* `brc20_prog`: `Brc20ProgUnwrap`, which begins queries and calls.
* `scan`: the query that asks for one payment at a time; `scan_laws`: what holds
  of it as a whole.
* `batch`, `gas`, `rpc`: the query that runs a program next to the contract in
  one call; `batch_laws`: what holds of it as a whole.
* `supply`: the total supply.
* `abi`, `hexadecimal`, `json`, `utxo`, `address`, `payment`, `text`, `bytes`,
  `error`: what replies mean; `abi_laws`, `reading_laws`: what holds of these
  readings.

A query is a state machine: `request` says what it wants to know, `advance`
takes the reply. `app/` answers the requests through a live provider.

Calls into `hex`, `bitcoin` and `alloy-sol-types`, and the `Debug` form of `char`
in the standard library, stand behind functions marked `external_body`; each
says above it what is taken on trust.
