# simple_oracle

A price oracle pallet as a verified library. The pallet keeps a ring buffer of
recently submitted prices and their average, decides which unsigned price
transactions enter the pool and with which priority, and reads a price in
cents out of a JSON price feed.

- `src/pallet.rs`: configuration, storage model, calls, events and the
  dispatchable functions, each specified against a model of the storage.
- `src/price.rs`, `src/json.rs`, `src/pow10.rs`: reading the price from JSON.
- `src/http.rs`: choosing the endpoint and reading the HTTP response.
- `src/validation.rs`: validation of unsigned transactions.
- `src/worker.rs`: the offchain worker's decisions, one step per report.
- `src/laws.rs`: properties that span several operations.
- `app/lib.rs`: the HTTP calls, the worker's loop and the conversions to and
  from the runtime's types.
