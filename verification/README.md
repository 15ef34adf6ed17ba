# bybit_stream

A collector of Bybit market data over websockets, whose decision logic is
verified with Verus.

- `src/` is the verified library: routing of incoming frames, the ping/pong
  heartbeat checks, subscription planning and the check of the exchange's
  answer, the authentication request, reconnect back-off, per-symbol trade
  buckets and their per-second summaries, the ticker row buffer, and the store
  of recent ticker messages. Calls into outside crates (chrono, url, uuid,
  rand, openssl, base64, dashmap) go through small trusted wrappers whose
  contracts are stated next to them.
- `app/` is the program around it: reading the settings, the websocket
  connections and their tasks, JSON (de)serialisation, the floating point sums
  of trade volume and turnover, and the database writes.
- `tests/` runs the library on concrete values.
