# blockmeta

Per-block fee statistics of Ethereum blocks (gas fees, burned fees, miner
tips, gas-price extremes) and the rows that publish them: `blocks` and
`transactions` rows for a database sink, `Block` entities and base-fee
candles (minute, hour, day, week) for an entity sink.

- `src/` is the verified library. `block.rs` computes the statistics;
  `db_out.rs` and `graph_out.rs` write the rows; `time_unit.rs` and
  `stores.rs` give the candle periods and store keys; `bignum.rs` and
  `text.rs` hold big integers and the decimal and hexadecimal text of
  values; `rows.rs`, `db_tables.rs` and `entity_tables.rs` model the row
  collections of the sink crates; `db_check.rs` tells in advance whether a
  list of store deltas can be written without a row conflict, and
  `db_laws.rs` proves what the rows of a block are after it is created and
  then updated.
- `app/` holds the Substreams handlers: decoding of blocks and store deltas,
  store reads and writes, and the protobuf messages.
- `tests/` runs the library on concrete blocks and rows.
