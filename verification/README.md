# ridesim

The orchestration, storage and preset logic of a ride-hailing parameter-sweep system,
written in Verus with its behaviour stated in contracts and proved.

- `src/` is the verified library: request normalization and fingerprinting, shard
  planning, object-store key layout, the parent's dispatch of every shard and the
  child's outcome writes (both through traits that the deployment implements),
  parameter-grid decoding and dimension value checks, random sampling over drawn
  points, scenario presets and the preset panel's state transitions, map-tile
  bookkeeping and geometry decoding, date formatting, timing statistics and trip
  ordering.
- `tests/` runs the library on concrete values.
- `app/` is the ordinary Rust around it: the Lambda and SQS handlers, JSON and Parquet
  encoding, the clock, file I/O for preset libraries, tile decoding and the build tasks.
