# HFT data generator

A service that generates synthetic high-frequency market data. Simulated markets produce ticks
at a fixed rate; ticks and one-minute candles go to ClickHouse in batches, live data goes to
WebSocket clients, and REST endpoints serve snapshots and history.

- `src/` is the library, verified with Verus: what a market does with a tick, what its candles
  are, the wire formats of the database, the buffered inserter, the life of a feed connection,
  the configuration and the answers of the endpoints. It does no I/O and no floating-point
  arithmetic.
- `app/` is the program around it: the server, the tasks, the database client, and the
  floating-point side of the simulation (the random walk and the order book ladder).
- `tests/` runs the library.

The library carries floating-point numbers by their bit patterns and decimals as a mantissa and
a scale. Decimal arithmetic, the clock, random numbers, order ids, the concurrent map of markets
and the metrics text come from other crates; the functions that call them say in their doc
comments what is trusted of them.
