# fragrance_vending

Software for a fragrance vending machine: a catalog with warehouse and
machine stock, sales and dispensing, a payment step (simulated or through a
point-of-sale terminal), a serial link to the dispenser board, metrics, and a
sync protocol that pushes the machine's records to a central server, which
stores each record once.

Layout:

- `src/` is the library, written in Verus. Its functions carry contracts
  that Verus proves, except a few small trusted wrappers around std and the
  `uuid` crate (the clock, the dispense queue, UTF-8 decoding, trimming, UUID
  generation), whose contracts are believed; the functions whose results
  depend on another thread or on the clock (`UartHandle::send_dispense`,
  `UartHandle::is_online`, `now_ms`) promise nothing about their result:
  - `inventory` holds the machine's store (`MachineDb`): catalog, stock,
    sales, purchases, transfers, event log, and the journal of changed rows;
  - `sync` plans a sync round and applies the server's answer;
  - `central` is the server's store, where a record delivered twice is
    stored once;
  - `handlers` decides what each HTTP endpoint answers;
  - `payment`, `hardware` and `metrics` hold the payment flow, the serial
    link's state and line handling, and the metrics arithmetic and parsing;
  - `text` formats numbers and amounts, `seqs` holds sequence lemmas.
- `app/` is the program around it: the HTTP server, SQLite persistence, the
  payment terminal's HTTP client, the serial port thread, and the sync and
  metrics loops.
- `tests/` runs the library on concrete values.
