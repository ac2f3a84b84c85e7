# conc_map_bench

A benchmark driver for concurrent key-value maps, with its decisions verified
in Verus.

- `src/` is the verified library:
  - `workloads.rs`: workload kinds, their names, and the operation mix,
    prefill share and capacity of each workload;
  - `bench.rs`: the benchmark options, the parameters handed to a map under
    test, the case a map type selects and the skip list;
  - `server.rs`: the messages exchanged with a remote map server, how a batch
    of operations is framed and how the server's answers are read;
  - `striped.rs`: a hash map split into buckets addressed by key, with the
    per-bucket operations that a locking front end uses.
- `app/` is the command-line program: option parsing, the network client,
  JSON encoding, the lock-guarded shared tables and the reports.
- `tests/` runs the library on concrete values.
