# netperf

A network (TCP-only) throughput measurement tool in the manner of iperf3. One
process runs as a server (`netperf -s`), another as a client
(`netperf -c <host>`); the client chooses the number of parallel streams
(`-P`) and the direction of the traffic (`-R`, `--bidir`).

## Layout

- `src/` is the verified library:
  - `common/control.rs`: the control protocol's messages, envelopes and errors;
  - `common/net_utils.rs`: framing of control messages (big-endian length
    prefix) and the incremental frame reader;
  - `common/data.rs`: test parameters from the client's options;
  - `common/perf_test.rs`: the per-test state, stream counts and stream roles;
  - `common/stream_worker.rs`: block and interval accounting of a data stream;
  - `common/ui.rs`: human-readable sizes and the end-of-test summary;
  - `controller.rs`: the controller's decisions at each turn and on each event;
  - `server.rs`: admission of new connections and the initial negotiation;
  - `client.rs`: the address the client connects to.
- `app/` is the program: command line, sockets, tasks, JSON and printing.
- `tests/` exercises the library.
