# svled

Host-side logic of the SVLED LED controller, verified with Verus.

- `src/protocol.rs`: serial, custom UDP and WLED DNRGB packet layouts.
- `src/routing.rs`: where a colour command goes (transport, controller, local index).
- `src/state.rs`: WLED colour buffer, UDP failure counting, serial confirmation, queue averages.
- `src/record.rs`: the lines written to the animation recordings.
- `src/transport.rs`: connection settings and their defaults.
- `src/speedtest.rs`: random colour commands for the throughput test.
- `app/`: serial ports, sockets, worker threads, files and timing around the library.
