# timesync

A verified core for a kernel-assisted network time-synchronisation and
latency measurement tool. A server and a client exchange fixed-size
messages over TCP or UDP; eBPF probes report when each packet is queued,
sent and received in the kernel. The server runs through phases:
a coarse round-trip synchronisation (NTP-like), a precise one (PTP-like),
a latency test that compares the two directions, and a calculation phase
whose per-message timing is broken into stages and saved.

## Layout

- `src/` — the library, verified with Verus:
  - `bytes`: little-endian encoding with its round-trip lemmas;
  - `protocol`: the 96-byte message format and its message types;
  - `events`: ring-buffer record layouts, event routing and queue lookups;
  - `stats`: sorting and the median;
  - `clock`: clock references and the message and timeout counters;
  - `measurement`: the state of each measurement phase and its bookkeeping;
  - `session`: the phase state machine and the session values;
  - `client`: the client's answers to server messages;
  - `probe`: the compact protocol of the small UDP probe client.
- `tests/` — tests of the library on concrete values.
- `app/` — the programs around it: sockets, timers, eBPF loading, floating
  point and file output. They call the library for every decision.
