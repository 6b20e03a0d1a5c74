# peek

A process-inspection tool for Linux: it explains what a process is, how it
uses resources, what it is connected to and what stopping it would affect,
and it can keep a history of watched processes with alert rules (`peekd`).

The logic is a Verus-verified library; the program around it reads `/proc`,
talks to the terminal and the daemon socket, and formats decimal figures.

## Layout

- `src/` — the verified library.
  - `text` — character-sequence utilities (splitting, trimming, number parsing and formatting).
  - `proc_text`, `proc_reader`, `sampler`, `kernel`, `env` — readers of `/proc` text:
    `stat`, `status`, `maps`, `io`, `smaps_rollup`, `net/dev`, `environ`, namespaces, Unix sockets.
  - `explain` — plain-English explanations of capabilities, states, OOM scores, syscalls and binaries.
  - `impact` — the pre-flight analysis of signalling a process and its recommendation.
  - `ringbuf` — the bounded sample buffer and file-descriptor leak detection.
  - `sorting` — stable sorting by integer-sequence keys.
  - `network`, `snapshot`, `tree`, `gpu` — the pieces of a process snapshot.
  - `report`, `terminal`, `control`, `cli` — the Markdown and HTML reports, the terminal
    report, port search, the kill/control panel and command-line decisions.
  - `portmon` — the state of the listening-port monitor.
  - `alert`, `daemon` — alert rules and the daemon's request handling.
- `tests/` — tests of the library.
- `app/` — the `peek` program (and `peekd` when run under that name).

## Limits

The reading of the kernel's TCP and UDP socket tables (and the mapping of
socket inodes to processes through them), the name resolver, the cgroup,
limits and security readers, the interactive dashboard and the daemon's
on-disk history store are not part of this project. As a result the program
hands the library empty TCP/UDP tables: port search, the TCP/UDP parts of
the network section, the connection count of the kill analysis and the port
monitor find no sockets, and `--watch` redraws the report.
