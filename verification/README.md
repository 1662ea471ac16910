# telemetry_core

A telemetry logger core, verified with Verus: COBS-framed wire frames with a
CRC-16 come in as a byte stream, are validated (CRC, sequence continuity,
declared length), filtered by severity and type, queued in a bounded ring
buffer, and written to storage as CRC-32-protected, COBS-delimited postcard
records that are rotated into size-limited segments.

## Layout

- `src/` — the verified library.
  - `protocol`, `frame`, `wire`: the wire format and its byte-level model.
  - `framer`: the byte-at-a-time framing state machine.
  - `validator`, `filter`, `stats`, `error`: checks, policy and counters.
  - `ringbuf`, `pipeline`, `config`: the bounded queue and the end-to-end
    ingest/drain pipeline.
  - `record`, `segment`, `report`: the storage record format, segment
    rotation and reading, and what the decoder shows.
  - `corrupt`: the corruption the test frame generator injects.
  - `traits`, `clock`: the packet source, storage and clock interfaces.
  - `shim_*`: the trusted boundary to `cobs`, `crc`, `postcard`, `heapless`
    and `std::time`, each call stated by a contract.
- `tests/` — scenario tests run against the compiled library.
- `app/` — the `telemetry` command-line program (`host`, `generate`,
  `decode`): file, network and terminal I/O around the library.
