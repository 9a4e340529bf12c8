# feathertail

A daemon for Proxmox VE hosts: it hands out static DHCP leases tied to
guest identity, answers DHCP DISCOVER/REQUEST/RELEASE packets, and serves
a small authenticated HTTP API over the Proxmox command line (`pvesh`).

## Layout

- `src/` is the library, written in Verus. Every function there carries a
  contract; Verus proves each one, except those of the few trusted wrappers
  named below, whose contracts restate what the standard library and
  `serde_json` document:
  - `dhcp/` holds the protocol logic: IPv4 and MAC address texts, the
    subnet check of a lease assignment, the parser of client packets, the
    OFFER/ACK/NAK encoders, the firewall and the reply decision, and the
    laws that tie them together (`dhcp/laws.rs`).
  - `proxmox.rs` builds the `pvesh` command lines and reads their results;
    `routes/` builds the API bodies and decides the error statuses;
    `auth.rs`, `cli.rs`, `config.rs`, `daemon.rs`, `service_install.rs`
    and `vnc_assets.rs` hold the remaining decisions of the daemon.
  - `time.rs` and a few items in `dhcp/lease.rs` and `proxmox.rs` are the
    trusted boundary to the clock and to `serde_json`.
- `app/` is the executable around it: argument handling, the TOML
  configuration file, the SQLite lease store, the UDP listener, the axum
  server and OpenAPI document, and the calls of `pvesh`, `systemctl` and
  the file system.
- `tests/` runs the library on concrete values.
