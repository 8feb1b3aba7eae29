# eos_control

The E-OS control center — system overview, task manager with a capability
inspector, network, storage, sound and power views — and its two privileged
helpers (`eos-netcfg`, `eos-power`).

- `src/` is the verified library: every parser, validator and decision behind
  the views and helpers, each with a contract proved by Verus, and the laws
  that tie them together (for instance that a static network configuration is
  replayed unchanged at boot, that a netmask and its prefix length convert
  both ways, that process groups are ranked by memory and partition the
  filtered list).
- `app/` reads and writes the system (files, `netcfg:` and `sys:` schemes,
  helper processes, `statvfs`, `kill`) and hands what it read to the library.
  `app/view.rs` assembles what each view shows and does from those reads
  and the library's decisions. The byte-size parsing and formatting, which
  work in floating point, live there too.
- `tests/` runs the library on concrete inputs.
