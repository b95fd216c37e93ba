# qc_control

The verified core of Bose QC Control Center, a local Windows control center
for Bose QuietComfort headphones, and of its offline Bluetooth tools.

- `src/` is the library, verified with Verus: capability bookkeeping (a
  capability reaches `verified` only through a hardware proof), the typed
  command layer, the simulated and hardware-backed device models, the btsnoop
  and RFCOMM decoders, the listen-only capture's correlation, the discovery
  report, and the noise-control probe's verification rule.
- `tests/` exercises the library as ordinary Rust.
- `app/` is the program around it: the desktop shell, Windows PnP, Core Audio
  and RFCOMM socket access, file output, and the command-line tools
  (`discovery`, `btsnoop`, `listen`, `probe`).
