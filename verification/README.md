# new-arp-scan

An ARP scanner for local IPv4 subnets, with its logic written and proved in Verus.

- `src/` is the library, verified by Verus: Ethernet II / IEEE 802.3 LLC/SNAP / IEEE 802.1Q
  framing and parsing, RFC 826 request and reply encoding, IPv4 subnet and CIDR arithmetic,
  interface name and flag rules, interface discovery and selection, the scan schedule (rounds,
  pacing), reply bookkeeping, the Berkeley Packet Filter program and record walk used on macOS,
  the IEEE OUI vendor registry, and the operator-facing text of outcomes and errors. The laws of
  the library (round trips of the frame encoders and parsers and of MAC address text in either
  letter case, the request counts of a schedule, the first reply that wins for an address, the
  agreement of the capture filter with the parser, the vendor lookup and mapping count over a
  parsed `ieee-oui.txt` text) are public proof functions beside the code they speak of.
- `app/` is the binary: command-line parsing with `clap`, and the operating system calls made
  through `libc` (`AF_PACKET` raw sockets and `ioctl` on Linux, `getifaddrs` and `/dev/bpf*` on
  macOS), the vendor file on disk, and the standard streams.
- `tests/` runs the library on concrete values.
