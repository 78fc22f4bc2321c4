# shield_ghita

The verified core of Shield Ghita, a DNS filter and LAN security toolkit.

- `src/` is the library, verified with Verus. It covers blocklist rules and the
  on-disk blocklist index, the DNS wire format and the query pipeline, the
  intrusion heuristics (rate limits, tunneling, DGA and darknet names, ARP and
  DHCP checks), quarantine, the static file analyser, the LAN-scan helpers,
  configuration backups and the in-app log.
- `app/` is a small command-line program around the library. It holds the UDP
  DNS proxy, the blocklist downloads, file and directory scans, backups and log
  plumbing: the I/O and floating-point parts that stay outside verification.
- `tests/` runs the library on concrete values.
