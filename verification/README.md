# toric

The rule core of a Holochain network in which validators attest AI artifact
manifests, reputation weights their votes, and a mutual credit currency grows
along the Fibonacci sequence as attestations accumulate.

- `src/` is the verified library (Verus). It holds the integrity rules of the
  three DNAs (`mutual_credit_integrity`, `coordination_integrity`,
  `registry_integrity`), the coordinator decisions that are not floating-point
  arithmetic (`mutual_credit`, `coordination`, `registry`), the Fibonacci
  functions (`fibonacci`), a plain-value model of hashes, links and ops
  (`holochain`), and the JSON field readers built on `serde_json` (`json`).
- `app/` holds the zomes as the host sees them (entry definitions, callbacks,
  DHT reads and writes, bridge calls, reputation and trust arithmetic in
  floating point) and the desktop launcher.
- `tests/` exercises the library on concrete values.
