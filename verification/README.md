# quark

Confidential-computing support of a container kernel, verified with Verus.

- `src/cc_mode.rs` — the confidential-computing modes and their codes.
- `src/tee.rs` — the kernel's TEE state: the mode (set once), and the
  shared/private marking of guest-physical addresses under TDX and SEV-SNP.
- `src/gpa_status.rs` — conversion of memory ranges between private and
  host-shared, tracked by bucket bits; each request is answered at once or
  turned into a conversion for the platform, whose outcome is then recorded.
- `src/attestation.rs` — the TDX quote buffer and its byte layout.
- `src/gateway.rs`, `src/gateway_actor.rs` — the function gateway: call
  paths, upserts, and the prompts waiting for replies.
- `app/` — the global state behind locks, firmware and TDX-module calls,
  and the HTTP servers.
