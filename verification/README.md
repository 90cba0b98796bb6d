# nara

Verified engine building blocks, written in Verus:

- `src/input.rs` — bounded button edge tracking and action resolution.
- `src/gameplay/` — gameplay command identities, payloads, the deterministic tick-ordered
  command queue, and action-to-command mapping.
- `src/identity/` — world-scoped entity identity: allocators, scene and persistent references,
  the identity domain with claims, tombstones and snapshots, and reference remaps.
- `src/hierarchy/` — parent/child relation validation, batch construction preflight and
  topology generations.
- `src/image/` — bounded PNG import: limits, memory plans, the shared in-flight byte budget,
  header preflight, decoding through the `png` crate, publication guards, reload decisions and
  their diagnostic fields.
- `src/material.rs` — 2D material descriptors and their BLAKE3 content keys.

Values of the surrounding engine (entities, asset slots, task outcomes) enter the library as
plain integers and enums. `app/` holds the host side: file reads, cancellation tokens, serde
forms of library values, and the per-frame drivers.
