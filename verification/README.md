# caiman

The decision logic of the Caimán hyperconverged platform as a Verus
library: the functions in `src/` carry `requires`/`ensures` contracts that
Verus proves, except the few `#[verifier::external_body]` wrappers around
outside calls, whose contracts are trusted (see below).

- `src/qcow2.rs` — qcow2 header parsing, cluster resolution, read planning
  and the raw-conversion geometry.
- `src/vm.rs`, `src/procfs.rs`, `src/kvm.rs` — the VM lifecycle (command
  lines, VMM arguments, status transitions), the kernel text interfaces
  read by the collectors, the interrupt routing table.
- `src/cni.rs`, `src/cni_flow.rs` — the CNI plugin: ecosystem selection,
  command modes, adapter command lines, stable IDs and names.
- `src/microseg.rs` — label identities and policy-map compilation, with the
  policy store.
- `src/vsan.rs`, `src/vvols.rs`, `src/snapshots.rs`, `src/backup.rs`,
  `src/templates.rs` — storage placement, volume attachment, snapshot
  chains, Restic backups and templates.
- `src/import.rs`, `src/gpu.rs`, `src/drs.rs`, `src/auth.rs`,
  `src/acquire.rs`, `src/demo.rs`, `src/cli.rs`, `src/style.rs` — import
  connectors' parsing, GPU choice, migration selection, logins, remote disk
  transfer state, the demo store and the command line's presentation.
- `src/text.rs`, `src/sorting.rs`, `src/ids.rs` — verified string helpers,
  sorting and identifiers.

Laws that span several functions are public proof functions (`lemma_*`).
Calls into `blake3`, `uuid`, `serde_json` and a few `std` functions go
through `#[verifier::external_body]` wrappers whose contracts are
documented next to them.

`app/` is `caiman-node`, the command-line tool around the library: it does
the file, process and network I/O and hands the library plain values.
