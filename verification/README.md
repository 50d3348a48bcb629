# banlieue (verified core)

The decision logic of the banlieue vSphere provider and its provider SDK,
written in Verus: every function in `src/` carries a contract that Verus
proves, and the laws the provider relies on across calls stand as proof
functions beside the code they are about.

## Layout

- `src/text.rs`, `src/seq_util.rs`, `src/str_map.rs`, `src/keyed.rs` — text,
  sequence, sorted-map and sort building blocks with their specifications.
- `src/sdk/` — the provider SDK: conditions, finalizers, leader election
  decisions, server-side-apply field managers, scheduling flags, CA bundle
  classification, guest data rendering, PEM encoding, requeue intervals.
- `src/vsphere/` — the vSphere provider: resource models (`api`), failure
  domain discovery (`provider`), image import planning and upload protocol
  (`import`), the `VMImage` rows and import Jobs (`vmimage`), the
  `VSphereMachine` provisioning and status rules (`vspheremachine`), vCenter
  step decisions (`vim`, `vcenter_steps`), guest probing (`guest`), names
  (`k8s_name`), `--nic` flags (`nic_flag`), settings (`cli`), and an
  in-memory vCenter (`fake`).
- `src/vex.rs` — reachability-based OpenVEX statements.
- `tests/` — scenario tests run against the compiled library.
- `app/` — the process around the library: command line, Kubernetes and
  vCenter calls, HTTP upload, controller loops.

Outside crates are reached from `src/` only through a few trusted wrappers
(base64 encoding, UTF-8 decoding, URL query encoding, JSON parsing,
lowercase mapping, `Debug` quoting, the clock), each documented where it is
declared. Where the process alternates vCenter calls and decisions (the
`VSphereMachine` create path), the library gives the next step from the
current state and the last answer, and `app/` performs the calls.
