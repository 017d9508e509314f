# odyssey

A seL4-style capability kernel with its builtin plugins, written in Verus.

- `src/` is the verified library.
  - `types` — identities, rights, quota declarations, plugin manifests,
    capability metadata, and the JSON reads the kernel relies on.
  - `kernel` — the capability space (slots, names, derivation parents,
    grant / restrict / transfer / revoke / revoke of a subtree, typed
    invocation through budgets), quota accounting, the derivation graph
    and its events, and the capability factory.
  - `builtins` — the logic of the builtin plugins: the agent observer,
    sessions and their limits, prompts, the model's reply protocol, the
    agent runtime, its memory store, the key-value database, the
    inspectors, and the model stubs.
  - `bridge` — what the HTTP bridge lists and how it routes a request.
  - `lifecycle` — the boot-time manifest table, the runtime-plugin
    configuration check and the teardown in reverse mint order.
- `tests/` exercises the library.
- `app/` is the server around it: the HTTP routes, the stream producers,
  checkpoint and memory files, and the embedding arithmetic. It mints
  every plugin with `lifecycle::mint_plugin`, the agent runtime's
  operations included; a call of one of those is decided by
  `AgentRuntime::dispatch`, and the server carries out the action it
  returns (file I/O, event forwarding, the embedding store).

A sync call on a streaming capability, or a stream opened on a sync
one, is refused with the text of `CapabilityError::KindMismatch`.
