# viola

The verified core of the viola convention linter's native host, written in
Verus.

- `src/abi`: value shapes of the plugin ABI (provider ids, run surfaces,
  severities, NAM versions, owned run scopes and payloads).
- `src/config`: the issue-pattern grammar, the parsed configuration with
  gate-threshold resolution, the owned configuration with its string arena,
  and config error values.
- `src/deno`: the deno-backed runtime: JSON encoding of requests and
  decoding of worker lines, the diagnostic arena, line framing, the bridge
  script path and the per-line decisions of a lint pass.
- `src/host`: role classification, the pipeline's shared resources, the
  LIFO extension session and the work units' plans and effects.
- `src/cli`: argument parsing, the pass-through to the TS CLI, config error
  reports and the stderr drain step.
- `src/fixture`: the fixture lint and runner plugins.
- `app/`: the executable and the worker process plumbing (files, pipes,
  exec) around the library.
