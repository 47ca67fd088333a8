# lion

The building blocks of a capability-based microkernel that runs plugins in WebAssembly
sandboxes, with their contracts proved by Verus.

## Layout

- `src/` — the verified library.
  - `lion_core` — errors and their messages, typed identifiers, access requests, capability
    constraints, memory regions, plugin states and metadata, resource usage, workflows and
    their validation, configuration values with dotted paths, log levels and log lines, and
    semantic versions.
  - `lion_isolation` — the capability checker for host calls, resource limits and metering,
    plugin lifecycles, the decisions of host calls, the instance pool, the backend's
    decisions, and bounds-checked access to a plugin's linear memory.
  - `lion_observability` — observability capabilities and their checkers, span and
    observability contexts with W3C trace context, log event text, the no-op and simple
    loggers, and the capability gate in front of plugin operations.
  - `text` — character and decimal helpers shared by the modules above.
- `tests/` — tests of the library on concrete values.
- `app/` — the runtime around the library: wasmtime engines, stores and host functions,
  the thread-local current context, loggers and tracers, serde and `std::error::Error`
  copies of library types, and the traits that users implement.
