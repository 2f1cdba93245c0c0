# xfiles

A Plan 9-inspired communication hub for agents and AI services. Agents
connect over WebSocket, exchange messages through a virtual filesystem and
a content plumber, and reach AI endpoints through an OpenAI-compatible
proxy that picks among healthy endpoints.

## Layout

- `src/` — the library, verified with Verus: the circuit breaker, the
  token-bucket rate limiter, the virtual filesystem, the plumber, the
  delivery queue, the agent and endpoint registries, health probing and
  service discovery decisions, MCP tool indexing, the routing stages, the
  proxy's endpoint choice, authentication checks and the session logic of
  the WebSocket protocol. Public laws of the library are proof functions
  next to the code they speak of.
- `tests/` — tests of the library on concrete values.
- `app/` — the daemon around the library: configuration loading, SQLite
  persistence, the HTTP and WebSocket servers, outgoing HTTP to endpoints,
  Docker discovery, telemetry, and the quantum-inspired router, which works
  in floating point and with randomness.

Run `xfiles serve` to start the daemon and `xfiles config` to print a
configuration to start from.
