# gluebox_core

Shared infrastructure for connector-hosting daemons, verified with Verus.

- `src/connector.rs` — `ConnectorStatus` and its one-byte code.
- `src/registry.rs` — `ConnectorRegistry<C>`: named connectors (one per name,
  in registration order) and the names that `suspend_all` put to sleep; the
  per-step decisions of register / deregister / toggle / suspend_all /
  resume_all / stop_all / list, and the laws that tie them together.
- `src/power.rs` — `PowerStateMachine`: configuration checks and the
  Resting / Active hysteresis of the power manager, with its laws.
- `app/` — the asynchronous layer: the `Connector` trait, `PowerManager`
  (whose membrane potential is floating point) and the async
  `ConnectorRegistry` that awaits the connectors' lifecycle futures and hands
  their outcomes to the library.
