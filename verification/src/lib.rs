//! Shared building blocks for connector-hosting daemons: the status of a
//! connector, a registry of named connectors with its suspend / resume
//! bookkeeping, and the hysteresis state machine of the power manager.
pub mod connector;
pub mod power;
pub mod registry;
