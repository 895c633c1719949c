//! Firewall rule orchestration for container network lifecycle events.
//!
//! The library derives deterministic, length-bounded iptables chain names
//! from a network hash, builds the chains and rule templates that implement
//! subnet NAT and per-container port forwarding, and drives their setup and
//! teardown idempotently, gated by a per-chain teardown policy.  An optional
//! firewalld bridge registers subnets with the system firewall on a
//! best-effort basis.
pub mod bridge;
pub mod builders;
pub mod chain;
pub mod decimal;
pub mod driver;
pub mod model;
pub mod naming;
pub mod types;
