//! Runtime core of an entity-component-system framework.
//!
//! Systems declare, at registration time, which typed resources and
//! components they read or write; the world store then hands each system a
//! view of a single shared, heterogeneously-typed store every tick. The
//! crate covers the type-keyed world store (components, resources,
//! entities), borrow-conflict bookkeeping over declared access signatures,
//! the query engine that resolves entity sets matching a capability
//! pattern, the append-only multi-reader event log, and the stage-based
//! scheduler and executor that sequence system execution and commit
//! deferred mutations.
//!
//! Runtime type identity is modeled as a plain `u64` type key: every
//! contract in the crate is stated over maps and sequences keyed by those
//! keys, so the aliasing and scheduling rules are checked by the verifier
//! rather than by convention.

pub mod command;
pub mod component;
pub mod ecs;
pub mod entity;
pub mod event;
pub mod executor;
pub mod flow;
pub mod keymap;
pub mod params;
pub mod query;
pub mod schedule;
pub mod world;
