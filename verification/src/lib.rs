//! A verified model of callback registration for a host-driven update loop.
//!
//! A host runtime (an entity-component-system engine, for instance) keeps a
//! registry of callback handles for one execution phase and, on every tick of
//! its update loop, executes each registered instance once.  Hosts differ in
//! how they treat a handle that is registered more than once within the same
//! phase: some keep every registration, some silently keep only the first.
//!
//! This crate models the registry and both policies, and proves what a caller
//! that registers the same handle several times may rely on: how many times
//! the callback executes per tick under each policy, that the outcome does not
//! depend on the order of registrations, and that a run's whole output is a
//! function of the registrations and the tick count alone.

pub mod laws;
pub mod registry;
