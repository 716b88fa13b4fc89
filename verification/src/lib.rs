//! Core of a minimal distributed-tracing SDK. It gives each span an identity,
//! links it to its parent (a local span, or a remote one named by a
//! propagation header), makes one sampling decision for a whole trace, and
//! routes events to span-events or log-records.
//!
//! [`opentelemetry_sdk`] holds the SDK that a host drives through its span
//! callbacks; [`lifecycle`] says what each callback does to the store of live
//! records and what holds of every run of them; [`propagator`] reads and
//! writes the propagation header.

pub mod attributes;
pub mod clock;
pub mod decimal;
pub mod event;
pub mod id_generator;
pub mod ids;
pub mod lifecycle;
pub mod opentelemetry_sdk;
pub mod propagator;
pub mod sampler;
pub mod span;
