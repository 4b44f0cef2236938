//! Weak-reference processing, the PPP (possibly-pinning parent) registry and
//! work-chunking logic of a binding between a moving, parallel tracing
//! garbage collector and a dynamic-language runtime.
//!
//! The collector's decisions for a cycle (which objects are reachable, where
//! moved objects went) arrive as a [`forwarding::Liveness`]; the library
//! decides what every weakly held reference, PPP and pinned child becomes,
//! and how the sweeps of the runtime's weak tables are split into
//! independent chunks.
pub mod abi;
pub mod address_buffer;
pub mod binding;
pub mod cruby_support;
pub mod finalize;
pub mod forwarding;
pub mod gc_work;
pub mod object;
pub mod object_model;
pub mod object_set;
pub mod ppp;
pub mod utils;
pub mod vm;
pub mod weak_proc;
