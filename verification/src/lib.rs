//! Thread-confinement core for an embedded, single-threaded scripting engine.
//!
//! The embedded engine may only be touched from one thread at a time, and its
//! values are reference counted by the engine itself. This crate verifies the
//! two pieces that make that safe to use from a multi-threaded host:
//!
//! * an arbiter that serializes all engine work into one strict FIFO stream
//!   run by a single owning side, while any number of submitters enqueue work
//!   and collect results or failures ([`arbiter`]);
//! * a reference-counted value handle that tracks, per handle, whether it owns
//!   one engine-side reference, and releases it exactly once ([`valueref`]).
//!
//! The engine itself is opaque: [`quickjsruntime`] models exactly what the
//! core reads of it — liveness, the per-allocation reference counts, the
//! global object and its named properties. The embedding supplies the real
//! engine behind the same operations.

pub mod arbiter;
pub mod eserror;
pub mod quickjs_utils;
pub mod quickjsruntime;
pub mod valueref;
