//! A process-wide exclusivity token for serializing calls into a
//! non-reentrant native text-translation library.
//!
//! The library is a single synchronization primitive: a capability value
//! (`flag::ThreadUnsafetyToken`) that can be held by at most one owner at a
//! time. Acquisition never blocks: it either grants the token or reports
//! contention. Returning the token while the flag is already available is a
//! severe internal defect that the holder must treat as fatal.
//!
//! `model` states the transition system behind the availability flag and
//! proves its safety laws; `flag` implements the flag and the token against
//! that model.

pub mod flag;
pub mod model;
