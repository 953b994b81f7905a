//! A spin-based mutual-exclusion primitive, together with two small
//! memory-ordering experiments that probe the semantics its design rests
//! on.
//!
//! The lock itself lives in [`mutex`]: a boolean flag, a two-tier busy-wait
//! acquisition loop, a release store, and a scoped `with_lock` API.  The
//! concurrent argument for its central promise — at most one holder at a
//! time, and no update to the payload ever lost — is made in [`protocol`],
//! where the acquisition algorithm is stated as a transition system over
//! any number of contending contexts and its invariants are proved.
//! [`visibility`] models the two-flag, two-observer happens-before
//! experiment, and [`relaxed`] the relaxed-ordering coherence experiment.

pub mod mutex;
pub mod protocol;
pub mod relaxed;
pub mod visibility;
