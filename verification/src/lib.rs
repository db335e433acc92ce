//! Deferred execution of owned objects on a worker-pool runtime.
//!
//! The crate lets typed, ownership-tracked objects be scheduled for
//! asynchronous deferred execution without exposing raw pointer manipulation.
//! An owner object embeds one or more work records at fixed offsets; a
//! [`queue::Queue`] submits the owner to the runtime, which later hands the
//! record's bare address back to the [`queue::trampoline`], where ownership is
//! reconstructed and the owner's declared action runs.
//!
//! The runtime itself (worker threads, timers) is an external collaborator.
//! It is held here as an explicit, fully specified state model,
//! [`pool::Pool`]: per-record linkage state, a tick clock for delayed
//! submission, and the delivery step. A driver advances the clock and asks
//! the pool which record fires next, so every scheduling decision of the
//! layer is a verified function of that state.
//!
//! Ownership across the callback boundary follows an explicit token
//! discipline: submitting an owner moves its value into a [`depot::Depot`],
//! keyed by the record's bare address, for exactly the in-flight period;
//! the trampoline is the sole point that takes it back out.

pub mod depot;
pub mod laws;
pub mod locator;
pub mod pool;
pub mod queue;
pub mod work;
