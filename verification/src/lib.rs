//! A minimal cooperative task runtime for driving output pins at
//! phase-related toggle rates.
//!
//! The runtime is built from three pieces, leaves first:
//!
//! * [`yield_point`] — the yield primitive: a single-use, two-observation
//!   suspension point through which a task hands control back to the
//!   scheduler for exactly one pass.
//! * [`task`] — a task: a non-terminating unit of work that owns one output
//!   pin and toggles it once per a fixed number of completed yields (its
//!   cadence).
//! * [`executor`] — the single-threaded cooperative scheduler: a bounded,
//!   registration-ordered set of tasks that it resumes once per pass,
//!   forever.
//!
//! Scheduling is cooperative and deterministic: there is no preemption, no
//! timer and no interrupt. A task suspends only by invoking the yield
//! primitive, and the primitive re-arms itself on its first observation, so
//! every suspension lasts exactly one pass. Hardware bring-up (clocks,
//! watchdog, claiming the GPIO lines) happens outside this library; it hands
//! each task exclusive ownership of its line.

pub mod executor;
pub mod task;
pub mod yield_point;
