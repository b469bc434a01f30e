//! A buffering relay: items arrive at any rate, wait in a FIFO queue, and leave
//! one per tick of a periodic drain timer.
//!
//! The relay's decisions are a state machine over a queue and an intake flag
//! ([`relay`]); [`runner`] joins that machine to the emission channel, and
//! [`laws`] proves what holds of every run.

pub mod channel;
pub mod laws;
pub mod relay;
pub mod runner;
pub mod timer;
pub mod trace;

pub use relay::{Action, ActionView, Event, EventView, Relay, RelayView};
pub use runner::{BlackholeRunner, RunnerView};
pub use timer::DrainTimer;
pub use trace::{Outcome, Trace};
