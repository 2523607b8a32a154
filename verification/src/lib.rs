//! Timer and task-estimation engine for a single-user Pomodoro to-do list.
//!
//! The engine owns the data model (tasks and interval timers), the
//! at-most-one-running-timer invariant, the derivation of the current timer
//! phase from stored timestamps and an injected clock, and the historical
//! median used to suggest a daily focus target. Rendering, audio and durable
//! storage live outside the engine: they call in with plain values and render
//! what comes back.

pub mod config;
pub mod state;
pub mod stats;
pub mod store;
pub mod tasks;
pub mod timers;
