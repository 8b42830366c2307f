//! Verified state model for a small reactive web UI: a counter, a todo
//! list and a light/dark theme, together with the signal (observer)
//! mechanism that drives view updates.
//!
//! Each module holds the state of one component as plain data, the
//! transitions its event handlers perform, and the derived values its
//! views display. The rendering shell runs outside the library and
//! calls into it for every state change and every displayed value.

pub mod app_state;
pub mod counter;
pub mod render;
pub mod signal;
pub mod theme;
pub mod todo;
