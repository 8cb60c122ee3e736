//! A small reminder scheduler: a controller state machine for browsing and
//! composing reminders, a task set of deferred one-shot notifications, and
//! the codecs that tie the in-memory set to a durable store.
pub mod app;
pub mod clock;
pub mod codec;
pub mod datetime;
pub mod notification;
