//! Concurrency test subjects: a bounded-buffer monitor with a shared wake
//! condition, the workloads that drive it, a step model of the monitor that
//! exposes its lost-wakeup deadlock, and a model of a non-reentrant
//! read/write lock used across a suspension point.

pub mod ring;
pub mod config;
pub mod model;
pub mod rwlock;
pub mod demo;
pub mod dispatch;
