//! An in-memory inventory manager that mirrors every insertion into three
//! containers: a keyed table holding the latest record per item code, a
//! last-in-first-out history stack, and a first-in-first-out arrival queue.

pub mod item;
pub mod laws;
pub mod manager;
pub mod queue;
pub mod stack;
pub mod table;
