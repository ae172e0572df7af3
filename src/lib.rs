//! Keeps a fixed list of display outputs arranged as a left-to-right strip.
//!
//! The library holds the decisions of the reconciliation daemon: decoding the
//! compositor's state, planning the desired layout, testing whether the current
//! state already realises it, and the retry rules of the event loop. The bus
//! transport lives outside the library.

pub mod float;
pub mod model;
pub mod planner;
pub mod comparator;
pub mod wire;
pub mod reconcile;
pub mod event_loop;
