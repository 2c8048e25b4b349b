//! A verified core for a hierarchical menu editor.
//!
//! The library models an ordered forest of menu entries together with the
//! editor logic that drives it: structural queries over sibling groups,
//! resolution of drag-and-drop gestures into concrete mutations, the
//! promote/demote nesting rules, and a single-flight discipline that lets a
//! newer request in a mutation category supersede an older one. The remote
//! store, rendering and event plumbing are left to the host; the host hands
//! the library plain values and performs the actions it returns.

pub mod ancestry;
pub mod designer;
pub mod flight;
pub mod model;
pub mod nesting;
pub mod segment;
pub mod tree;
