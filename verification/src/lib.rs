//! A runtime-checked borrow cell.
//!
//! A [`RefCell`] owns a value and hands out either any number of read-only
//! guards or a single read-write guard, never both at once. The rule is
//! enforced dynamically: a request that would break it is denied by returning
//! no guard, and releasing a guard gives the borrow right back to the cell.
//!
//! The bookkeeping state and its transitions live in [`state`]; the cell and
//! its guards live in [`cell`]. The lemmas in [`state`] prove the protocol's
//! laws: the tracker always counts the live guards exactly, shared and
//! exclusive access exclude each other, denied requests change nothing, and a
//! written value survives every later event but another write.

pub mod cell;
pub mod state;

pub use cell::Ref;
pub use cell::RefCell;
pub use cell::RefMut;
pub use state::Tracker;
