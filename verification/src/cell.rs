//! The cell and its two guard types.
//!
//! Requests go through [`RefCell::borrow`] and [`RefCell::borrow_mut`] and
//! are denied, never fatal, when the rule would be broken. A granted guard is
//! a linear token: reading and writing go through it, and giving it back with
//! `release` is what restores the tracker, so the right is returned on every
//! exit path the caller takes.

use vstd::prelude::*;

use crate::state::after_exclusive_release;
use crate::state::after_exclusive_request;
use crate::state::after_shared_release;
use crate::state::after_shared_request;
use crate::state::count_below_max;
use crate::state::grants_exclusive;
use crate::state::grants_shared;
use crate::state::tracker_valid;
use crate::state::Tracker;

verus! {

/// A runtime-checked borrow cell: owns a value and a [`Tracker`], and hands
/// out either many read-only guards or one read-write guard at a time.
pub struct RefCell<T> {
    value: T,
    tracker: Tracker,
}

/// A granted read-only borrow. While one is live the cell is `Shared(n)`;
/// releasing it decrements the count, down to `Unshared` at one.
pub struct Ref {
    token: (),
}

/// The granted read-write borrow. While it is live the cell is `Exclusive`;
/// releasing it returns the cell to `Unshared`.
pub struct RefMut {
    token: (),
}

impl<T> RefCell<T> {
    /// The bookkeeping state, as the contracts see it.
    pub closed spec fn tracker(&self) -> Tracker {
        self.tracker
    }

    /// The contained value, as the contracts see it.
    pub closed spec fn value(&self) -> T {
        self.value
    }

    /// The representation invariant: `Shared(0)` never occurs. Every
    /// constructor establishes it and every operation keeps it.
    pub open spec fn wf(&self) -> bool {
        tracker_valid(self.tracker())
    }

    /// Makes a cell around `value` with no guard outstanding.
    pub fn new(value: T) -> (cell: RefCell<T>)
        ensures
            cell.wf(),
            cell.tracker() is Unshared,
            cell.value() == value,
    {
        RefCell { value, tracker: Tracker::Unshared }
    }

    /// Requests a read-only guard: granted, with the shared count one
    /// higher, unless the read-write guard is out, in which case the request
    /// is denied and nothing changes.
    pub fn borrow(&mut self) -> (granted: Option<Ref>)
        requires
            old(self).wf(),
            count_below_max(old(self).tracker()),
        ensures
            final(self).wf(),
            final(self).tracker() == after_shared_request(old(self).tracker()),
            final(self).value() == old(self).value(),
            granted is Some <==> grants_shared(old(self).tracker()),
    {
        match self.tracker {
            Tracker::Unshared => {
                self.tracker = Tracker::Shared(1);
                Some(Ref { token: () })
            }
            Tracker::Shared(n) => {
                self.tracker = Tracker::Shared(n + 1);
                Some(Ref { token: () })
            }
            Tracker::Exclusive => None,
        }
    }

    /// Requests the read-write guard: granted only when no guard at all is
    /// out; otherwise the request is denied and nothing changes.
    pub fn borrow_mut(&mut self) -> (granted: Option<RefMut>)
        requires
            old(self).wf(),
        ensures
            final(self).wf(),
            final(self).tracker() == after_exclusive_request(old(self).tracker()),
            final(self).value() == old(self).value(),
            granted is Some <==> grants_exclusive(old(self).tracker()),
    {
        match self.tracker {
            Tracker::Unshared => {
                self.tracker = Tracker::Exclusive;
                Some(RefMut { token: () })
            }
            _ => None,
        }
    }

    /// The current bookkeeping state.
    pub fn state(&self) -> (t: Tracker)
        ensures
            t == self.tracker(),
    {
        self.tracker
    }
}

impl Ref {
    /// Reads the value. Valid while this guard is live, for then the cell is
    /// `Shared` and no writer exists.
    pub fn get<'a, T>(&self, cell: &'a RefCell<T>) -> (value: &'a T)
        requires
            cell.tracker() is Shared,
        ensures
            *value == cell.value(),
    {
        &cell.value
    }

    /// Gives this guard back: `Shared(n)` becomes `Shared(n - 1)`, or
    /// `Unshared` when this was the last one. The value is untouched.
    pub fn release<T>(self, cell: &mut RefCell<T>)
        requires
            old(cell).tracker() is Shared,
        ensures
            final(cell).wf(),
            final(cell).tracker() == after_shared_release(old(cell).tracker()),
            final(cell).value() == old(cell).value(),
    {
        if let Tracker::Shared(n) = cell.tracker {
            if n <= 1 {
                cell.tracker = Tracker::Unshared;
            } else {
                cell.tracker = Tracker::Shared(n - 1);
            }
        }
    }
}

impl RefMut {
    /// Reads the value. Valid while this guard is live, for then the cell is
    /// `Exclusive` and this is the only guard.
    pub fn get<'a, T>(&self, cell: &'a RefCell<T>) -> (value: &'a T)
        requires
            cell.tracker() is Exclusive,
        ensures
            *value == cell.value(),
    {
        &cell.value
    }

    /// Writes through this guard: the borrow handed out is the cell's value,
    /// and what the caller leaves in it is what the cell holds afterwards.
    /// The tracker stays `Exclusive`.
    pub fn get_mut<'a, T>(&self, cell: &'a mut RefCell<T>) -> (value: &'a mut T)
        requires
            old(cell).tracker() is Exclusive,
        ensures
            *value == old(cell).value(),
            final(cell).value() == *final(value),
            final(cell).tracker() == old(cell).tracker(),
            final(cell).wf(),
    {
        &mut cell.value
    }

    /// Gives this guard back: the cell returns to `Unshared`. The value is
    /// whatever was last written.
    pub fn release<T>(self, cell: &mut RefCell<T>)
        requires
            old(cell).tracker() is Exclusive,
        ensures
            final(cell).wf(),
            final(cell).tracker() == after_exclusive_release(old(cell).tracker()),
            final(cell).value() == old(cell).value(),
    {
        cell.tracker = Tracker::Unshared;
    }
}

} // verus!
