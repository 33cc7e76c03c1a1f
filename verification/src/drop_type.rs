//! Unmount callbacks: a [`DropType`] stores a callback to run when its call
//! site is reclaimed, together with a switch to disarm or re-arm it.

use vstd::prelude::*;

verus! {

/// A callback to run on unmount, and whether it is currently armed.
pub struct DropType<F> where F: Fn() -> () {
    pub activated: bool,
    pub on_drop: F,
}

impl<F> DropType<F> where F: Fn() -> () {
    /// The stored callback may be called.
    pub open spec fn wf(self) -> bool {
        call_requires(self.on_drop, ())
    }

    pub fn new(on_drop: F) -> (d: DropType<F>)
        requires
            call_requires(on_drop, ()),
        ensures
            d.wf(),
            d.activated,
            d.on_drop == on_drop,
    {
        DropType { activated: true, on_drop }
    }

    /// Runs the callback, unless it has been deactivated.
    pub fn execute_if_activated(&self)
        requires
            self.wf(),
        ensures
            self.activated ==> call_ensures(self.on_drop, (), ()),
    {
        if self.activated {
            (self.on_drop)();
        }
    }

    pub fn activate(&mut self)
        ensures
            final(self).activated,
            final(self).on_drop == old(self).on_drop,
    {
        self.activated = true;
    }

    pub fn deactivate(&mut self)
        ensures
            !final(self).activated,
            final(self).on_drop == old(self).on_drop,
    {
        self.activated = false;
    }
}

} // verus!
