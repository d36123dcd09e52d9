use vstd::prelude::*;

verus! {

/// Interactive locker: the lock signal is a line of operator input, and
/// the confirmation is a message back; the surrounding adapter does both.
pub struct Locker;

impl Locker {
    pub fn new() -> (r: Self) {
        Locker
    }
}

} // verus!
