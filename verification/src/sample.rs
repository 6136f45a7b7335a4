use vstd::prelude::*;

verus! {

/// One plotted point of a channel.
///
/// `x` is the position on the time axis in milliseconds, `y` the measured
/// value. The store never computes with `y`, so its type is left to the
/// application.
#[derive(Debug, PartialEq)]
pub struct Sample<T> {
    pub x: u64,
    pub y: T,
}

impl<T: Copy> Copy for Sample<T> {

}

impl<T: Copy> Clone for Sample<T> {
    fn clone(&self) -> (copy: Self)
        ensures
            copy == *self,
    {
        *self
    }
}

} // verus!
