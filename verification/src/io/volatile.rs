//! Memory that a device reads and writes as well.

use super::Io;
use vstd::prelude::*;

verus! {

/// A cell of memory that is shared with a device. Every read and every write
/// of the cell is meant to reach the memory.
pub struct Volatile<T: Copy>(pub T);

impl<T: Copy> Clone for Volatile<T> {
    fn clone(&self) -> (cell: Self)
        ensures
            cell == *self,
    {
        *self
    }
}

impl<T: Copy> Copy for Volatile<T> {

}

impl<T: Copy> Volatile<T> {
    /// A cell that holds `data`.
    pub fn new(data: T) -> (cell: Volatile<T>)
        ensures
            cell.0 == data,
    {
        Volatile(data)
    }
}

impl<T: Copy> Io for Volatile<T> {
    type Value = T;

    open spec fn value(&self) -> T {
        self.0
    }

    fn write(&mut self, src: T) {
        self.0 = src;
    }

    fn read(&self) -> (value: T) {
        self.0
    }
}

} // verus!
