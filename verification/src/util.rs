//! A cell that hands out its contents.

use vstd::prelude::*;

verus! {

/// A cell around one value.
///
/// The cell adds nothing to the value but a name: whoever holds the cell can
/// read what is in it, and whoever holds it mutably can change that.
pub struct ChadCell<T>(T);

impl<T> View for ChadCell<T> {
    type V = T;

    closed spec fn view(&self) -> T {
        self.0
    }
}

impl<T> ChadCell<T> {
    /// A cell that holds `val`.
    pub fn new(val: T) -> (cell: ChadCell<T>)
        ensures
            cell@ == val,
    {
        ChadCell(val)
    }

    /// The contents, to read.
    pub fn get(&self) -> (val: &T)
        ensures
            *val == self@,
    {
        &self.0
    }

    /// The contents, to change: what the borrower leaves is what the cell holds.
    pub fn get_mut(&mut self) -> (val: &mut T)
        ensures
            *val == old(self)@,
            final(self)@ == *final(val),
    {
        &mut self.0
    }

    /// Puts `val` in the cell and hands out what was there.
    pub fn replace(&mut self, val: T) -> (earlier: T)
        ensures
            earlier == old(self)@,
            final(self)@ == val,
    {
        let mut val = val;
        std::mem::swap(&mut self.0, &mut val);
        val
    }

    /// Opens the cell.
    pub fn into_inner(self) -> (val: T)
        ensures
            val == self@,
    {
        self.0
    }
}

impl<T: Default> Default for ChadCell<T> {
    fn default() -> (cell: ChadCell<T>) {
        ChadCell(T::default())
    }
}

} // verus!
