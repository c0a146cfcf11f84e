//! A sliding view over a borrowed vector: the parser's cursor into the
//! token sequence.

use vstd::prelude::*;

verus! {

/// A window into a vector: the underlying items plus a cursor that only
/// the window's own methods move.
pub struct VecWindow<'a, T> {
    vector: &'a Vec<T>,
    index: usize,
}

impl<'a, T> VecWindow<'a, T> {
    /// The underlying items.
    pub closed spec fn items(&self) -> Seq<T> {
        self.vector@
    }

    /// The cursor: how many items have been consumed.
    pub closed spec fn pos(&self) -> int {
        self.index as int
    }

    /// The cursor never passes the end of the items.
    pub open spec fn wf(&self) -> bool {
        0 <= self.pos() <= self.items().len()
    }

    /// How many items remain from the cursor on.
    pub open spec fn remaining(&self) -> int {
        self.items().len() - self.pos()
    }

    /// Opens a window over a vector at a starting cursor.
    pub fn new(vector: &'a Vec<T>, starting_index: usize) -> (r: VecWindow<'a, T>)
        requires
            starting_index <= vector@.len(),
        ensures
            r.items() == vector@,
            r.pos() == starting_index as int,
            r.wf(),
    {
        VecWindow { vector, index: starting_index }
    }

    /// The item at an offset from the cursor, if it is in range.
    pub fn get_value(&self, index: usize) -> (r: Option<&T>)
        requires
            self.wf(),
        ensures
            self.pos() + index < self.items().len() ==> (r matches Some(v) && *v == self.items()[
                self.pos() + index]),
            self.pos() + index >= self.items().len() ==> r is None,
    {
        if index >= self.vector.len() - self.index {
            None
        } else {
            Some(&self.vector[self.index + index])
        }
    }

    /// How many items remain, the cursor's own item included.
    pub fn remaining_length(&self) -> (r: usize)
        requires
            self.wf(),
        ensures
            r as int == self.remaining(),
    {
        self.vector.len() - self.index
    }

    /// Moves the cursor forward by a distance that must stay inside the
    /// items, and reports the new cursor.
    pub fn move_view(&mut self, distance: usize) -> (r: usize)
        requires
            old(self).wf(),
            distance as int <= old(self).remaining(),
        ensures
            final(self).wf(),
            final(self).items() == old(self).items(),
            final(self).pos() == old(self).pos() + distance,
            r as int == final(self).pos(),
    {
        let total = self.vector.len();
        proof {
            assert(self.index + distance <= total);
        }
        self.index = self.index + distance;
        self.index
    }
}

} // verus!
