//! Last-in-first-out history of every added record.

use vstd::prelude::*;

use crate::item::{InventoryItem, ItemModel};

verus! {

/// A stack of inventory records. Its view is the sequence of record models
/// in push order, so the most recently pushed record is the last element.
pub struct InventoryStack {
    stack: Vec<InventoryItem>,
}

impl View for InventoryStack {
    type V = Seq<ItemModel>;

    closed spec fn view(&self) -> Seq<ItemModel> {
        self.stack@.map_values(|it: InventoryItem| it@)
    }
}

impl InventoryStack {
    /// Creates an empty stack.
    pub fn new() -> (r: InventoryStack)
        ensures
            r@ == Seq::<ItemModel>::empty(),
    {
        InventoryStack { stack: Vec::new() }
    }

    /// Appends `item` on top of the stack.
    pub fn push(&mut self, item: InventoryItem)
        ensures
            final(self)@ == old(self)@.push(item@),
    {
        self.stack.push(item);
        proof {
            assert(self@ =~= old(self)@.push(item@));
        }
    }

    /// Removes and returns the most recently pushed record; `None` when the
    /// stack is empty, in which case the stack is unchanged.
    pub fn pop(&mut self) -> (r: Option<InventoryItem>)
        ensures
            old(self)@.len() == 0 ==> r is None && final(self)@ == old(self)@,
            old(self)@.len() > 0 ==> {
                &&& r matches Some(it) && it@ == old(self)@.last()
                &&& final(self)@ == old(self)@.drop_last()
            },
    {
        let r = self.stack.pop();
        proof {
            if old(self)@.len() > 0 {
                assert(self@ =~= old(self)@.drop_last());
            }
        }
        r
    }

    /// Returns the most recently pushed record without removing it; `None`
    /// when the stack is empty.
    pub fn view_top(&self) -> (r: Option<&InventoryItem>)
        ensures
            self@.len() == 0 ==> r is None,
            self@.len() > 0 ==> (r matches Some(it) && it@ == self@.last()),
    {
        if self.stack.len() == 0 {
            None
        } else {
            Some(&self.stack[self.stack.len() - 1])
        }
    }
}

} // verus!
