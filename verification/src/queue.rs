//! First-in-first-out log of every added record.

use std::collections::VecDeque;

use vstd::prelude::*;

use crate::item::{InventoryItem, ItemModel};

verus! {

/// A queue of inventory records. Its view is the sequence of record models
/// in arrival order, so the least recently enqueued record is the first
/// element.
pub struct InventoryQueue {
    queue: VecDeque<InventoryItem>,
}

impl View for InventoryQueue {
    type V = Seq<ItemModel>;

    closed spec fn view(&self) -> Seq<ItemModel> {
        self.queue@.map_values(|it: InventoryItem| it@)
    }
}

impl InventoryQueue {
    /// Creates an empty queue.
    pub fn new() -> (r: InventoryQueue)
        ensures
            r@ == Seq::<ItemModel>::empty(),
    {
        InventoryQueue { queue: VecDeque::new() }
    }

    /// Appends `item` at the back of the queue.
    pub fn enqueue(&mut self, item: InventoryItem)
        ensures
            final(self)@ == old(self)@.push(item@),
    {
        self.queue.push_back(item);
        proof {
            assert(self@ =~= old(self)@.push(item@));
        }
    }

    /// Removes and returns the least recently enqueued record; `None` when
    /// the queue is empty, in which case the queue is unchanged.
    pub fn dequeue(&mut self) -> (r: Option<InventoryItem>)
        ensures
            old(self)@.len() == 0 ==> r is None && final(self)@ == old(self)@,
            old(self)@.len() > 0 ==> {
                &&& r matches Some(it) && it@ == old(self)@.first()
                &&& final(self)@ == old(self)@.drop_first()
            },
    {
        let r = self.queue.pop_front();
        proof {
            if old(self)@.len() > 0 {
                assert(self@ =~= old(self)@.drop_first());
            }
        }
        r
    }

    /// Returns the least recently enqueued record without removing it;
    /// `None` when the queue is empty.
    pub fn view_front(&self) -> (r: Option<&InventoryItem>)
        ensures
            self@.len() == 0 ==> r is None,
            self@.len() > 0 ==> (r matches Some(it) && it@ == self@.first()),
    {
        if self.queue.len() == 0 {
            None
        } else {
            Some(&self.queue[0])
        }
    }
}

} // verus!
