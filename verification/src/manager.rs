//! The inventory manager: a keyed table, a history stack and an arrival
//! queue, co-updated on every addition.

use vstd::prelude::*;

use crate::item::{InventoryItem, ItemModel};
use crate::queue::InventoryQueue;
use crate::stack::InventoryStack;
use crate::table::InventoryTable;

verus! {

/// Mathematical model of the manager's whole state.
pub struct ManagerModel {
    /// The latest record stored under each code.
    pub table: Map<Seq<char>, ItemModel>,
    /// Every added record, in push order (most recent last).
    pub stack: Seq<ItemModel>,
    /// Every added record, in arrival order (least recent first).
    pub queue: Seq<ItemModel>,
}

/// The model of a manager with nothing added yet.
pub open spec fn empty_model() -> ManagerModel {
    ManagerModel {
        table: Map::<Seq<char>, ItemModel>::empty(),
        stack: Seq::<ItemModel>::empty(),
        queue: Seq::<ItemModel>::empty(),
    }
}

/// The effect of adding one record: the table entry for its code is created
/// or overwritten, and the record is appended to both the stack and the
/// queue.
pub open spec fn add_step(s: ManagerModel, m: ItemModel) -> ManagerModel {
    ManagerModel {
        table: s.table.insert(m.code, m),
        stack: s.stack.push(m),
        queue: s.queue.push(m),
    }
}

/// The inventory manager. Every `add_item` call updates all three
/// containers from the same record; popping the stack or the queue never
/// touches the table, so a table entry can outlive its stack and queue
/// copies.
pub struct InventoryApp {
    inventory: InventoryTable,
    stack: InventoryStack,
    queue: InventoryQueue,
}

impl View for InventoryApp {
    type V = ManagerModel;

    closed spec fn view(&self) -> ManagerModel {
        ManagerModel { table: self.inventory@, stack: self.stack@, queue: self.queue@ }
    }
}

impl InventoryApp {
    /// Well-formedness: the table keeps its codes unique.
    pub closed spec fn wf(&self) -> bool {
        self.inventory.wf()
    }

    /// Creates a manager with all three containers empty.
    pub fn new() -> (r: InventoryApp)
        ensures
            r.wf(),
            r@ == empty_model(),
    {
        let r = InventoryApp {
            inventory: InventoryTable::new(),
            stack: InventoryStack::new(),
            queue: InventoryQueue::new(),
        };
        r
    }

    /// Adds one record built from `code`, `name` and `quantity`: the table
    /// entry for `code` is created or overwritten, and the record is
    /// appended to the history stack and to the arrival queue. Always
    /// succeeds; empty strings and a zero quantity are permitted.
    pub fn add_item(&mut self, code: String, name: String, quantity: u32)
        requires
            old(self).wf(),
        ensures
            final(self).wf(),
            final(self)@ == add_step(
                old(self)@,
                ItemModel { code: code@, name: name@, quantity },
            ),
    {
        let item = InventoryItem { code, name, quantity };
        self.inventory.insert(item.clone());
        self.stack.push(item.clone());
        self.queue.enqueue(item);
    }

    /// Returns a copy of every record currently in the table, one per code,
    /// in unspecified order.
    pub fn list_inventory(&self) -> (r: Vec<InventoryItem>)
        requires
            self.wf(),
        ensures
            forall|i: int|
                0 <= i < r@.len() ==> #[trigger] self@.table.contains_pair(r@[i]@.code, r@[i]@),
            forall|c: Seq<char>|
                self@.table.dom().contains(c) ==> exists|i: int|
                    0 <= i < r@.len() && r@[i]@.code == c,
            forall|i: int, j: int|
                0 <= i < r@.len() && 0 <= j < r@.len() && i != j ==> r@[i]@.code != r@[j]@.code,
            self@.table.dom().finite(),
            r@.len() == self@.table.dom().len(),
    {
        self.inventory.list()
    }

    /// Returns the most recently pushed record still on the history stack
    /// without removing it; `None` when the stack is empty.
    pub fn peek_stack(&self) -> (r: Option<&InventoryItem>)
        ensures
            self@.stack.len() == 0 ==> r is None,
            self@.stack.len() > 0 ==> (r matches Some(it) && it@ == self@.stack.last()),
    {
        self.stack.view_top()
    }

    /// Removes and returns the most recently pushed record; `None` when the
    /// stack is empty. The table and the queue are untouched either way.
    pub fn pop_stack(&mut self) -> (r: Option<InventoryItem>)
        requires
            old(self).wf(),
        ensures
            final(self).wf(),
            final(self)@.table == old(self)@.table,
            final(self)@.queue == old(self)@.queue,
            old(self)@.stack.len() == 0 ==> r is None && final(self)@.stack == old(self)@.stack,
            old(self)@.stack.len() > 0 ==> {
                &&& r matches Some(it) && it@ == old(self)@.stack.last()
                &&& final(self)@.stack == old(self)@.stack.drop_last()
            },
    {
        self.stack.pop()
    }

    /// Returns the least recently enqueued record still in the arrival
    /// queue without removing it; `None` when the queue is empty.
    pub fn peek_queue(&self) -> (r: Option<&InventoryItem>)
        ensures
            self@.queue.len() == 0 ==> r is None,
            self@.queue.len() > 0 ==> (r matches Some(it) && it@ == self@.queue.first()),
    {
        self.queue.view_front()
    }

    /// Removes and returns the least recently enqueued record; `None` when
    /// the queue is empty. The table and the stack are untouched either way.
    pub fn pop_queue(&mut self) -> (r: Option<InventoryItem>)
        requires
            old(self).wf(),
        ensures
            final(self).wf(),
            final(self)@.table == old(self)@.table,
            final(self)@.stack == old(self)@.stack,
            old(self)@.queue.len() == 0 ==> r is None && final(self)@.queue == old(self)@.queue,
            old(self)@.queue.len() > 0 ==> {
                &&& r matches Some(it) && it@ == old(self)@.queue.first()
                &&& final(self)@.queue == old(self)@.queue.drop_first()
            },
    {
        self.queue.dequeue()
    }
}

} // verus!
