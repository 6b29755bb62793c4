use inventory::item::InventoryItem;
use inventory::queue::InventoryQueue;
use inventory::stack::InventoryStack;
use inventory::table::InventoryTable;

fn record(code: &str, name: &str, quantity: u32) -> InventoryItem {
    InventoryItem { code: code.to_string(), name: name.to_string(), quantity }
}

#[test]
fn stack_pushes_and_pops_last_in_first_out() {
    let mut stack = InventoryStack::new();
    assert!(stack.view_top().is_none());
    assert!(stack.pop().is_none());
    stack.push(record("A1", "Widget", 10));
    stack.push(record("A2", "Gadget", 5));
    assert_eq!(stack.view_top().unwrap().code, "A2");
    assert_eq!(stack.pop().unwrap().code, "A2");
    assert_eq!(stack.view_top().unwrap().code, "A1");
    assert_eq!(stack.pop().unwrap().code, "A1");
    assert!(stack.pop().is_none());
}

#[test]
fn queue_enqueues_and_dequeues_first_in_first_out() {
    let mut queue = InventoryQueue::new();
    assert!(queue.view_front().is_none());
    assert!(queue.dequeue().is_none());
    queue.enqueue(record("A1", "Widget", 10));
    queue.enqueue(record("A2", "Gadget", 5));
    assert_eq!(queue.view_front().unwrap().code, "A1");
    assert_eq!(queue.dequeue().unwrap().code, "A1");
    assert_eq!(queue.view_front().unwrap().code, "A2");
    assert_eq!(queue.dequeue().unwrap().code, "A2");
    assert!(queue.dequeue().is_none());
}

#[test]
fn table_keeps_one_record_per_code() {
    let mut table = InventoryTable::new();
    assert!(table.list().is_empty());
    table.insert(record("A1", "Widget", 10));
    table.insert(record("A2", "Gadget", 5));
    table.insert(record("A1", "Widget", 99));
    let listed = table.list();
    assert_eq!(listed.len(), 2);
    let mut found_a1 = false;
    let mut found_a2 = false;
    for it in &listed {
        if it.code == "A1" {
            assert_eq!(it.quantity, 99);
            found_a1 = true;
        }
        if it.code == "A2" {
            assert_eq!(it.quantity, 5);
            found_a2 = true;
        }
    }
    assert!(found_a1 && found_a2);
}

#[test]
fn cloned_record_keeps_all_fields() {
    let it = record("A1", "Widget", 10);
    let copy = it.clone();
    assert_eq!(copy.code, "A1");
    assert_eq!(copy.name, "Widget");
    assert_eq!(copy.quantity, 10);
}
