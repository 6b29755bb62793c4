use inventory::manager::InventoryApp;

fn add(app: &mut InventoryApp, code: &str, name: &str, quantity: u32) {
    app.add_item(code.to_string(), name.to_string(), quantity);
}

#[test]
fn two_adds_fill_the_table() {
    let mut app = InventoryApp::new();
    add(&mut app, "A1", "Widget", 10);
    add(&mut app, "A2", "Gadget", 5);
    let listed = app.list_inventory();
    assert_eq!(listed.len(), 2);
    let mut codes: Vec<String> = listed.iter().map(|it| it.code.clone()).collect();
    codes.sort();
    assert_eq!(codes, vec!["A1".to_string(), "A2".to_string()]);
}

#[test]
fn pop_stack_returns_reverse_insertion_order() {
    let mut app = InventoryApp::new();
    add(&mut app, "A1", "Widget", 10);
    add(&mut app, "A2", "Gadget", 5);
    let first = app.pop_stack().unwrap();
    assert_eq!(first.code, "A2");
    assert_eq!(first.name, "Gadget");
    assert_eq!(first.quantity, 5);
    let second = app.pop_stack().unwrap();
    assert_eq!(second.code, "A1");
    assert_eq!(second.name, "Widget");
    assert_eq!(second.quantity, 10);
    assert!(app.pop_stack().is_none());
}

#[test]
fn pop_queue_returns_insertion_order() {
    let mut app = InventoryApp::new();
    add(&mut app, "A1", "Widget", 10);
    add(&mut app, "A2", "Gadget", 5);
    let first = app.pop_queue().unwrap();
    assert_eq!(first.code, "A1");
    assert_eq!(first.name, "Widget");
    assert_eq!(first.quantity, 10);
    let second = app.pop_queue().unwrap();
    assert_eq!(second.code, "A2");
    assert_eq!(second.name, "Gadget");
    assert_eq!(second.quantity, 5);
    assert!(app.pop_queue().is_none());
}

#[test]
fn same_code_overwrites_table_but_logs_both() {
    let mut app = InventoryApp::new();
    add(&mut app, "A1", "Widget", 10);
    add(&mut app, "A1", "Widget", 99);
    let listed = app.list_inventory();
    assert_eq!(listed.len(), 1);
    assert_eq!(listed[0].code, "A1");
    assert_eq!(listed[0].quantity, 99);
    let top = app.pop_stack().unwrap();
    assert_eq!(top.quantity, 99);
    let next = app.pop_stack().unwrap();
    assert_eq!(next.quantity, 10);
    assert!(app.pop_stack().is_none());
    let front = app.pop_queue().unwrap();
    assert_eq!(front.quantity, 10);
    let back = app.pop_queue().unwrap();
    assert_eq!(back.quantity, 99);
    assert!(app.pop_queue().is_none());
}

#[test]
fn peeks_do_not_mutate_and_repeat() {
    let mut app = InventoryApp::new();
    add(&mut app, "A1", "Widget", 10);
    add(&mut app, "A2", "Gadget", 5);
    for _ in 0..3 {
        let top = app.peek_stack().unwrap();
        assert_eq!(top.code, "A2");
        assert_eq!(top.quantity, 5);
        let front = app.peek_queue().unwrap();
        assert_eq!(front.code, "A1");
        assert_eq!(front.quantity, 10);
    }
    app.pop_stack().unwrap();
    let top = app.peek_stack().unwrap();
    assert_eq!(top.code, "A1");
    app.pop_queue().unwrap();
    let front = app.peek_queue().unwrap();
    assert_eq!(front.code, "A2");
}

#[test]
fn empty_containers_signal_empty_and_stay_usable() {
    let mut app = InventoryApp::new();
    assert!(app.peek_stack().is_none());
    assert!(app.peek_queue().is_none());
    assert!(app.pop_stack().is_none());
    assert!(app.pop_queue().is_none());
    assert!(app.list_inventory().is_empty());
    add(&mut app, "A1", "Widget", 10);
    assert_eq!(app.peek_stack().unwrap().code, "A1");
    assert_eq!(app.peek_queue().unwrap().code, "A1");
}

#[test]
fn table_size_counts_distinct_codes_and_logs_count_all_adds() {
    let mut app = InventoryApp::new();
    add(&mut app, "A1", "Widget", 1);
    add(&mut app, "A2", "Gadget", 2);
    add(&mut app, "A1", "Widget", 3);
    add(&mut app, "A3", "Gizmo", 4);
    add(&mut app, "A2", "Gadget", 5);
    assert_eq!(app.list_inventory().len(), 3);
    let mut stack_count = 0;
    while app.pop_stack().is_some() {
        stack_count += 1;
    }
    assert_eq!(stack_count, 5);
    let mut app2 = InventoryApp::new();
    add(&mut app2, "A1", "Widget", 1);
    add(&mut app2, "A1", "Widget", 2);
    add(&mut app2, "A1", "Widget", 3);
    let mut queue_count = 0;
    while app2.pop_queue().is_some() {
        queue_count += 1;
    }
    assert_eq!(queue_count, 3);
}

#[test]
fn table_outlives_drained_stack_and_queue() {
    let mut app = InventoryApp::new();
    add(&mut app, "A1", "Widget", 10);
    while app.pop_stack().is_some() {}
    while app.pop_queue().is_some() {}
    let listed = app.list_inventory();
    assert_eq!(listed.len(), 1);
    assert_eq!(listed[0].code, "A1");
}

#[test]
fn largest_quantity_is_permitted() {
    let mut app = InventoryApp::new();
    add(&mut app, "A1", "Widget", u32::MAX);
    assert_eq!(app.peek_stack().unwrap().quantity, u32::MAX);
    let listed = app.list_inventory();
    assert_eq!(listed.len(), 1);
    assert_eq!(listed[0].quantity, u32::MAX);
}

#[test]
fn empty_strings_and_zero_quantity_are_permitted() {
    let mut app = InventoryApp::new();
    add(&mut app, "", "", 0);
    let listed = app.list_inventory();
    assert_eq!(listed.len(), 1);
    assert_eq!(listed[0].code, "");
    assert_eq!(listed[0].name, "");
    assert_eq!(listed[0].quantity, 0);
    let top = app.pop_stack().unwrap();
    assert_eq!(top.code, "");
    assert_eq!(top.quantity, 0);
}
