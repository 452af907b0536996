use mealdesk::orders::{
    billable_quantity, cancellation_note, check_item_cancellation, check_order_editable,
    item_added_note, item_cancelled_note, item_deleted_note, kot_created_note, order_cancelled_note,
    order_created_note, order_update_note, check_order_cancellable, kitchen_returns, plan_order_update, IncomingItem,
    ItemAction, ItemStanding, StoredItem, TicketItem,
};

fn stored(id: i64, product_id: i64, quantity: i64, price_key: u64, notes: Option<&str>, sent: bool) -> StoredItem {
    StoredItem { id, product_id, quantity, price_key, notes: notes.map(|s| s.to_string()), sent_to_kitchen: sent }
}

fn incoming(id: Option<i64>, product_id: i64, name: &str, quantity: i64, price_key: u64, notes: Option<&str>) -> IncomingItem {
    IncomingItem {
        id,
        product_id,
        name: name.to_string(),
        quantity,
        price_key,
        notes: notes.map(|s| s.to_string()),
    }
}

#[test]
fn final_orders_cannot_be_edited() {
    for s in ["Billed", "Completed", "Cancelled"] {
        assert_eq!(check_order_editable(s), Err("Cannot update order in its current final status".to_string()));
    }
    assert_eq!(check_order_editable("Pending"), Ok(()));
    assert_eq!(check_order_editable("Draft"), Ok(()));
}

#[test]
fn update_plan_actions() {
    let db = vec![
        stored(1, 10, 2, 100, None, true),
        stored(2, 11, 1, 200, Some("spicy"), true),
        stored(3, 12, 5, 300, None, false),
        stored(4, 13, 1, 400, None, false),
    ];
    let new = vec![
        incoming(Some(1), 10, "Tea", 2, 100, None),
        incoming(Some(2), 11, "Wings", 1, 200, Some("mild")),
        incoming(Some(3), 12, "Rice", 7, 350, Some("no onion")),
        incoming(None, 14, "Brownie", 1, 500, None),
    ];
    let plan = plan_order_update(&db, &new).unwrap();
    assert_eq!(
        plan.actions,
        vec![ItemAction::Keep, ItemAction::RewriteNotes, ItemAction::Rewrite, ItemAction::Insert]
    );
    assert_eq!(plan.removed, vec![4]);
    assert!(plan.needs_kitchen_ticket);
}

#[test]
fn update_plan_without_unsent_lines_needs_no_ticket() {
    let db = vec![stored(1, 10, 2, 100, None, true), stored(2, 11, 1, 200, None, false)];
    let new = vec![incoming(Some(1), 10, "Tea", 2, 100, None)];
    let plan = plan_order_update(&db, &new).unwrap();
    assert_eq!(plan.actions, vec![ItemAction::Keep]);
    assert_eq!(plan.removed, vec![2]);
    assert!(!plan.needs_kitchen_ticket);

    let empty = plan_order_update(&vec![], &vec![]).unwrap();
    assert!(empty.actions.is_empty());
    assert!(empty.removed.is_empty());
    assert!(!empty.needs_kitchen_ticket);
}

#[test]
fn update_plan_unknown_item() {
    let db = vec![stored(1, 10, 2, 100, None, false)];
    let new = vec![incoming(Some(9), 10, "Tea", 2, 100, None)];
    assert_eq!(
        plan_order_update(&db, &new).err(),
        Some("Order item with ID 9 not found in this order".to_string())
    );
}

#[test]
fn update_plan_sent_items_are_immutable() {
    let db = vec![stored(1, 10, 2, 100, None, true)];
    for changed in [
        incoming(Some(1), 11, "Tea", 2, 100, None),
        incoming(Some(1), 10, "Tea", 3, 100, None),
        incoming(Some(1), 10, "Tea", 2, 101, None),
    ] {
        assert_eq!(
            plan_order_update(&db, &vec![changed]).err(),
            Some("Sent KOT item (ID 1, Product 'Tea') is immutable. Modifications must go through the cancellation workflow.".to_string())
        );
    }
}

#[test]
fn update_plan_first_refusal_wins() {
    let db = vec![stored(1, 10, 2, 100, None, true), stored(2, 11, 1, 100, None, true)];
    let new = vec![
        incoming(None, 12, "New", 1, 1, None),
        incoming(Some(5), 10, "Tea", 2, 100, None),
        incoming(Some(1), 10, "Tea", 9, 100, None),
    ];
    assert_eq!(
        plan_order_update(&db, &new).err(),
        Some("Order item with ID 5 not found in this order".to_string())
    );
}

#[test]
fn update_plan_cannot_drop_sent_line() {
    let db = vec![stored(1, 10, 2, 100, None, false), stored(2, 11, 1, 100, None, true), stored(3, 11, 1, 100, None, true)];
    let new = vec![incoming(Some(1), 10, "Tea", 2, 100, None)];
    assert_eq!(
        plan_order_update(&db, &new).err(),
        Some("Cannot delete order item ID 2 because it was already sent to the kitchen.".to_string())
    );
}

#[test]
fn order_cancellation_returns_outstanding_sent_lines() {
    let items = vec![
        ItemStanding { product_id: 10, quantity: 3, cancelled_quantity: 1, notes: Some("hot".to_string()), sent_to_kitchen: true },
        ItemStanding { product_id: 11, quantity: 2, cancelled_quantity: 2, notes: None, sent_to_kitchen: true },
        ItemStanding { product_id: 12, quantity: 4, cancelled_quantity: 0, notes: None, sent_to_kitchen: false },
        ItemStanding { product_id: 13, quantity: 1, cancelled_quantity: 0, notes: None, sent_to_kitchen: true },
    ];
    assert_eq!(check_order_cancellable("Pending"), Ok(()));
    assert_eq!(check_order_cancellable("Completed"), Ok(()));
    let lines = kitchen_returns(&items, "guest left");
    assert_eq!(lines.len(), 2);
    assert_eq!((lines[0].product_id, lines[0].quantity), (10, -2));
    assert_eq!(lines[0].notes, "CANCELLED: hot (Reason: guest left)");
    assert_eq!((lines[1].product_id, lines[1].quantity), (13, -1));
    assert_eq!(lines[1].notes, "CANCELLED (Reason: guest left)");

    assert_eq!(check_order_cancellable("Cancelled"), Err("Order is already cancelled".to_string()));
    assert_eq!(kitchen_returns(&vec![], "x").len(), 0);
}

#[test]
fn item_cancellation_checks() {
    assert_eq!(
        check_item_cancellation(false, 3, 0, 1),
        Err("Cannot cancel an item that has not been sent to the kitchen. You can remove it from the cart directly.".to_string())
    );
    assert_eq!(check_item_cancellation(true, 3, 1, 2), Ok(()));
    assert_eq!(
        check_item_cancellation(true, 3, 1, 3),
        Err("Invalid quantity to cancel: requested 3, effective is 2".to_string())
    );
    assert_eq!(
        check_item_cancellation(true, 3, 0, 0),
        Err("Invalid quantity to cancel: requested 0, effective is 3".to_string())
    );
    assert_eq!(
        check_item_cancellation(true, 3, 0, -1),
        Err("Invalid quantity to cancel: requested -1, effective is 3".to_string())
    );
}

#[test]
fn billable_quantities() {
    assert_eq!(billable_quantity(5, 2), 3);
    assert_eq!(billable_quantity(2, 2), 0);
    assert_eq!(billable_quantity(1, 4), 0);
}

#[test]
fn cancellation_notes() {
    assert_eq!(cancellation_note(&Some("extra cheese".to_string()), "wrong"), "CANCELLED: extra cheese (Reason: wrong)");
    assert_eq!(cancellation_note(&None, "wrong"), "CANCELLED (Reason: wrong)");
}

#[test]
fn order_audit_notes() {
    let n = order_update_note(4, "Pending");
    assert_eq!((n.action.as_str(), n.target_type.as_str(), n.target_id), ("update_order", "orders", Some(4)));
    assert_eq!(n.details.as_deref(), Some("Updating order. Old status: Pending"));
    let n = item_added_note(12, "Masala Chai", 2, 4);
    assert_eq!((n.action.as_str(), n.target_type.as_str(), n.target_id), ("add_item", "order_items", Some(12)));
    assert_eq!(n.details.as_deref(), Some("Added item Masala Chai (Qty 2) to order 4"));
    let n = item_deleted_note(12, 4);
    assert_eq!((n.action.as_str(), n.target_type.as_str(), n.target_id), ("delete_item", "order_items", Some(12)));
    assert_eq!(n.details.as_deref(), Some("Deleted unsent item from order 4"));
    let n = order_created_note(4);
    assert_eq!((n.action.as_str(), n.target_type.as_str(), n.target_id), ("create_order", "orders", Some(4)));
    assert_eq!(n.details.as_deref(), Some("Created order in status Pending"));
    let n = kot_created_note(8, 4);
    assert_eq!((n.action.as_str(), n.target_type.as_str(), n.target_id), ("create_kot", "kot", Some(8)));
    assert_eq!(n.details.as_deref(), Some("Created KOT for order: 4"));
    let n = order_cancelled_note(4, "guest left");
    assert_eq!((n.action.as_str(), n.target_type.as_str(), n.target_id), ("cancel_order", "orders", Some(4)));
    assert_eq!(n.details.as_deref(), Some("Cancelled entire order. Reason: guest left"));
    let n = item_cancelled_note(12, 1, "Masala Chai", "spilled");
    assert_eq!((n.action.as_str(), n.target_type.as_str(), n.target_id), ("cancel_item", "order_items", Some(12)));
    assert_eq!(n.details.as_deref(), Some("Cancelled 1 x Masala Chai. Reason: spilled"));
}

#[test]
fn repeated_cancellations_never_exceed_the_order() {
    let quantity = 5;
    let mut cancelled = 0;
    let mut accepted = 0;
    for request in [2, 4, 1, 3, 2, 1] {
        if check_item_cancellation(true, quantity, cancelled, request).is_ok() {
            cancelled += request;
            accepted += 1;
        }
        assert!(quantity - cancelled >= 0);
    }
    assert_eq!(cancelled, 5);
    assert_eq!(accepted, 3);
}

#[test]
fn edits_drop_exactly_the_unlisted_lines() {
    let db = vec![
        stored(1, 10, 1, 1, None, false),
        stored(2, 10, 1, 1, None, false),
        stored(3, 10, 1, 1, None, true),
        stored(4, 10, 1, 1, None, false),
    ];
    let new = vec![incoming(Some(3), 10, "A", 1, 1, None), incoming(Some(2), 10, "A", 2, 1, None)];
    let plan = plan_order_update(&db, &new).unwrap();
    assert_eq!(plan.removed, vec![1, 4]);
    assert_eq!(plan.actions, vec![ItemAction::Keep, ItemAction::Rewrite]);
    assert!(plan.needs_kitchen_ticket);
}

#[test]
fn new_ticket_holds_only_unsent_lines() {
    // Line 1 was sent on the first ticket; the edit keeps it and adds a second line.
    let db = vec![stored(1, 1, 2, 150, None, true)];
    let new = vec![incoming(Some(1), 1, "Iced Latte", 2, 150, None), incoming(None, 2, "Masala Chai", 1, 40, None)];
    let plan = plan_order_update(&db, &new).unwrap();
    assert_eq!(plan.actions, vec![ItemAction::Keep, ItemAction::Insert]);
    assert!(plan.needs_kitchen_ticket);
    assert_eq!(plan.ticket.len(), 1);
    assert_eq!(plan.ticket[0].item, TicketItem::Added(1));
    assert_eq!((plan.ticket[0].product_id, plan.ticket[0].quantity), (2, 1));
    assert_eq!(plan.ticket[0].notes, None);
}

#[test]
fn new_ticket_lists_rewritten_unsent_lines_then_added_lines() {
    let db = vec![
        stored(5, 10, 1, 1, None, false),
        stored(6, 11, 1, 1, None, true),
        stored(7, 12, 3, 1, Some("old"), false),
    ];
    let new = vec![
        incoming(None, 20, "New", 4, 9, Some("n")),
        incoming(Some(7), 12, "C", 2, 1, Some("first")),
        incoming(Some(6), 11, "B", 1, 1, None),
        incoming(Some(7), 12, "C", 5, 1, Some("last")),
    ];
    let plan = plan_order_update(&db, &new).unwrap();
    assert_eq!(plan.removed, vec![5]);
    let lines: Vec<(TicketItem, i64, i64, Option<String>)> =
        plan.ticket.into_iter().map(|l| (l.item, l.product_id, l.quantity, l.notes)).collect();
    assert_eq!(
        lines,
        vec![
            (TicketItem::Stored(7), 12, 5, Some("last".to_string())),
            (TicketItem::Added(0), 20, 4, Some("n".to_string())),
        ]
    );
}

#[test]
fn no_unsent_lines_means_no_ticket_lines() {
    let db = vec![stored(1, 1, 2, 150, Some("a"), true)];
    let new = vec![incoming(Some(1), 1, "Iced Latte", 2, 150, Some("b"))];
    let plan = plan_order_update(&db, &new).unwrap();
    assert_eq!(plan.actions, vec![ItemAction::RewriteNotes]);
    assert!(!plan.needs_kitchen_ticket);
    assert!(plan.ticket.is_empty());
}
