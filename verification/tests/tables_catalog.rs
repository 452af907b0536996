use mealdesk::catalog::{
    check_category_deletion, check_product_deletion, customer_write, product_write, CustomerWrite, ProductWrite,
};
use mealdesk::migration::{
    migrated_bill_number, migrated_bill_status, migrated_order_status, migrated_payment_method,
    needs_schema_upgrade,
};
use mealdesk::seed::{default_categories, default_restaurant_info, default_table_names, needs_seeding};
use mealdesk::status::{KotStatus, OrderStatus, PaymentMethod, TableStatus};
use mealdesk::tables::{check_transfer_target, merge_note, order_to_transfer, table_changes, transfer_note};

#[test]
fn transfer_checks() {
    assert_eq!(order_to_transfer(Some(5)), Ok(5));
    assert_eq!(order_to_transfer(None), Err("No active order on source table".to_string()));
    assert_eq!(check_transfer_target("Free"), Ok(()));
    assert_eq!(check_transfer_target("Occupied"), Err("Target table is not free".to_string()));
    assert_eq!(check_transfer_target("Billed"), Err("Target table is not free".to_string()));
}

#[test]
fn table_changes_on_reassignment() {
    let c = table_changes(Some(1), Some(2));
    assert_eq!((c.release, c.occupy), (Some(1), Some(2)));
    let c = table_changes(Some(1), Some(1));
    assert_eq!((c.release, c.occupy), (None, Some(1)));
    let c = table_changes(Some(1), None);
    assert_eq!((c.release, c.occupy), (Some(1), None));
    let c = table_changes(None, Some(3));
    assert_eq!((c.release, c.occupy), (None, Some(3)));
    let c = table_changes(None, None);
    assert_eq!((c.release, c.occupy), (None, None));
}

#[test]
fn table_audit_notes() {
    let n = transfer_note(1, 20, 2);
    assert_eq!((n.action.as_str(), n.target_type.as_str(), n.target_id), ("transfer_table", "tables", Some(1)));
    assert_eq!(n.details.as_deref(), Some("Transferred order 20 from table ID 1 to ID 2"));
    let n = merge_note(3, 4);
    assert_eq!((n.action.as_str(), n.target_type.as_str(), n.target_id), ("merge_tables", "tables", Some(3)));
    assert_eq!(n.details.as_deref(), Some("Merged table ID 3 into table ID 4"));
}

#[test]
fn deletion_guards() {
    assert_eq!(check_category_deletion(0), Ok(()));
    assert_eq!(
        check_category_deletion(3),
        Err("Cannot delete category: 3 product(s) still belong to it. Delete or reassign products first.".to_string())
    );
    assert_eq!(check_product_deletion(0), Ok(()));
    assert_eq!(
        check_product_deletion(2),
        Err("Cannot delete product: it has been used in 2 order(s). Mark it as unavailable instead.".to_string())
    );
}

#[test]
fn upsert_choices() {
    assert_eq!(product_write(Some(4), true), ProductWrite::Update { id: 4, available: 1 });
    assert_eq!(product_write(None, false), ProductWrite::Insert { available: 0 });
    assert_eq!(customer_write(Some(2), Some(50)), CustomerWrite::UpdateWithPoints { id: 2, points: 50 });
    assert_eq!(customer_write(Some(2), None), CustomerWrite::UpdateKeepingPoints { id: 2 });
    assert_eq!(customer_write(None, Some(7)), CustomerWrite::Insert { points: 7 });
    assert_eq!(customer_write(None, None), CustomerWrite::Insert { points: 0 });
}

#[test]
fn seed_defaults() {
    assert!(needs_seeding(0));
    assert!(!needs_seeding(1));
    assert!(!needs_seeding(12));
    let names = default_table_names();
    assert_eq!(names.len(), 12);
    assert_eq!(names[0], "Table 1");
    assert_eq!(names[11], "Table 12");
    let cats = default_categories();
    let pairs: Vec<(String, String)> = cats.into_iter().map(|c| (c.name, c.description)).collect();
    assert_eq!(pairs[0], ("Beverages".to_string(), "Cold & hot drinks".to_string()));
    assert_eq!(pairs[3], ("Desserts".to_string(), "Sweet treats".to_string()));
    let info = default_restaurant_info();
    assert_eq!(info.name, "MealDesk Bistro");
    assert_eq!(info.logo.as_deref(), Some(""));
    assert_eq!(info.gstin.as_deref(), Some("27AAAAA1111A1Z1"));
    assert_eq!(info.receipt_footer.as_deref(), Some("Thank you for dining with us!"));
}

#[test]
fn schema_upgrade_rules() {
    assert!(needs_schema_upgrade(1, 0));
    assert!(!needs_schema_upgrade(1, 1));
    assert!(!needs_schema_upgrade(0, 0));
    assert_eq!(migrated_order_status("Draft"), "Pending");
    assert_eq!(migrated_order_status("Billed"), "Billed");
    assert_eq!(migrated_bill_status("Completed"), Some("Paid"));
    assert_eq!(migrated_bill_status("Billed"), Some("Unpaid"));
    assert_eq!(migrated_bill_status("Cancelled"), Some("Cancelled"));
    assert_eq!(migrated_bill_status("Draft"), None);
    assert_eq!(migrated_bill_number(17), "BILL-17");
    assert_eq!(migrated_payment_method("Completed", Some("UPI")), Some(PaymentMethod::Upi));
    assert_eq!(migrated_payment_method("Completed", Some("Wallet")), Some(PaymentMethod::Cash));
    assert_eq!(migrated_payment_method("Completed", Some("None")), None);
    assert_eq!(migrated_payment_method("Completed", None), None);
    assert_eq!(migrated_payment_method("Billed", Some("Card")), None);
}

#[test]
fn status_labels_round_trip() {
    for k in [KotStatus::Pending, KotStatus::Preparing, KotStatus::Ready, KotStatus::Completed] {
        assert_eq!(KotStatus::parse(k.as_str()), Some(k));
    }
    for o in [OrderStatus::Pending, OrderStatus::Billed, OrderStatus::Completed, OrderStatus::Cancelled] {
        assert_eq!(OrderStatus::parse(o.as_str()), Some(o));
    }
    for t in [TableStatus::Free, TableStatus::Occupied, TableStatus::Billed] {
        assert_eq!(TableStatus::parse(t.as_str()), Some(t));
    }
    for p in [PaymentMethod::Cash, PaymentMethod::Upi, PaymentMethod::Card, PaymentMethod::Nc] {
        assert_eq!(PaymentMethod::parse(p.as_str()), Some(p));
    }
    assert_eq!(PaymentMethod::parse("upi"), None);
    assert_eq!(TableStatus::parse(""), None);
}

#[test]
fn default_table_names_are_distinct() {
    let names = default_table_names();
    let mut sorted = names.clone();
    sorted.sort();
    sorted.dedup();
    assert_eq!(sorted.len(), names.len());
    for (i, n) in names.iter().enumerate() {
        assert_eq!(n, &format!("Table {}", i + 1));
    }
}

#[test]
fn migrated_payments_come_with_paid_bills() {
    for status in ["Draft", "Pending", "Billed", "Completed", "Cancelled"] {
        for mode in [None, Some("Cash"), Some("UPI"), Some("None"), Some("Other")] {
            if migrated_payment_method(status, mode).is_some() {
                assert_eq!(migrated_bill_status(status), Some("Paid"));
            }
        }
    }
}
