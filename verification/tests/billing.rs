use mealdesk::billing::{bill_generated_note, bill_number, change_giving_payment};
use mealdesk::text::{int_to_text, int_to_zero_padded_text, nat_to_text, same_optional_text, same_text};

#[test]
fn bill_numbers_are_zero_padded() {
    assert_eq!(bill_number(1), "BILL-00001");
    assert_eq!(bill_number(42), "BILL-00042");
    assert_eq!(bill_number(99999), "BILL-99999");
    assert_eq!(bill_number(123456), "BILL-123456");
    assert_eq!(bill_number(0), "BILL-00000");
    for id in [-1i64, -12345, 7, 100000, i64::MAX, i64::MIN] {
        assert_eq!(bill_number(id), format!("BILL-{:05}", id));
    }
}

#[test]
fn bill_numbers_are_distinct() {
    let numbers: Vec<String> = (0..2000).map(bill_number).collect();
    let mut sorted = numbers.clone();
    sorted.sort();
    sorted.dedup();
    assert_eq!(sorted.len(), numbers.len());
}

#[test]
fn integer_texts_match_display() {
    for n in [0i64, 5, 10, 99, 100, -1, -10, 1234567890, i64::MAX, i64::MIN] {
        assert_eq!(int_to_text(n), n.to_string());
        for w in [0usize, 1, 3, 5, 12] {
            assert_eq!(int_to_zero_padded_text(n, w), format!("{:0w$}", n, w = w));
        }
    }
    assert_eq!(nat_to_text(u64::MAX), u64::MAX.to_string());
}

#[test]
fn text_equality() {
    assert!(same_text("Cash", "Cash"));
    assert!(!same_text("Cash", "cash"));
    assert!(!same_text("Cash", "Cas"));
    assert!(same_text("चाय", "चाय"));
    assert!(same_optional_text(&None, &None));
    assert!(!same_optional_text(&Some(String::new()), &None));
    assert!(same_optional_text(&Some("a".to_string()), &Some("a".to_string())));
}

#[test]
fn bill_audit_note() {
    let n = bill_generated_note(3, "BILL-00003", 9);
    assert_eq!((n.action.as_str(), n.target_type.as_str(), n.target_id), ("generate_bill", "bills", Some(3)));
    assert_eq!(n.details.as_deref(), Some("Generated bill BILL-00003 for order 9"));
}

#[test]
fn change_is_given_by_the_last_cash_payment() {
    let m = |v: &[&str]| v.iter().map(|s| s.to_string()).collect::<Vec<String>>();
    assert_eq!(change_giving_payment(&m(&["Cash", "UPI", "Cash", "Card"])), Some(2));
    assert_eq!(change_giving_payment(&m(&["UPI", "Card"])), None);
    assert_eq!(change_giving_payment(&m(&[])), None);
    assert_eq!(change_giving_payment(&m(&["cash"])), None);
}

#[test]
fn bills_are_made_once() {
    assert!(mealdesk::billing::needs_new_bill(None));
    assert!(!mealdesk::billing::needs_new_bill(Some(3)));
}
