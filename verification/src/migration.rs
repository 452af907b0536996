//! Upgrading a database of the older schema, where orders carried their own
//! totals and payment mode, to the layout with separate bills and payments.
use vstd::prelude::*;
use vstd::string::*;

use crate::status::{parse_payment_method, KotStatus, OrderStatus, PaymentMethod, TableStatus};
use crate::text::{int_text, int_to_text, join2, same_text};

verus! {

/// The older schema is recognised by an `orders` table without a `bills` table.
pub fn needs_schema_upgrade(orders_tables: i64, bills_tables: i64) -> (r: bool)
    ensures
        r == (orders_tables > 0 && bills_tables == 0),
{
    orders_tables > 0 && bills_tables == 0
}

/// The status an old-schema order keeps: drafts become pending orders.
pub open spec fn migrated_order_status_text(old_status: Seq<char>) -> Seq<char> {
    if old_status == "Draft"@ {
        "Pending"@
    } else {
        old_status
    }
}

pub fn migrated_order_status(old_status: &str) -> (s: String)
    ensures
        s@ == migrated_order_status_text(old_status@),
        old_status@ == "Draft"@ ==> s@ == "Pending"@,
        old_status@ != "Draft"@ ==> s@ == old_status@,
{
    if same_text(old_status, "Draft") {
        String::from_str("Pending")
    } else {
        String::from_str(old_status)
    }
}

/// The bill an old-schema order gets, by its status: billed orders get an unpaid
/// bill, completed ones a paid bill, cancelled ones a cancelled bill, and
/// others none.
pub open spec fn migrated_bill_status_text(old_status: Seq<char>) -> Option<Seq<char>> {
    if old_status == "Completed"@ {
        Some("Paid"@)
    } else if old_status == "Billed"@ {
        Some("Unpaid"@)
    } else if old_status == "Cancelled"@ {
        Some("Cancelled"@)
    } else {
        None
    }
}

pub fn migrated_bill_status(old_status: &str) -> (r: Option<&'static str>)
    ensures
        match migrated_bill_status_text(old_status@) {
            Some(t) => r matches Some(s) && s@ == t,
            None => r is None,
        },
        old_status@ == "Completed"@ ==> (r matches Some(t) && t@ == "Paid"@),
        old_status@ == "Billed"@ ==> (r matches Some(t) && t@ == "Unpaid"@),
        old_status@ == "Cancelled"@ ==> (r matches Some(t) && t@ == "Cancelled"@),
        old_status@ != "Completed"@ && old_status@ != "Billed"@ && old_status@ != "Cancelled"@ ==> r is None,
{
    proof {
        reveal_strlit("Completed");
        reveal_strlit("Billed");
        reveal_strlit("Cancelled");
        assert("Completed"@.len() != "Billed"@.len());
        assert("Billed"@.len() != "Cancelled"@.len());
        assert("Completed"@[1] != "Cancelled"@[1]);
    }
    if same_text(old_status, "Completed") {
        Some("Paid")
    } else if same_text(old_status, "Billed") {
        Some("Unpaid")
    } else if same_text(old_status, "Cancelled") {
        Some("Cancelled")
    } else {
        None
    }
}

/// The number of a bill made for old-schema order `order_id`.
pub fn migrated_bill_number(order_id: i64) -> (s: String)
    ensures
        s@ == "BILL-"@ + int_text(order_id as int),
{
    let id_text = int_to_text(order_id);
    join2("BILL-", id_text.as_str())
}

/// The payment an old-schema order gets: only a completed order with a payment
/// mode other than "None" gets one, in its mode when that is a known method
/// and in cash otherwise.
pub open spec fn migrated_payment_method_of(old_status: Seq<char>, payment_mode: Option<Seq<char>>) -> Option<PaymentMethod> {
    if old_status == "Completed"@ {
        match payment_mode {
            Some(mode) => if mode == "None"@ {
                None
            } else {
                match parse_payment_method(mode) {
                    Some(m) => Some(m),
                    None => Some(PaymentMethod::Cash),
                }
            },
            None => None,
        }
    } else {
        None
    }
}

pub fn migrated_payment_method(old_status: &str, payment_mode: Option<&str>) -> (r: Option<PaymentMethod>)
    ensures
        r == migrated_payment_method_of(
            old_status@,
            match payment_mode {
                Some(m) => Some(m@),
                None => None,
            },
        ),
        forall|pm: PaymentMethod|
            old_status@ == "Completed"@ && (payment_mode matches Some(m) && m@ == #[trigger] pm.label())
                ==> r == Some(pm),
        old_status@ != "Completed"@ || payment_mode is None ==> r is None,
{
    proof {
        assert forall|pm: PaymentMethod|
            old_status@ == "Completed"@ && (payment_mode matches Some(m) && m@ == #[trigger] pm.label())
                implies migrated_payment_method_of(
                old_status@,
                match payment_mode {
                    Some(m) => Some(m@),
                    None => None,
                },
            ) == Some(pm) by {
            lemma_migrated_payment_rule(old_status@, Some(pm.label()), pm);
        }
    }
    if !same_text(old_status, "Completed") {
        return None;
    }
    match payment_mode {
        None => None,
        Some(mode) => if same_text(mode, "None") {
            None
        } else {
            match PaymentMethod::parse(mode) {
                Some(m) => Some(m),
                None => Some(PaymentMethod::Cash),
            }
        },
    }
}

/// Every old-schema order that gets a payment also gets a bill, and it is a paid one.
pub proof fn lemma_migrated_payments_have_paid_bills(old_status: Seq<char>, payment_mode: Option<Seq<char>>)
    ensures
        migrated_payment_method_of(old_status, payment_mode) is Some ==> migrated_bill_status_text(old_status) == Some("Paid"@),
{
}


/// Which payment an old-schema order gets: none unless it was completed and
/// had a payment mode; for a completed order whose mode is the label of a
/// payment method (Cash, UPI, Card, NC), that method; none for the mode
/// "None"; and cash for any other mode.
pub proof fn lemma_migrated_payment_rule(old_status: Seq<char>, payment_mode: Option<Seq<char>>, pm: PaymentMethod)
    ensures
        old_status != "Completed"@ || payment_mode is None ==> migrated_payment_method_of(old_status, payment_mode)
            is None,
        old_status == "Completed"@ && payment_mode == Some(pm.label()) ==> migrated_payment_method_of(
            old_status,
            payment_mode,
        ) == Some(pm),
        old_status == "Completed"@ && payment_mode == Some("None"@) ==> migrated_payment_method_of(
            old_status,
            payment_mode,
        ) is None,
        old_status == "Completed"@ && (payment_mode matches Some(m) && m != "None"@ && forall|p: PaymentMethod|
            m != #[trigger] p.label()) ==> migrated_payment_method_of(old_status, payment_mode) == Some(
            PaymentMethod::Cash,
        ),
{
    reveal_strlit("None");
    reveal_strlit("Cash");
    reveal_strlit("UPI");
    reveal_strlit("Card");
    reveal_strlit("NC");
    assert("None"@.len() != "UPI"@.len());
    assert("None"@.len() != "NC"@.len());
    assert("None"@[0] != "Cash"@[0]);
    assert("None"@[0] != "Card"@[0]);
    assert(pm.label() != "None"@);
    crate::status::lemma_labels_round_trip(KotStatus::Pending, OrderStatus::Pending, TableStatus::Free, pm);
    if let Some(m) = payment_mode {
        if let Some(x) = parse_payment_method(m) {
            assert(m == x.label());
        }
    }
}

} // verus!
