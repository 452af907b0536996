//! The status vocabularies that the database schema allows, with their labels,
//! and the kitchen ticket lifecycle.
use vstd::prelude::*;

use crate::text::same_text;

verus! {

/// Stage of a kitchen order ticket.
#[derive(Clone, Copy, Debug, PartialEq, Eq, Structural)]
pub enum KotStatus {
    Pending,
    Preparing,
    Ready,
    Completed,
}

/// Status of an order.
#[derive(Clone, Copy, Debug, PartialEq, Eq, Structural)]
pub enum OrderStatus {
    Pending,
    Billed,
    Completed,
    Cancelled,
}

/// Status of a dining table.
#[derive(Clone, Copy, Debug, PartialEq, Eq, Structural)]
pub enum TableStatus {
    Free,
    Occupied,
    Billed,
}

/// How a payment was made (`Nc`: no charge).
#[derive(Clone, Copy, Debug, PartialEq, Eq, Structural)]
pub enum PaymentMethod {
    Cash,
    Upi,
    Card,
    Nc,
}

impl KotStatus {
    /// The label stored in the database.
    pub open spec fn label(self) -> Seq<char> {
        match self {
            KotStatus::Pending => "Pending"@,
            KotStatus::Preparing => "Preparing"@,
            KotStatus::Ready => "Ready"@,
            KotStatus::Completed => "Completed"@,
        }
    }

    /// Position in the lifecycle Pending, Preparing, Ready, Completed.
    pub open spec fn rank(self) -> int {
        match self {
            KotStatus::Pending => 0,
            KotStatus::Preparing => 1,
            KotStatus::Ready => 2,
            KotStatus::Completed => 3,
        }
    }

    pub fn as_str(&self) -> (s: &'static str)
        ensures
            s@ == self.label(),
    {
        match self {
            KotStatus::Pending => "Pending",
            KotStatus::Preparing => "Preparing",
            KotStatus::Ready => "Ready",
            KotStatus::Completed => "Completed",
        }
    }

    /// Reads a stored label; any other text is no kitchen status.
    pub fn parse(s: &str) -> (r: Option<KotStatus>)
        ensures
            r == parse_kot_status(s@),
    {
        if same_text(s, "Pending") {
            Some(KotStatus::Pending)
        } else if same_text(s, "Preparing") {
            Some(KotStatus::Preparing)
        } else if same_text(s, "Ready") {
            Some(KotStatus::Ready)
        } else if same_text(s, "Completed") {
            Some(KotStatus::Completed)
        } else {
            None
        }
    }
}

/// The kitchen status whose label is `s`, if any.
pub open spec fn parse_kot_status(s: Seq<char>) -> Option<KotStatus> {
    if s == "Pending"@ {
        Some(KotStatus::Pending)
    } else if s == "Preparing"@ {
        Some(KotStatus::Preparing)
    } else if s == "Ready"@ {
        Some(KotStatus::Ready)
    } else if s == "Completed"@ {
        Some(KotStatus::Completed)
    } else {
        None
    }
}

impl OrderStatus {
    pub open spec fn label(self) -> Seq<char> {
        match self {
            OrderStatus::Pending => "Pending"@,
            OrderStatus::Billed => "Billed"@,
            OrderStatus::Completed => "Completed"@,
            OrderStatus::Cancelled => "Cancelled"@,
        }
    }

    pub fn as_str(&self) -> (s: &'static str)
        ensures
            s@ == self.label(),
    {
        match self {
            OrderStatus::Pending => "Pending",
            OrderStatus::Billed => "Billed",
            OrderStatus::Completed => "Completed",
            OrderStatus::Cancelled => "Cancelled",
        }
    }

    pub fn parse(s: &str) -> (r: Option<OrderStatus>)
        ensures
            r == parse_order_status(s@),
    {
        if same_text(s, "Pending") {
            Some(OrderStatus::Pending)
        } else if same_text(s, "Billed") {
            Some(OrderStatus::Billed)
        } else if same_text(s, "Completed") {
            Some(OrderStatus::Completed)
        } else if same_text(s, "Cancelled") {
            Some(OrderStatus::Cancelled)
        } else {
            None
        }
    }
}

pub open spec fn parse_order_status(s: Seq<char>) -> Option<OrderStatus> {
    if s == "Pending"@ {
        Some(OrderStatus::Pending)
    } else if s == "Billed"@ {
        Some(OrderStatus::Billed)
    } else if s == "Completed"@ {
        Some(OrderStatus::Completed)
    } else if s == "Cancelled"@ {
        Some(OrderStatus::Cancelled)
    } else {
        None
    }
}

impl TableStatus {
    pub open spec fn label(self) -> Seq<char> {
        match self {
            TableStatus::Free => "Free"@,
            TableStatus::Occupied => "Occupied"@,
            TableStatus::Billed => "Billed"@,
        }
    }

    pub fn as_str(&self) -> (s: &'static str)
        ensures
            s@ == self.label(),
    {
        match self {
            TableStatus::Free => "Free",
            TableStatus::Occupied => "Occupied",
            TableStatus::Billed => "Billed",
        }
    }

    pub fn parse(s: &str) -> (r: Option<TableStatus>)
        ensures
            r == parse_table_status(s@),
    {
        if same_text(s, "Free") {
            Some(TableStatus::Free)
        } else if same_text(s, "Occupied") {
            Some(TableStatus::Occupied)
        } else if same_text(s, "Billed") {
            Some(TableStatus::Billed)
        } else {
            None
        }
    }
}

pub open spec fn parse_table_status(s: Seq<char>) -> Option<TableStatus> {
    if s == "Free"@ {
        Some(TableStatus::Free)
    } else if s == "Occupied"@ {
        Some(TableStatus::Occupied)
    } else if s == "Billed"@ {
        Some(TableStatus::Billed)
    } else {
        None
    }
}

impl PaymentMethod {
    pub open spec fn label(self) -> Seq<char> {
        match self {
            PaymentMethod::Cash => "Cash"@,
            PaymentMethod::Upi => "UPI"@,
            PaymentMethod::Card => "Card"@,
            PaymentMethod::Nc => "NC"@,
        }
    }

    pub fn as_str(&self) -> (s: &'static str)
        ensures
            s@ == self.label(),
    {
        match self {
            PaymentMethod::Cash => "Cash",
            PaymentMethod::Upi => "UPI",
            PaymentMethod::Card => "Card",
            PaymentMethod::Nc => "NC",
        }
    }

    pub fn parse(s: &str) -> (r: Option<PaymentMethod>)
        ensures
            r == parse_payment_method(s@),
    {
        if same_text(s, "Cash") {
            Some(PaymentMethod::Cash)
        } else if same_text(s, "UPI") {
            Some(PaymentMethod::Upi)
        } else if same_text(s, "Card") {
            Some(PaymentMethod::Card)
        } else if same_text(s, "NC") {
            Some(PaymentMethod::Nc)
        } else {
            None
        }
    }
}

pub open spec fn parse_payment_method(s: Seq<char>) -> Option<PaymentMethod> {
    if s == "Cash"@ {
        Some(PaymentMethod::Cash)
    } else if s == "UPI"@ {
        Some(PaymentMethod::Upi)
    } else if s == "Card"@ {
        Some(PaymentMethod::Card)
    } else if s == "NC"@ {
        Some(PaymentMethod::Nc)
    } else {
        None
    }
}

/// Reading back a stored label gives the status that wrote it, for every
/// vocabulary of the schema.
pub proof fn lemma_labels_round_trip(k: KotStatus, o: OrderStatus, t: TableStatus, p: PaymentMethod)
    ensures
        parse_kot_status(k.label()) == Some(k),
        parse_order_status(o.label()) == Some(o),
        parse_table_status(t.label()) == Some(t),
        parse_payment_method(p.label()) == Some(p),
{
    reveal_strlit("Pending");
    reveal_strlit("Preparing");
    reveal_strlit("Ready");
    reveal_strlit("Completed");
    reveal_strlit("Billed");
    reveal_strlit("Cancelled");
    reveal_strlit("Free");
    reveal_strlit("Occupied");
    reveal_strlit("Cash");
    reveal_strlit("UPI");
    reveal_strlit("Card");
    reveal_strlit("NC");
    assert("Pending"@.len() != "Preparing"@.len());
    assert("Pending"@.len() != "Ready"@.len());
    assert("Pending"@.len() != "Completed"@.len());
    assert("Preparing"@[2] != "Completed"@[2]);
    assert("Preparing"@.len() != "Ready"@.len());
    assert("Ready"@.len() != "Completed"@.len());
    assert("Pending"@.len() != "Billed"@.len());
    assert("Pending"@.len() != "Cancelled"@.len());
    assert("Billed"@.len() != "Completed"@.len());
    assert("Billed"@.len() != "Cancelled"@.len());
    assert("Completed"@[1] != "Cancelled"@[1]);
    assert("Free"@.len() != "Occupied"@.len());
    assert("Free"@.len() != "Billed"@.len());
    assert("Occupied"@.len() != "Billed"@.len());
    assert("Cash"@.len() != "UPI"@.len());
    assert("Cash"@[2] != "Card"@[2]);
    assert("Cash"@.len() != "NC"@.len());
    assert("UPI"@.len() != "Card"@.len());
    assert("UPI"@.len() != "NC"@.len());
    assert("Card"@.len() != "NC"@.len());
}


/// A label is read as a status only when it is exactly that status's label:
/// no other text is accepted, for every vocabulary of the schema.
pub proof fn lemma_parse_reads_only_labels(s: Seq<char>)
    ensures
        parse_kot_status(s) matches Some(k) ==> s == k.label(),
        parse_order_status(s) matches Some(o) ==> s == o.label(),
        parse_table_status(s) matches Some(t) ==> s == t.label(),
        parse_payment_method(s) matches Some(p) ==> s == p.label(),
{
}

} // verus!
