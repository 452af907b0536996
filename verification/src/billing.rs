//! Bills: their numbers, the audit of their creation, and the cash payment
//! that gives change.
use vstd::prelude::*;

use crate::audit::AuditNote;
use crate::text::{
    decimal_digit, int_text, int_to_text, int_to_zero_padded_text, join2, join4, lemma_nat_text_digits,
    nat_text, pad_zeros, same_text, zero_padded_text, zeros,
};

verus! {

/// The number of the bill with row id `id`: `BILL-` and the id padded with
/// zeros to five characters.
pub open spec fn bill_number_text(id: i64) -> Seq<char> {
    "BILL-"@ + zero_padded_text(id as int, 5)
}

pub fn bill_number(id: i64) -> (s: String)
    ensures
        s@ == bill_number_text(id),
{
    let padded = int_to_zero_padded_text(id, 5);
    join2("BILL-", padded.as_str())
}

/// The value of a digit character.
pub open spec fn digit_value(c: char) -> int {
    if c == '1' { 1 }
    else if c == '2' { 2 }
    else if c == '3' { 3 }
    else if c == '4' { 4 }
    else if c == '5' { 5 }
    else if c == '6' { 6 }
    else if c == '7' { 7 }
    else if c == '8' { 8 }
    else if c == '9' { 9 }
    else { 0 }
}

/// The number that a string of digits denotes.
pub open spec fn digits_value(s: Seq<char>) -> int
    decreases s.len(),
{
    if s.len() == 0 {
        0
    } else {
        digits_value(s.drop_last()) * 10 + digit_value(s.last())
    }
}

proof fn lemma_digit_value(d: int)
    requires
        0 <= d < 10,
    ensures
        digit_value(decimal_digit(d)) == d,
{
    assert(d == 0 || d == 1 || d == 2 || d == 3 || d == 4 || d == 5 || d == 6 || d == 7 || d == 8 || d == 9);
}

proof fn lemma_nat_text_value(n: nat)
    ensures
        digits_value(nat_text(n)) == n,
    decreases n,
{
    if n < 10 {
        lemma_digit_value(n as int);
        assert(nat_text(n).drop_last() =~= Seq::<char>::empty());
        assert(digits_value(Seq::<char>::empty()) == 0);
        assert(digits_value(nat_text(n)) == digits_value(nat_text(n).drop_last()) * 10 + digit_value(nat_text(n).last()));
    } else {
        lemma_nat_text_value(n / 10);
        lemma_digit_value((n % 10) as int);
        let t = nat_text(n);
        assert(t.drop_last() =~= nat_text(n / 10));
        assert(t.last() == decimal_digit((n % 10) as int));
        assert(digits_value(t) == digits_value(nat_text(n / 10)) * 10 + digit_value(t.last()));
        assert(n == (n / 10) * 10 + n % 10);
    }
}

proof fn lemma_zeros_value(k: nat, s: Seq<char>)
    ensures
        digits_value(zeros(k) + s) == digits_value(s),
    decreases k + s.len(),
{
    if s.len() == 0 {
        assert(zeros(k) + s =~= zeros(k));
        if k > 0 {
            assert(zeros(k).drop_last() =~= zeros((k - 1) as nat));
            lemma_zeros_value((k - 1) as nat, s);
            assert(zeros((k - 1) as nat) + s =~= zeros((k - 1) as nat));
        }
    } else {
        assert((zeros(k) + s).drop_last() =~= zeros(k) + s.drop_last());
        lemma_zeros_value(k, s.drop_last());
    }
}

proof fn lemma_padded_value(n: nat, width: nat)
    ensures
        digits_value(pad_zeros(nat_text(n), width)) == n,
        pad_zeros(nat_text(n), width).len() >= 1,
        forall|k: int| 0 <= k < pad_zeros(nat_text(n), width).len() ==> '0' <= #[trigger] pad_zeros(nat_text(n), width)[k] <= '9',
{
    lemma_nat_text_value(n);
    lemma_nat_text_digits(n);
    let t = nat_text(n);
    if t.len() < width {
        lemma_zeros_value((width - t.len()) as nat, t);
        let p = pad_zeros(t, width);
        assert forall|k: int| 0 <= k < p.len() implies '0' <= #[trigger] p[k] <= '9' by {
            let z = (width - t.len()) as int;
            if k >= z {
                assert(p[k] == t[k - z]);
            }
        }
    }
}

/// The bill number of a non-negative row id is "BILL-" followed by at least
/// five decimal digits whose value is the id.
pub proof fn lemma_bill_number_reads_back(id: i64)
    requires
        id >= 0,
    ensures
        bill_number_text(id).len() >= 10,
        bill_number_text(id).subrange(0, 5) == "BILL-"@,
        digits_value(bill_number_text(id).subrange(5, bill_number_text(id).len() as int)) == id,
        forall|k: int| 5 <= k < bill_number_text(id).len() ==> '0' <= #[trigger] bill_number_text(id)[k] <= '9',
{
    reveal_strlit("BILL-");
    let t = zero_padded_text(id as int, 5);
    lemma_padded_value(id as nat, 5);
    assert(bill_number_text(id).subrange(5, bill_number_text(id).len() as int) =~= t);
    assert(bill_number_text(id).subrange(0, 5) =~= "BILL-"@);
    assert forall|k: int| 5 <= k < bill_number_text(id).len() implies '0' <= #[trigger] bill_number_text(id)[k] <= '9' by {
        assert(bill_number_text(id)[k] == t[k - 5]);
    }
}

/// Bill numbers are unique: distinct row ids give distinct bill numbers.
pub proof fn lemma_bill_numbers_distinct(a: i64, b: i64)
    requires
        a != b,
    ensures
        bill_number_text(a) != bill_number_text(b),
{
    let ta = zero_padded_text(a as int, 5);
    let tb = zero_padded_text(b as int, 5);
    let ma: nat = if a < 0 { (-a) as nat } else { a as nat };
    let mb: nat = if b < 0 { (-b) as nat } else { b as nat };
    let wa: nat = if a < 0 { 4 } else { 5 };
    let wb: nat = if b < 0 { 4 } else { 5 };
    lemma_padded_value(ma, wa);
    lemma_padded_value(mb, wb);
    reveal_strlit("BILL-");
    if bill_number_text(a) == bill_number_text(b) {
        assert(ta =~= bill_number_text(a).subrange(5, bill_number_text(a).len() as int));
        assert(tb =~= bill_number_text(b).subrange(5, bill_number_text(b).len() as int));
        assert(ta == tb);
        if a < 0 && b < 0 {
            assert(ta.drop_first() =~= pad_zeros(nat_text(ma), wa));
            assert(tb.drop_first() =~= pad_zeros(nat_text(mb), wb));
        } else if a < 0 {
            assert(ta[0] == '-');
            assert('0' <= tb[0] <= '9');
        } else if b < 0 {
            assert(tb[0] == '-');
            assert('0' <= ta[0] <= '9');
        }
    }
}

/// A bill is made only for an order that has none yet; billing it again
/// changes nothing.
pub fn needs_new_bill(existing_bill_id: Option<i64>) -> (r: bool)
    ensures
        r == existing_bill_id is None,
{
    existing_bill_id.is_none()
}

/// The audit entry of a new bill.
pub fn bill_generated_note(bill_id: i64, bill_number: &str, order_id: i64) -> (n: AuditNote)
    ensures
        n.describes(
            "generate_bill"@,
            "bills"@,
            Some(bill_id),
            Some("Generated bill "@ + bill_number@ + " for order "@ + int_text(order_id as int)),
        ),
{
    let o = int_to_text(order_id);
    AuditNote::new(
        "generate_bill",
        "bills",
        Some(bill_id),
        Some(join4("Generated bill ", bill_number, " for order ", o.as_str())),
    )
}

/// The payment that gives change on an overpaid bill: the last cash payment.
pub fn change_giving_payment(methods: &Vec<String>) -> (r: Option<usize>)
    ensures
        r matches Some(i) ==> i < methods@.len() && methods@[i as int]@ == "Cash"@ && forall|j: int|
            i < j < methods@.len() ==> (#[trigger] methods@[j])@ != "Cash"@,
        r is None ==> forall|j: int| 0 <= j < methods@.len() ==> (#[trigger] methods@[j])@ != "Cash"@,
{
    let n = methods.len();
    let mut found: Option<usize> = None;
    let mut i: usize = 0;
    while i < n
        invariant
            n == methods@.len(),
            i <= n,
            found matches Some(f) ==> f < i && methods@[f as int]@ == "Cash"@ && forall|j: int|
                f < j < i ==> (#[trigger] methods@[j])@ != "Cash"@,
            found is None ==> forall|j: int| 0 <= j < i ==> (#[trigger] methods@[j])@ != "Cash"@,
        decreases n - i,
    {
        if same_text(methods[i].as_str(), "Cash") {
            found = Some(i);
        }
        i = i + 1;
    }
    found
}

} // verus!
