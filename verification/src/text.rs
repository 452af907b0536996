//! Decimal rendering of integers and small string helpers, stated over
//! `Seq<char>` so that every message the library builds has an exact contract.
use vstd::prelude::*;
use vstd::string::*;

verus! {

/// The character of a decimal digit `d` (0 ..= 9).
pub open spec fn decimal_digit(d: int) -> char {
    seq!['0', '1', '2', '3', '4', '5', '6', '7', '8', '9'][d]
}

/// Decimal notation of a natural number, without leading zeros.
pub open spec fn nat_text(n: nat) -> Seq<char>
    decreases n,
{
    if n < 10 {
        seq![decimal_digit(n as int)]
    } else {
        nat_text(n / 10).push(decimal_digit((n % 10) as int))
    }
}

/// Decimal notation of an integer, as `{}` prints it: a minus sign for negatives.
pub open spec fn int_text(i: int) -> Seq<char> {
    if i < 0 {
        seq!['-'] + nat_text((-i) as nat)
    } else {
        nat_text(i as nat)
    }
}

/// `n` zero characters.
pub open spec fn zeros(n: nat) -> Seq<char> {
    Seq::new(n, |_k: int| '0')
}

/// Left-pads `digits` with zeros up to `width` characters.
pub open spec fn pad_zeros(digits: Seq<char>, width: nat) -> Seq<char> {
    if digits.len() < width {
        zeros((width - digits.len()) as nat) + digits
    } else {
        digits
    }
}

/// An integer as `{:0width$}` prints it: the sign first, and the digits padded
/// with zeros so that sign and digits together fill `width` characters.
pub open spec fn zero_padded_text(i: int, width: nat) -> Seq<char> {
    if i < 0 {
        seq!['-'] + pad_zeros(nat_text((-i) as nat), if width > 0 { (width - 1) as nat } else { 0 })
    } else {
        pad_zeros(nat_text(i as nat), width)
    }
}

/// The view of an optional string.
pub open spec fn opt_text(o: Option<String>) -> Option<Seq<char>> {
    match o {
        Some(s) => Some(s@),
        None => None,
    }
}

/// Every decimal rendering is made of digits only and is never empty.
pub proof fn lemma_nat_text_digits(n: nat)
    ensures
        nat_text(n).len() >= 1,
        forall|k: int| 0 <= k < nat_text(n).len() ==> '0' <= #[trigger] nat_text(n)[k] <= '9',
    decreases n,
{
    if n >= 10 {
        lemma_nat_text_digits(n / 10);
    }
}

/// The last character of a decimal rendering is the last digit, and the rest
/// renders the quotient by ten.
pub proof fn lemma_nat_text_last(n: nat)
    ensures
        nat_text(n).last() == decimal_digit((n % 10) as int),
        n >= 10 ==> nat_text(n).drop_last() == nat_text(n / 10),
        n < 10 <==> nat_text(n).len() == 1,
{
    if n >= 10 {
        lemma_nat_text_digits(n / 10);
        assert(nat_text(n).drop_last() =~= nat_text(n / 10));
    }
}

/// Decimal rendering is injective: distinct numbers have distinct renderings.
pub proof fn lemma_nat_text_injective(a: nat, b: nat)
    requires
        nat_text(a) == nat_text(b),
    ensures
        a == b,
    decreases a,
{
    lemma_nat_text_last(a);
    lemma_nat_text_last(b);
    if a >= 10 && b >= 10 {
        lemma_nat_text_injective(a / 10, b / 10);
    }
    assert(decimal_digit((a % 10) as int) == decimal_digit((b % 10) as int));
    assert(a % 10 == b % 10);
}

/// The one-character text of a decimal digit.
pub(crate) fn digit_str(d: u64) -> (s: &'static str)
    requires
        d < 10,
    ensures
        s@ == seq![decimal_digit(d as int)],
{
    if d == 0 {
        proof { reveal_strlit("0"); }
        "0"
    } else if d == 1 {
        proof { reveal_strlit("1"); }
        "1"
    } else if d == 2 {
        proof { reveal_strlit("2"); }
        "2"
    } else if d == 3 {
        proof { reveal_strlit("3"); }
        "3"
    } else if d == 4 {
        proof { reveal_strlit("4"); }
        "4"
    } else if d == 5 {
        proof { reveal_strlit("5"); }
        "5"
    } else if d == 6 {
        proof { reveal_strlit("6"); }
        "6"
    } else if d == 7 {
        proof { reveal_strlit("7"); }
        "7"
    } else if d == 8 {
        proof { reveal_strlit("8"); }
        "8"
    } else {
        proof { reveal_strlit("9"); }
        "9"
    }
}

/// Decimal text of an unsigned number.
pub fn nat_to_text(n: u64) -> (s: String)
    ensures
        s@ == nat_text(n as nat),
    decreases n,
{
    if n < 10 {
        String::from_str(digit_str(n))
    } else {
        let mut s = nat_to_text(n / 10);
        s.append(digit_str(n % 10));
        s
    }
}

/// Decimal text of a signed number, as `{}` prints it.
pub fn int_to_text(i: i64) -> (s: String)
    ensures
        s@ == int_text(i as int),
{
    if i < 0 {
        let magnitude: u64 = ((-(i + 1)) as u64) + 1;
        let mut s = String::from_str("-");
        proof { reveal_strlit("-"); }
        let digits = nat_to_text(magnitude);
        s.append(digits.as_str());
        s
    } else {
        nat_to_text(i as u64)
    }
}

/// Left-pads a string of digits with zeros up to `width` characters.
fn pad_with_zeros(digits: String, width: usize) -> (s: String)
    ensures
        s@ == pad_zeros(digits@, width as nat),
{
    let len = digits.as_str().unicode_len();
    if len >= width {
        return digits;
    }
    let missing = width - len;
    let mut s = String::new();
    let mut k: usize = 0;
    while k < missing
        invariant
            k <= missing,
            s@ == zeros(k as nat),
        decreases missing - k,
    {
        proof { reveal_strlit("0"); }
        s.append("0");
        assert(s@ =~= zeros((k + 1) as nat));
        k = k + 1;
    }
    s.append(digits.as_str());
    s
}

/// An integer as `{:0width$}` prints it.
pub fn int_to_zero_padded_text(i: i64, width: usize) -> (s: String)
    ensures
        s@ == zero_padded_text(i as int, width as nat),
{
    if i < 0 {
        let magnitude: u64 = ((-(i + 1)) as u64) + 1;
        let inner_width: usize = if width > 0 { width - 1 } else { 0 };
        let mut s = String::from_str("-");
        proof { reveal_strlit("-"); }
        let padded = pad_with_zeros(nat_to_text(magnitude), inner_width);
        s.append(padded.as_str());
        s
    } else {
        pad_with_zeros(nat_to_text(i as u64), width)
    }
}

/// Character-wise equality of two strings.
pub fn same_text(a: &str, b: &str) -> (r: bool)
    ensures
        r == (a@ == b@),
{
    let n = a.unicode_len();
    let m = b.unicode_len();
    if n != m {
        return false;
    }
    let mut k: usize = 0;
    while k < n
        invariant
            n == a@.len(),
            m == b@.len(),
            n == m,
            k <= n,
            forall|j: int| 0 <= j < k ==> a@[j] == b@[j],
        decreases n - k,
    {
        if a.get_char(k) != b.get_char(k) {
            return false;
        }
        k = k + 1;
    }
    assert(a@ =~= b@);
    true
}

/// Equality of two optional strings by their text.
pub fn same_optional_text(a: &Option<String>, b: &Option<String>) -> (r: bool)
    ensures
        r == (opt_text(*a) == opt_text(*b)),
{
    match (a, b) {
        (Some(x), Some(y)) => same_text(x.as_str(), y.as_str()),
        (None, None) => true,
        _ => false,
    }
}

/// Concatenation of two texts into a new string.
pub(crate) fn join2(a: &str, b: &str) -> (s: String)
    ensures
        s@ == a@ + b@,
{
    let mut s = String::from_str(a);
    s.append(b);
    s
}

/// Concatenation of three texts into a new string.
pub(crate) fn join3(a: &str, b: &str, c: &str) -> (s: String)
    ensures
        s@ == a@ + b@ + c@,
{
    let mut s = String::from_str(a);
    s.append(b);
    s.append(c);
    s
}

/// Concatenation of four texts into a new string.
pub(crate) fn join4(a: &str, b: &str, c: &str, d: &str) -> (s: String)
    ensures
        s@ == a@ + b@ + c@ + d@,
{
    let mut s = String::from_str(a);
    s.append(b);
    s.append(c);
    s.append(d);
    s
}

/// Concatenation of five texts into a new string.
pub(crate) fn join5(a: &str, b: &str, c: &str, d: &str, e: &str) -> (s: String)
    ensures
        s@ == a@ + b@ + c@ + d@ + e@,
{
    let mut s = String::from_str(a);
    s.append(b);
    s.append(c);
    s.append(d);
    s.append(e);
    s
}

/// Concatenation of six texts into a new string.
pub(crate) fn join6(a: &str, b: &str, c: &str, d: &str, e: &str, f: &str) -> (s: String)
    ensures
        s@ == a@ + b@ + c@ + d@ + e@ + f@,
{
    let mut s = String::from_str(a);
    s.append(b);
    s.append(c);
    s.append(d);
    s.append(e);
    s.append(f);
    s
}

} // verus!
