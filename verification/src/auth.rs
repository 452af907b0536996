//! Password digests and the outcome of a sign-in attempt.
use sha2::{Digest, Sha256};
use vstd::prelude::*;
use vstd::string::*;

use crate::audit::AuditNote;
use crate::model::UserInfo;
use crate::text::{decimal_digit, digit_str, join4};

verus! {

/// The SHA-256 digest of `data`, as `sha2` computes it.
pub uninterp spec fn sha256(data: Seq<u8>) -> Seq<u8>;

/// A character with the Unicode `White_Space` property, which
/// `char::is_whitespace` tests.
pub open spec fn is_white_space(c: char) -> bool {
    let n = c as u32;
    ||| 0x09 <= n <= 0x0D
    ||| n == 0x20
    ||| n == 0x85
    ||| n == 0xA0
    ||| n == 0x1680
    ||| 0x2000 <= n <= 0x200A
    ||| n == 0x2028
    ||| n == 0x2029
    ||| n == 0x202F
    ||| n == 0x205F
    ||| n == 0x3000
}

/// The text without its leading run of white space.
pub open spec fn trim_start_text(s: Seq<char>) -> Seq<char>
    decreases s.len(),
{
    if s.len() > 0 && is_white_space(s[0]) {
        trim_start_text(s.drop_first())
    } else {
        s
    }
}

/// The text without its trailing run of white space.
pub open spec fn trim_end_text(s: Seq<char>) -> Seq<char>
    decreases s.len(),
{
    if s.len() > 0 && is_white_space(s.last()) {
        trim_end_text(s.drop_last())
    } else {
        s
    }
}

/// `str::trim`: the text without its leading and trailing white space.
pub open spec fn trimmed(s: Seq<char>) -> Seq<char> {
    trim_end_text(trim_start_text(s))
}

/// Calls `sha2::Sha256::digest` (new hasher, one update, finalize). The
/// contract names the digest `sha256(data)` and states its length, 32 bytes,
/// which the type `Output<Sha256>` fixes; the digest's value is not stated.
#[verifier::external_body]
fn sha256_digest(data: &[u8]) -> (d: Vec<u8>)
    ensures
        d@ == sha256(data@),
        d@.len() == 32,
{
    Sha256::digest(data).to_vec()
}

/// Calls `str::trim`. The contract states its documented result: the text
/// with the longest leading and trailing runs of `White_Space` characters
/// removed.
#[verifier::external_body]
fn trim_text(s: &str) -> (r: String)
    ensures
        r@ == trimmed(s@),
{
    s.trim().to_string()
}

/// Lower-case hexadecimal digit of `d` (0 ..= 15).
pub open spec fn hex_digit(d: int) -> char {
    seq!['0', '1', '2', '3', '4', '5', '6', '7', '8', '9', 'a', 'b', 'c', 'd', 'e', 'f'][d]
}

/// Lower-case hexadecimal rendering of bytes, two digits per byte, as `{:x}`
/// prints a digest.
pub open spec fn lower_hex(bytes: Seq<u8>) -> Seq<char>
    decreases bytes.len(),
{
    if bytes.len() == 0 {
        Seq::empty()
    } else {
        lower_hex(bytes.drop_last()) + seq![
            hex_digit(bytes.last() as int / 16),
            hex_digit(bytes.last() as int % 16),
        ]
    }
}

/// The text stored for a password: the hex digest of its UTF-8 bytes.
pub open spec fn password_hash_text(password: Seq<char>) -> Seq<char> {
    lower_hex(sha256(vstd::utf8::encode_utf8(password)))
}

/// Whether `c` is a lower-case hexadecimal digit.
pub open spec fn is_lower_hex_char(c: char) -> bool {
    ('0' <= c <= '9') || ('a' <= c <= 'f')
}

proof fn lemma_lower_hex_shape(bytes: Seq<u8>)
    ensures
        lower_hex(bytes).len() == 2 * bytes.len(),
        forall|k: int| 0 <= k < lower_hex(bytes).len() ==> is_lower_hex_char(#[trigger] lower_hex(bytes)[k]),
    decreases bytes.len(),
{
    if bytes.len() > 0 {
        lemma_lower_hex_shape(bytes.drop_last());
        let b = bytes.last() as int;
        assert(0 <= b / 16 < 16);
        assert(0 <= b % 16 < 16);
        let prefix = lower_hex(bytes.drop_last());
        let tail = seq![hex_digit(b / 16), hex_digit(b % 16)];
        assert forall|k: int| 0 <= k < lower_hex(bytes).len() implies is_lower_hex_char(#[trigger] lower_hex(bytes)[k]) by {
            if k >= prefix.len() {
                let d = if k == prefix.len() { b / 16 } else { b % 16 };
                assert(lower_hex(bytes)[k] == hex_digit(d));
            } else {
                assert(lower_hex(bytes)[k] == prefix[k]);
            }
        }
    }
}

fn hex_digit_str(d: u8) -> (s: &'static str)
    requires
        d < 16,
    ensures
        s@ == seq![hex_digit(d as int)],
{
    if d < 10 {
        proof {
            let x = d as int;
            assert(x == 0 || x == 1 || x == 2 || x == 3 || x == 4 || x == 5 || x == 6 || x == 7 || x == 8 || x == 9);
            assert(decimal_digit(x) == hex_digit(x));
        }
        digit_str(d as u64)
    } else if d == 10 {
        proof { reveal_strlit("a"); }
        "a"
    } else if d == 11 {
        proof { reveal_strlit("b"); }
        "b"
    } else if d == 12 {
        proof { reveal_strlit("c"); }
        "c"
    } else if d == 13 {
        proof { reveal_strlit("d"); }
        "d"
    } else if d == 14 {
        proof { reveal_strlit("e"); }
        "e"
    } else {
        proof { reveal_strlit("f"); }
        "f"
    }
}

fn to_lower_hex(bytes: &Vec<u8>) -> (s: String)
    ensures
        s@ == lower_hex(bytes@),
{
    let mut s = String::new();
    let n = bytes.len();
    let mut i: usize = 0;
    while i < n
        invariant
            n == bytes@.len(),
            i <= n,
            s@ == lower_hex(bytes@.take(i as int)),
        decreases n - i,
    {
        let b = bytes[i];
        s.append(hex_digit_str(b / 16));
        s.append(hex_digit_str(b % 16));
        assert(bytes@.take(i + 1).drop_last() =~= bytes@.take(i as int));
        assert(s@ =~= lower_hex(bytes@.take(i + 1)));
        i = i + 1;
    }
    assert(bytes@.take(n as int) =~= bytes@);
    s
}

/// The stored form of a password: the SHA-256 digest of its UTF-8 bytes in
/// lower-case hexadecimal, always 64 characters.
pub fn hash_password(password: &str) -> (h: String)
    ensures
        h@ == password_hash_text(password@),
        h@.len() == 64,
        forall|k: int| 0 <= k < h@.len() ==> is_lower_hex_char(#[trigger] h@[k]),
{
    let digest = sha256_digest(password.as_bytes());
    proof { lemma_lower_hex_shape(digest@); }
    to_lower_hex(&digest)
}

/// The user name a sign-in looks up: the typed name without surrounding white space.
pub fn login_name(username: &str) -> (r: String)
    ensures
        r@ == trimmed(username@),
{
    trim_text(username)
}

/// What a sign-in attempt answers and what it logs.
pub struct LoginOutcome {
    pub result: Result<UserInfo, String>,
    /// The user name the audit row is written under.
    pub audit_user: String,
    pub note: AuditNote,
}

/// The outcome of a sign-in for the looked-up name `name`: `matched` is the
/// stored user name whose (case-insensitive) name and password hash matched,
/// and `lookup_error` the database's reason when none did. A refused sign-in
/// always answers the same message, whatever the reason.
pub fn login_outcome(name: &str, matched: Option<String>, lookup_error: &str) -> (r: LoginOutcome)
    ensures
        matched is Some ==> {
            &&& r.result matches Ok(user) && user.username@ == matched->0@
            &&& r.audit_user@ == matched->0@
            &&& r.note.describes("login_success"@, "users"@, None, Some("Login successful"@))
        },
        matched is None ==> {
            &&& r.result matches Err(m) && m@ == "Invalid username or password."@
            &&& r.audit_user@ == name@
            &&& r.note.describes(
                "login_failed"@,
                "users"@,
                None,
                Some("Failed login attempt for username: '"@ + name@ + "'. Error: "@ + lookup_error@),
            )
        },
{
    match matched {
        Some(user) => {
            let audit_user = user.clone();
            let note = AuditNote::new("login_success", "users", None, Some(String::from_str("Login successful")));
            LoginOutcome { result: Ok(UserInfo { username: user }), audit_user, note }
        },
        None => {
            let details = join4("Failed login attempt for username: '", name, "'. Error: ", lookup_error);
            let note = AuditNote::new("login_failed", "users", None, Some(details));
            LoginOutcome {
                result: Err(String::from_str("Invalid username or password.")),
                audit_user: String::from_str(name),
                note,
            }
        },
    }
}

} // verus!
