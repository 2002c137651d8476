//! Record identifiers: 128-bit UUIDs, held as integers.
use vstd::prelude::*;

verus! {

/// The character of a hexadecimal digit, lower case.
pub open spec fn hex_digit(n: int) -> char {
    if n < 10 {
        ('0' as int + n) as u8 as char
    } else {
        ('a' as int + n - 10) as u8 as char
    }
}

/// The last `digits` hexadecimal digits of a number, the highest first.
pub open spec fn hex(n: int, digits: nat) -> Seq<char>
    decreases digits,
{
    if digits == 0 {
        Seq::empty()
    } else {
        hex(n / 16, (digits - 1) as nat).push(hex_digit(n % 16))
    }
}

/// The hyphenated form of a UUID: thirty-two digits in groups of 8, 4, 4, 4
/// and 12.
pub open spec fn id_text(id: u128) -> Seq<char> {
    let h = hex(id as int, 32);
    h.subrange(0, 8) + seq!['-'] + h.subrange(8, 12) + seq!['-'] + h.subrange(12, 16) + seq!['-']
        + h.subrange(16, 20) + seq!['-'] + h.subrange(20, 32)
}

/// The version and variant bits of a random UUID.
pub open spec fn is_random_id(id: u128) -> bool {
    (id >> 76u128) & 0xf == 4 && (id >> 62u128) & 3 == 2
}

/// `uuid::Uuid`'s `Display`, on the UUID with this value: the hyphenated form
/// in lower case.
#[verifier::external_body]
pub(crate) fn write_id(id: u128) -> (r: String)
    ensures
        r@ == id_text(id),
{
    uuid::Uuid::from_u128(id).to_string()
}

/// `uuid::Uuid::new_v4`: a random UUID. Which one is left to chance; its
/// version and variant bits are fixed.
#[verifier::external_body]
pub(crate) fn random_id() -> (r: u128)
    ensures
        is_random_id(r),
{
    uuid::Uuid::new_v4().as_u128()
}

/// A text that is the hyphenated form of a random UUID.
pub open spec fn is_fresh(s: Seq<char>) -> bool {
    exists|id: u128| is_random_id(id) && #[trigger] id_text(id) == s
}

/// A new identifier, as text.
pub fn new_id() -> (r: String)
    ensures
        is_fresh(r@),
{
    let id = random_id();
    write_id(id)
}

proof fn lemma_hex_len(n: int, digits: nat)
    ensures
        hex(n, digits).len() == digits,
    decreases digits,
{
    if digits > 0 {
        lemma_hex_len(n / 16, (digits - 1) as nat);
    }
}

/// The hyphenated form is thirty-six characters long.
pub proof fn lemma_id_text_len(id: u128)
    ensures
        id_text(id).len() == 36,
{
    lemma_hex_len(id as int, 32);
}

/// A fresh identifier is never empty.
pub proof fn lemma_fresh_is_not_empty(s: Seq<char>)
    requires
        is_fresh(s),
    ensures
        s.len() == 36,
{
    let id = choose|id: u128| is_random_id(id) && #[trigger] id_text(id) == s;
    lemma_id_text_len(id);
}

} // verus!
