//! Agent and file ids: random 128-bit ids and their hyphenated lowercase text.

use vstd::prelude::*;

verus! {

/// The lowercase hexadecimal digit for `d` (taken modulo sixteen).
pub open spec fn hex_char(d: nat) -> char {
    let d = d % 16;
    if d < 10 {
        (48 + d) as char
    } else {
        (87 + d) as char
    }
}

/// `c` is a lowercase hexadecimal digit.
pub open spec fn is_hex_char(c: char) -> bool {
    ('0' <= c && c <= '9') || ('a' <= c && c <= 'f')
}

/// The last `k` hexadecimal digits of `n`, most significant first.
pub open spec fn hex_field(n: nat, k: nat) -> Seq<char>
    decreases k,
{
    if k == 0 {
        Seq::empty()
    } else {
        hex_field(n / 16, (k - 1) as nat).push(hex_char(n % 16))
    }
}

/// The text of an id as the uuid crate displays it: 32 lowercase hexadecimal digits,
/// most significant first, grouped 8-4-4-4-12 with hyphens.
pub open spec fn uuid_text_spec(id: u128) -> Seq<char> {
    let h = hex_field(id as nat, 32);
    h.subrange(0, 8) + "-"@ + h.subrange(8, 12) + "-"@ + h.subrange(12, 16) + "-"@ + h.subrange(16, 20)
        + "-"@ + h.subrange(20, 32)
}

/// `k` hexadecimal digits are `k` characters, each a lowercase hexadecimal digit.
pub proof fn lemma_hex_field(n: nat, k: nat)
    ensures
        hex_field(n, k).len() == k,
        forall|i: int| 0 <= i < k ==> is_hex_char(#[trigger] hex_field(n, k)[i]),
    decreases k,
{
    if k > 0 {
        lemma_hex_field(n / 16, (k - 1) as nat);
        let d = n % 16;
        if d < 10 {
            assert(is_hex_char((48 + d) as char));
        } else {
            assert(is_hex_char((87 + d) as char));
        }
        assert(is_hex_char(hex_char(n % 16)));
    }
}

/// The text of an id is 36 characters long and begins with the eight most significant
/// hexadecimal digits.
pub proof fn lemma_uuid_text(id: u128)
    ensures
        uuid_text_spec(id).len() == 36,
        uuid_text_spec(id).subrange(0, 8) == hex_field(id as nat, 32).subrange(0, 8),
{
    lemma_hex_field(id as nat, 32);
    reveal_strlit("-");
    let h = hex_field(id as nat, 32);
    assert(uuid_text_spec(id).subrange(0, 8) =~= h.subrange(0, 8));
}

/// `Uuid::new_v4().as_u128()`: a random id whose version nibble says 4 and whose
/// variant bits say RFC 4122, as `new_v4` masks them in.
#[verifier::external_body]
pub(crate) fn new_uuid() -> (r: u128)
    ensures
        r & 0xf0000000000000000000u128 == 0x40000000000000000000u128,
        r & 0xc000000000000000u128 == 0x8000000000000000u128,
{
    uuid::Uuid::new_v4().as_u128()
}

/// `Uuid::from_u128(id).to_string()`: the hyphenated lowercase text of `id`.
#[verifier::external_body]
pub(crate) fn uuid_text(id: u128) -> (r: String)
    ensures
        r@ == uuid_text_spec(id),
{
    uuid::Uuid::from_u128(id).to_string()
}

} // verus!
