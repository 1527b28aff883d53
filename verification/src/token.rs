//! Access tokens: thirty-two random bytes in hexadecimal.

use vstd::prelude::*;

verus! {

/// Bytes of randomness in a token.
pub const TOKEN_BYTES: usize = 32;

/// Bytes in lower-case hexadecimal, two digits for each, high half first.
pub open spec fn hex_text(bytes: Seq<u8>) -> Seq<char> {
    Seq::new(
        bytes.len() * 2,
        |i: int| crate::text::hex_byte(bytes[i / 2])[i % 2],
    )
}

/// A digit of lower-case hexadecimal.
pub open spec fn is_hex_digit(c: char) -> bool {
    '0' <= c <= '9' || 'a' <= c <= 'f'
}

/// Calls `rand::RngCore::fill_bytes` on `rand::thread_rng()`. The bytes are chance: nothing is
/// claimed of them. The call panics where the operating system has no source of randomness.
#[verifier::external_body]
fn random_bytes() -> (bytes: [u8; 32]) {
    let mut bytes: [u8; 32] = [0u8; 32];
    rand::RngCore::fill_bytes(&mut rand::thread_rng(), &mut bytes);
    bytes
}

/// Bytes that were drawn at random.
pub closed spec fn is_drawn(bytes: [u8; 32]) -> bool {
    call_ensures(random_bytes, (), bytes)
}

/// Calls `hex::encode`, which writes each byte as two lower-case hexadecimal digits, the high
/// half first, in the order of the bytes.
#[verifier::external_body]
fn hex_encode(bytes: &[u8; 32]) -> (text: String)
    ensures
        text@ == hex_text(bytes@),
{
    hex::encode(bytes)
}

/// The token that thirty-two bytes make.
pub fn token_from_bytes(bytes: &[u8; 32]) -> (token: String)
    ensures
        token@ == hex_text(bytes@),
{
    hex_encode(bytes)
}

/// A new token. Which one is chance; whatever the bytes, it is their hexadecimal text, which has
/// sixty-four lower-case digits.
pub fn generate_token() -> (token: String)
    ensures
        exists|bytes: Seq<u8>| bytes.len() == TOKEN_BYTES && token@ == #[trigger] hex_text(bytes),
        exists|drawn: [u8; 32]| #[trigger] is_drawn(drawn) && token@ == hex_text(drawn@),
        token@.len() == 64,
        forall|i: int| 0 <= i < token@.len() ==> is_hex_digit(#[trigger] token@[i]),
{
    let bytes: [u8; 32] = random_bytes();
    let token = token_from_bytes(&bytes);
    proof {
        hex_text_is_hex(bytes@);
        assert(is_drawn(bytes));
    }
    token
}

/// The hexadecimal text of bytes has two characters for each, all of them hexadecimal digits.
pub proof fn hex_text_is_hex(bytes: Seq<u8>)
    ensures
        hex_text(bytes).len() == 2 * bytes.len(),
        forall|i: int| 0 <= i < hex_text(bytes).len() ==> is_hex_digit(#[trigger] hex_text(bytes)[i]),
{
}

proof fn hex_digit_is_injective(m: int, n: int)
    requires
        0 <= m < 16,
        0 <= n < 16,
        crate::text::hex_digit(m) == crate::text::hex_digit(n),
    ensures
        m == n,
{
    assert(crate::text::hex_digit(m) as int == if m < 10 { 48 + m } else { 87 + m });
    assert(crate::text::hex_digit(n) as int == if n < 10 { 48 + n } else { 87 + n });
}

/// Different bytes make different tokens.
pub proof fn hex_text_is_injective(a: Seq<u8>, b: Seq<u8>)
    requires
        hex_text(a) == hex_text(b),
    ensures
        a == b,
{
    hex_text_is_hex(a);
    hex_text_is_hex(b);
    assert forall|k: int| 0 <= k < a.len() implies a[k] == b[k] by {
        assert(hex_text(a)[2 * k] == crate::text::hex_digit(a[k] as int / 16));
        assert(hex_text(b)[2 * k] == crate::text::hex_digit(b[k] as int / 16));
        assert(hex_text(a)[2 * k + 1] == crate::text::hex_digit(a[k] as int % 16));
        assert(hex_text(b)[2 * k + 1] == crate::text::hex_digit(b[k] as int % 16));
        hex_digit_is_injective(a[k] as int / 16, b[k] as int / 16);
        hex_digit_is_injective(a[k] as int % 16, b[k] as int % 16);
    }
    assert(a =~= b);
}

/// The hexadecimal text has the digits of each byte at its place: that of the high half, then that
/// of the low half.
pub proof fn hex_text_digits(bytes: Seq<u8>)
    ensures
        hex_text(bytes).len() == 2 * bytes.len(),
        forall|k: int|
            0 <= k < bytes.len() ==> hex_text(bytes)[2 * k]
                == "0123456789abcdef"@[(#[trigger] bytes[k]) as int / 16],
        forall|k: int|
            0 <= k < bytes.len() ==> hex_text(bytes)[2 * k + 1]
                == "0123456789abcdef"@[(#[trigger] bytes[k]) as int % 16],
{
    assert forall|k: int| 0 <= k < bytes.len() implies hex_text(bytes)[2 * k]
        == "0123456789abcdef"@[(#[trigger] bytes[k]) as int / 16] by {
        crate::text::hex_digits(bytes[k] as int / 16);
    }
    assert forall|k: int| 0 <= k < bytes.len() implies hex_text(bytes)[2 * k + 1]
        == "0123456789abcdef"@[(#[trigger] bytes[k]) as int % 16] by {
        crate::text::hex_digits(bytes[k] as int % 16);
    }
}

/// The token of thirty-two bytes spells them out, and different bytes have different tokens.
pub proof fn token_spells_its_bytes(
    bytes: &[u8; 32],
    token: String,
    others: &[u8; 32],
    other: String,
)
    requires
        call_ensures(token_from_bytes, (bytes,), token),
        call_ensures(token_from_bytes, (others,), other),
    ensures
        token@.len() == 64,
        forall|k: int|
            0 <= k < 32 ==> token@[2 * k] == "0123456789abcdef"@[(#[trigger] bytes@[k]) as int
                / 16] && token@[2 * k + 1] == "0123456789abcdef"@[bytes@[k] as int % 16],
        token@ == other@ ==> bytes@ == others@,
{
    hex_text_digits(bytes@);
    if token@ == other@ {
        hex_text_is_injective(bytes@, others@);
    }
}

/// A new token spells out thirty-two bytes that were drawn at random.
pub proof fn new_token_spells_drawn_bytes(token: String)
    requires
        call_ensures(generate_token, (), token),
    ensures
        token@.len() == 64,
        exists|drawn: [u8; 32]| #[trigger]
            is_drawn(drawn) && forall|k: int|
                0 <= k < 32 ==> token@[2 * k] == "0123456789abcdef"@[(#[trigger] drawn@[k]) as int
                    / 16] && token@[2 * k + 1] == "0123456789abcdef"@[drawn@[k] as int % 16],
{
    let drawn = choose|drawn: [u8; 32]| #[trigger]
        is_drawn(drawn) && token@ == hex_text(drawn@);
    hex_text_digits(drawn@);
}

/// Drawn bytes are those that the source of randomness gave.
proof fn drawn_bytes_are_random(bytes: [u8; 32])
    ensures
        is_drawn(bytes) <==> call_ensures(random_bytes, (), bytes),
{
}

} // verus!
