//! Short human-readable one-time codes.
use vstd::prelude::*;

use argon2::password_hash::rand_core::{OsRng, RngCore};

verus! {

/// Number of characters in a one-time code.
pub const CODE_LEN: usize = 8;

/// The 32 characters a code is written with: upper-case letters and digits,
/// without 0, 1, I and O.
pub open spec fn code_alphabet() -> Seq<char> {
    seq![
        'A', 'B', 'C', 'D', 'E', 'F', 'G', 'H', 'J', 'K', 'L', 'M', 'N', 'P', 'Q', 'R',
        'S', 'T', 'U', 'V', 'W', 'X', 'Y', 'Z', '2', '3', '4', '5', '6', '7', '8', '9',
    ]
}

/// The character that stands for one random byte: each of the 32
/// characters covers 8 consecutive byte values.
pub open spec fn code_char(b: u8) -> char {
    code_alphabet()[b as int / 8]
}

/// The code written for a sequence of random bytes, one character per byte.
pub open spec fn code_of(bytes: Seq<u8>) -> Seq<char> {
    Seq::new(bytes.len(), |i: int| code_char(bytes[i]))
}

/// Relies on rand_core's RngCore::fill_bytes on the operating system's
/// random source: `n` bytes, nothing known of their values.
#[verifier::external_body]
fn random_bytes(n: usize) -> (r: Vec<u8>)
    ensures
        r@.len() == n,
{
    let mut bytes = vec![0u8; n];
    OsRng.fill_bytes(&mut bytes);
    bytes
}

/// Relies on String::push: appends one character.
#[verifier::external_body]
fn push_char(s: &mut String, c: char)
    ensures
        final(s)@ == old(s)@.push(c),
{
    s.push(c)
}

/// Maps each byte to its character in the code alphabet.
pub fn code_from_bytes(bytes: &[u8]) -> (r: String)
    ensures
        r@ == code_of(bytes@),
{
    let alphabet: Vec<char> = vec![
        'A', 'B', 'C', 'D', 'E', 'F', 'G', 'H', 'J', 'K', 'L', 'M', 'N', 'P', 'Q', 'R',
        'S', 'T', 'U', 'V', 'W', 'X', 'Y', 'Z', '2', '3', '4', '5', '6', '7', '8', '9',
    ];
    assert(alphabet@ == code_alphabet());
    let divider: usize = 256 / alphabet.len();
    let mut code = String::new();
    let mut k: usize = 0;
    while k < bytes.len()
        invariant
            k <= bytes@.len(),
            alphabet@ == code_alphabet(),
            divider == 8,
            code@ == code_of(bytes@.subrange(0, k as int)),
        decreases bytes@.len() - k,
    {
        let i: usize = bytes[k] as usize / divider;
        push_char(&mut code, alphabet[i]);
        assert(code_of(bytes@.subrange(0, k + 1)) =~= code_of(bytes@.subrange(0, k as int)).push(
            code_char(bytes@[k as int]),
        ));
        k = k + 1;
    }
    assert(bytes@.subrange(0, bytes@.len() as int) =~= bytes@);
    code
}

/// Whether `s` is a well-formed one-time code: `CODE_LEN` characters, each
/// from the code alphabet.
pub open spec fn is_code(s: Seq<char>) -> bool {
    &&& s.len() == CODE_LEN
    &&& forall|i: int| 0 <= i < s.len() ==> code_alphabet().contains(#[trigger] s[i])
}

/// Every character that stands for a byte belongs to the alphabet.
pub proof fn lemma_code_char_in_alphabet(b: u8)
    ensures
        code_alphabet().contains(code_char(b)),
{
    let i = b as int / 8;
    assert(0 <= i < 32);
    assert(code_alphabet()[i] == code_char(b));
}

/// Draws a fresh one-time code: `CODE_LEN` random bytes from the operating
/// system, each written as one character of the alphabet.
pub fn generate_human_readable_code() -> (r: String)
    ensures
        is_code(r@),
{
    let bytes = random_bytes(CODE_LEN);
    let code = code_from_bytes(bytes.as_slice());
    assert forall|i: int| 0 <= i < code@.len() implies code_alphabet().contains(
        #[trigger] code@[i],
    ) by {
        lemma_code_char_in_alphabet(bytes@[i]);
    }
    code
}

} // verus!
