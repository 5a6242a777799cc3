//! Token generation for the registration path: eight characters drawn
//! from the alphanumeric alphabet and folded to lowercase. The draw
//! itself comes from an outside source of randomness; the folding and the
//! shape of the result are verified.

use vstd::prelude::*;
use rand::Rng;

verus! {

/// The length of every token the registration path issues.
pub const TOKEN_LEN: usize = 8;

/// A byte the alphanumeric sampler can produce: an ASCII letter of either
/// case or a digit.
pub open spec fn is_alnum_byte(b: u8) -> bool {
    (65 <= b && b <= 90) || (97 <= b && b <= 122) || (48 <= b && b <= 57)
}

/// A character of a finished token: a lowercase ASCII letter or a digit.
pub open spec fn is_token_char(c: char) -> bool {
    (97 <= c as int && c as int <= 122) || (48 <= c as int && c as int <= 57)
}

/// Case folding of one sampled byte: an uppercase ASCII letter moves down
/// to its lowercase partner; everything else is already in its final form.
pub open spec fn fold_byte(b: u8) -> u8 {
    if 65 <= b && b <= 90 {
        (b + 32) as u8
    } else {
        b
    }
}

/// Relies on rand's `Alphanumeric` distribution: every sampled byte is an
/// ASCII letter or digit, and the iterator yields exactly the requested
/// number of bytes. The draw is random, so nothing else is promised.
#[verifier::external_body]
fn sample_alnum(n: usize) -> (r: Vec<u8>)
    ensures
        r@.len() == n,
        forall|i: int| 0 <= i < r@.len() ==> is_alnum_byte(r@[i]),
{
    rand::thread_rng().sample_iter(&rand::distributions::Alphanumeric).take(n).collect()
}

/// Relies on `String::from_utf8`: a buffer of ASCII bytes decodes to the
/// string whose characters are exactly those bytes, one character each.
#[verifier::external_body]
fn ascii_string(bytes: Vec<u8>) -> (r: String)
    requires
        forall|i: int| 0 <= i < bytes@.len() ==> bytes@[i] < 128,
    ensures
        r@.len() == bytes@.len(),
        forall|i: int| 0 <= i < r@.len() ==> r@[i] == bytes@[i] as char,
{
    String::from_utf8(bytes).unwrap_or_default()
}

/// Folds every uppercase ASCII letter of the buffer to lowercase, byte
/// for byte, leaving all other bytes alone.
fn fold_lower(bytes: &mut Vec<u8>)
    ensures
        final(bytes)@.len() == old(bytes)@.len(),
        forall|i: int|
            0 <= i < old(bytes)@.len() ==> final(bytes)@[i] == fold_byte(old(bytes)@[i]),
{
    let n = bytes.len();
    let mut i: usize = 0;
    while i < n
        invariant
            i <= n,
            n == bytes@.len(),
            bytes@.len() == old(bytes)@.len(),
            forall|j: int| 0 <= j < i ==> bytes@[j] == fold_byte(old(bytes)@[j]),
            forall|j: int| i <= j < n ==> bytes@[j] == old(bytes)@[j],
        decreases n - i,
    {
        let b = bytes[i];
        if b >= 65 && b <= 90 {
            bytes[i] = b + 32;
        }
        i = i + 1;
    }
}

/// Generates one fresh token: eight bytes sampled from the alphanumeric
/// alphabet, folded to lowercase. The sample is random, so two calls are
/// unrelated; every result has exactly this shape.
pub fn generate_token() -> (r: String)
    ensures
        r@.len() == TOKEN_LEN as int,
        forall|i: int| 0 <= i < r@.len() ==> is_token_char(r@[i]),
{
    let mut bytes = sample_alnum(TOKEN_LEN);
    let ghost sampled = bytes@;
    fold_lower(&mut bytes);
    proof {
        assert forall|i: int| 0 <= i < bytes@.len() implies bytes@[i] < 128 && is_token_char(
            bytes@[i] as char,
        ) by {
            assert(is_alnum_byte(sampled[i]));
            assert(bytes@[i] == fold_byte(sampled[i]));
        }
    }
    ascii_string(bytes)
}

} // verus!
