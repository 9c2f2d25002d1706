//! Text form of binary data.

use base64::Engine;
use vstd::prelude::*;

verus! {

/// The standard base64 digit for a value below 64.
pub open spec fn base64_digit(value: int) -> char {
    if value < 26 {
        (65 + value) as char
    } else if value < 52 {
        (97 + value - 26) as char
    } else if value < 62 {
        (48 + value - 52) as char
    } else if value == 62 {
        '+'
    } else {
        '/'
    }
}

/// The byte at `i`; zero past the end.
pub open spec fn byte_or_zero(bytes: Seq<u8>, i: int) -> int {
    if i < bytes.len() {
        bytes[i] as int
    } else {
        0
    }
}

/// Three bytes from `i` on as one 24-bit number.
pub open spec fn three_bytes(bytes: Seq<u8>, i: int) -> int {
    byte_or_zero(bytes, i) * 0x1_0000 + byte_or_zero(bytes, i + 1) * 0x100 + byte_or_zero(
        bytes,
        i + 2,
    )
}

/// Base64 in the standard alphabet with padding: every group of three bytes is written as four
/// digits of six bits, and digits without a byte of their own as `=`.
pub open spec fn base64_of(bytes: Seq<u8>) -> Seq<char> {
    Seq::new(
        ((bytes.len() + 2) / 3 * 4) as nat,
        |i: int|
            {
                let group = i / 4 * 3;
                let digit = i % 4;
                let bits = three_bytes(bytes, group);
                if group + digit > bytes.len() {
                    '='
                } else if digit == 0 {
                    base64_digit(bits / 0x4_0000)
                } else if digit == 1 {
                    base64_digit(bits / 0x1000 % 64)
                } else if digit == 2 {
                    base64_digit(bits / 64 % 64)
                } else {
                    base64_digit(bits % 64)
                }
            },
    )
}

/// Whether the base64 text of `len` bytes is short enough to be allocated.
pub open spec fn base64_fits(len: nat) -> bool {
    (len + 2) / 3 * 4 <= isize::MAX
}

/// Encodes bytes with the `STANDARD` engine of the base64 crate: the standard alphabet with
/// padding. The encoder panics on inputs whose text cannot be allocated.
#[verifier::external_body]
fn base64_standard(bytes: &Vec<u8>) -> (r: String)
    requires
        base64_fits(bytes@.len()),
    ensures
        r@ == base64_of(bytes@),
{
    base64::engine::general_purpose::STANDARD.encode(bytes)
}

/// Base64 text of `bytes`; nothing when it would be too long to be allocated.
pub fn encode_base64(bytes: &Vec<u8>) -> (r: Option<String>)
    ensures
        match r {
            Some(text) => base64_fits(bytes@.len()) && text@ == base64_of(bytes@),
            None => !base64_fits(bytes@.len()),
        },
{
    let length: u128 = (bytes.len() as u128 + 2) / 3 * 4;
    if length <= isize::MAX as u128 {
        Some(base64_standard(bytes))
    } else {
        None
    }
}

} // verus!
