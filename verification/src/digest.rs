//! SHA-256 over bytes, rendered as lowercase hexadecimal text.

use crypto::digest::Digest;
use crypto::sha2::Sha256;
use vstd::prelude::*;

verus! {

/// The hexadecimal SHA-256 digest of a byte string.
pub uninterp spec fn sha256_hex(data: Seq<u8>) -> Seq<char>;

/// The number of bytes from which on a message is too long to be hashed:
/// its length in bits must fit 64 bits.
pub const MESSAGE_LIMIT: u64 = 0x2000_0000_0000_0000;

/// Whether a message is short enough to be hashed.
pub open spec fn hashable(data: Seq<u8>) -> bool {
    data.len() < MESSAGE_LIMIT
}

/// Whether `c` is one of the sixteen lowercase hexadecimal digits.
pub open spec fn is_lower_hex(c: char) -> bool {
    ('0' <= c && c <= '9') || ('a' <= c && c <= 'f')
}

/// Whether `text` has the form of a digest: 64 lowercase hexadecimal digits.
pub open spec fn is_hex_digest(text: Seq<char>) -> bool {
    &&& text.len() == 64
    &&& forall|i: int| 0 <= i < text.len() ==> is_lower_hex(#[trigger] text[i])
}

/// Feeds `data` to a fresh `crypto::sha2::Sha256` through `Digest::input` and
/// reads the digest with `Digest::result_str`. `input` panics on a message
/// of `MESSAGE_LIMIT` bytes or more, so such a message is not admitted. The
/// contract names the result: equal bytes always give equal text. It also
/// states the form that `result_str` gives every digest: the 256 bits of
/// output as two lowercase hexadecimal digits per byte, 64 in all.
#[verifier::external_body]
pub(crate) fn sha256_hex_of(data: &Vec<u8>) -> (hex: String)
    requires
        hashable(data@),
    ensures
        hex@ == sha256_hex(data@),
        is_hex_digest(hex@),
{
    let mut hasher = Sha256::new();
    hasher.input(data.as_slice());
    hasher.result_str()
}

/// The hexadecimal SHA-256 digest of `data`, 64 lowercase digits, or `None`
/// where `data` is too long to be hashed.
pub fn sha256_hex_checked(data: &Vec<u8>) -> (hex: Option<String>)
    ensures
        match hex {
            Some(text) => {
                &&& hashable(data@)
                &&& text@ == sha256_hex(data@)
                &&& is_hex_digest(text@)
            },
            None => !hashable(data@),
        },
{
    if (data.len() as u64) < MESSAGE_LIMIT {
        Some(sha256_hex_of(data))
    } else {
        None
    }
}

/// Number of leading `'0'` characters a digest must show.
pub const DIFFICULTY: usize = 4;

/// Whether `hex` starts with `DIFFICULTY` zero characters.
pub open spec fn meets_target(hex: Seq<char>) -> bool {
    &&& hex.len() >= DIFFICULTY
    &&& forall|i: int| 0 <= i < DIFFICULTY ==> hex[i] == '0'
}

/// Decides whether a digest text satisfies the difficulty target.
pub fn has_leading_zeros(hex: &str) -> (ok: bool)
    ensures
        ok == meets_target(hex@),
{
    if hex.unicode_len() < DIFFICULTY {
        return false;
    }
    let mut i: usize = 0;
    while i < DIFFICULTY
        invariant
            i <= DIFFICULTY,
            hex@.len() >= DIFFICULTY,
            forall|j: int| 0 <= j < i ==> hex@[j] == '0',
        decreases DIFFICULTY - i,
    {
        if hex.get_char(i) != '0' {
            return false;
        }
        i += 1;
    }
    true
}

} // verus!
