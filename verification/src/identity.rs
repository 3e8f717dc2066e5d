//! The identity under which a node collects its mining rewards.

use crate::encoding::hex_digit;
use uuid::Uuid;
use vstd::prelude::*;

verus! {

/// A node's identifier: the 128-bit value of its UUID.
#[derive(Clone, Copy, Debug, PartialEq, Eq, Structural)]
pub struct NodeId {
    pub value: u128,
}

/// The `width` lowest hexadecimal digits of `v`, most significant first, in
/// lowercase.
pub open spec fn lower_hex(v: nat, width: nat) -> Seq<char>
    decreases width,
{
    if width == 0 {
        Seq::empty()
    } else {
        lower_hex(v / 16, (width - 1) as nat).push(hex_digit(v % 16) as char)
    }
}

/// The simple form of an identifier: its 32 hexadecimal digits, in lowercase
/// and without hyphens.
pub open spec fn simple_text(value: u128) -> Seq<char> {
    lower_hex(value as nat, 32)
}

/// Builds the UUID with `Uuid::from_u128`, takes its `Uuid::simple` form and
/// renders that with `to_string`. The contract states the documented result:
/// the 32 lowercase hexadecimal digits of the value, most significant first.
#[verifier::external_body]
fn uuid_simple_string(value: u128) -> (s: String)
    ensures
        s@ == simple_text(value),
{
    Uuid::from_u128(value).simple().to_string()
}

impl NodeId {
    /// The identifier in simple form.
    pub fn simple(&self) -> (s: String)
        ensures
            s@ == simple_text(self.value),
    {
        uuid_simple_string(self.value)
    }
}

} // verus!
