//! The amount of currency sent with a call: an unsigned integer of 256 bits,
//! read and written by `primitive_types::U256`.

use crate::decimal::decimal;
use primitive_types::U256;
use std::str::FromStr;
use vstd::prelude::*;

verus! {

/// An unsigned integer below 2^256, held as four words of 64 bits, the lowest
/// first.
#[derive(Debug, Clone, Copy, PartialEq, Eq)]
pub struct Amount {
    limbs: [u64; 4],
}

/// The number that four words write, the lowest first.
pub open spec fn limbs_value(limbs: Seq<u64>) -> nat {
    (limbs[0] + limbs[1] * 0x1_0000_0000_0000_0000 + limbs[2]
        * 0x1_0000_0000_0000_0000_0000_0000_0000_0000 + limbs[3]
        * 0x1_0000_0000_0000_0000_0000_0000_0000_0000_0000_0000_0000_0000) as nat
}

/// The value of a hexadecimal digit, of either case.
pub open spec fn hex_digit(c: char) -> Option<nat> {
    if '0' <= c <= '9' {
        Some((c as int - 48) as nat)
    } else if 'a' <= c <= 'f' {
        Some((c as int - 87) as nat)
    } else if 'A' <= c <= 'F' {
        Some((c as int - 55) as nat)
    } else {
        None
    }
}

/// Every character of `s` is a hexadecimal digit.
pub open spec fn all_hex_digits(s: Seq<char>) -> bool {
    forall|i: int| 0 <= i < s.len() ==> hex_digit(#[trigger] s[i]) is Some
}

/// The number that hexadecimal digits write; no digit writes nothing.
pub open spec fn hex_value(s: Seq<char>) -> nat
    decreases s.len(),
{
    if s.len() == 0 {
        0
    } else {
        hex_value(s.drop_last()) * 16 + hex_digit(s.last())->0
    }
}

/// `text` without the `0x` it may start with.
pub open spec fn without_hex_prefix(text: Seq<char>) -> Seq<char> {
    if text.len() >= 2 && text[0] == '0' && text[1] == 'x' {
        text.skip(2)
    } else {
        text
    }
}

/// What `U256`'s `FromStr` makes of `text`: behind an optional `0x`, up to
/// 64 hexadecimal digits write the number; any other text is refused.
pub open spec fn u256_from_str(text: Seq<char>) -> Option<nat> {
    let digits = without_hex_prefix(text);
    if digits.len() <= 64 && all_hex_digits(digits) {
        Some(hex_value(digits))
    } else {
        None
    }
}

/// The number that an optional amount stands for.
pub open spec fn value_of(amount: Option<Amount>) -> Option<nat> {
    match amount {
        Some(a) => Some(a@),
        None => None,
    }
}

impl View for Amount {
    type V = nat;

    closed spec fn view(&self) -> nat {
        limbs_value(self.limbs@)
    }
}

/// Calls `<U256 as FromStr>::from_str`. Trusted: the text is read as
/// `u256_from_str` says, in base sixteen; the error, whichever it is, becomes
/// `None`.
#[verifier::external_body]
fn u256_parse(text: &str) -> (r: Option<Amount>)
    ensures
        value_of(r) == u256_from_str(text@),
{
    match U256::from_str(text) {
        Ok(v) => Some(Amount { limbs: v.0 }),
        Err(_) => None,
    }
}

/// Calls `U256`'s `Display` through `to_string`. Trusted: the result is the
/// decimal notation of the number, without sign, padding or leading zeros.
#[verifier::external_body]
fn u256_to_string(amount: &Amount) -> (r: String)
    ensures
        r@ == decimal(amount@),
{
    U256(amount.limbs).to_string()
}

impl Amount {
    /// The amount `v`.
    pub fn from_u64(v: u64) -> (r: Amount)
        ensures
            r@ == v,
    {
        Amount { limbs: [v, 0, 0, 0] }
    }

    /// Reads an amount as `U256` reads one from a string: in base sixteen.
    pub fn parse(text: &str) -> (r: Option<Amount>)
        ensures
            value_of(r) == u256_from_str(text@),
    {
        u256_parse(text)
    }

    /// Whether the amount is nothing.
    pub fn is_zero(&self) -> (b: bool)
        ensures
            b == (self@ == 0),
    {
        self.limbs[0] == 0 && self.limbs[1] == 0 && self.limbs[2] == 0 && self.limbs[3] == 0
    }

    /// The amount in decimal notation.
    pub fn to_string(&self) -> (r: String)
        ensures
            r@ == decimal(self@),
    {
        u256_to_string(self)
    }
}

} // verus!
