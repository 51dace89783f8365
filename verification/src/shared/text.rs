//! Text as sequences of characters: conversion, decimal numbers, prefixes.

use vstd::prelude::*;
use vstd::utf8::{decode_utf8, encode_utf8, encode_utf8_decode_utf8};

verus! {

/// `String::push` appends one character.
pub assume_specification[ String::push ](s: &mut String, c: char)
    ensures
        final(s)@ == old(s)@.push(c),
;

/// `std::num::ParseIntError`, carried as it comes: nothing inside it is
/// read.
#[verifier::external_type_specification]
#[verifier::external_body]
pub struct ExParseIntError(std::num::ParseIntError);

/// The characters of a text, one by one.
pub fn to_chars(text: &str) -> (r: Vec<char>)
    ensures
        r@ == text@,
{
    let mut r: Vec<char> = Vec::new();
    for c in it: text.chars()
        invariant
            r@ == text@.subrange(0, it.index() as int),
            it.seq() == text@,
    {
        r.push(c);
    }
    r
}

/// The text made of the characters `chars[from..to]`.
pub fn string_of(chars: &Vec<char>, from: usize, to: usize) -> (r: String)
    requires
        from <= to <= chars.len(),
    ensures
        r@ == chars@.subrange(from as int, to as int),
{
    let mut r = String::new();
    let mut i: usize = from;
    while i < to
        invariant
            from <= i <= to <= chars.len(),
            r@ == chars@.subrange(from as int, i as int),
        decreases to - i,
    {
        r.push(chars[i]);
        i = i + 1;
    }
    r
}

/// The decimal digit for a value below ten.
pub open spec fn digit_char(d: nat) -> char {
    (d + 48) as char
}

/// The value of a decimal digit.
pub open spec fn digit_value(c: char) -> nat {
    (c as nat - 48) as nat
}

/// Whether `c` is one of `0` to `9`.
pub open spec fn is_digit(c: char) -> bool {
    '0' <= c <= '9'
}

/// The decimal numeral of `n`, without leading zeros.
pub open spec fn decimal_repr(n: nat) -> Seq<char>
    decreases n,
{
    if n < 10 {
        seq![digit_char(n)]
    } else {
        decimal_repr(n / 10).push(digit_char(n % 10))
    }
}

/// The number that a string of decimal digits denotes.
pub open spec fn digits_value(digits: Seq<char>) -> nat
    decreases digits.len(),
{
    if digits.len() == 0 {
        0
    } else {
        digits_value(digits.drop_last()) * 10 + digit_value(digits.last())
    }
}

/// Whether every character is a decimal digit.
pub open spec fn all_digits(digits: Seq<char>) -> bool {
    forall|i: int| 0 <= i < digits.len() ==> is_digit(#[trigger] digits[i])
}

/// What a text denotes as an unsigned 64-bit decimal number: an optional
/// `+`, then at least one digit and nothing else, the value within range.
pub open spec fn decimal_u64(text: Seq<char>) -> Option<u64> {
    let digits = if text.len() > 0 && text[0] == '+' {
        text.skip(1)
    } else {
        text
    };
    if digits.len() > 0 && all_digits(digits) && digits_value(digits) <= u64::MAX {
        Some(digits_value(digits) as u64)
    } else {
        None
    }
}

/// The numeral of a number consists of digits and denotes that number.
pub proof fn lemma_decimal_repr(n: nat)
    ensures
        decimal_repr(n).len() > 0,
        all_digits(decimal_repr(n)),
        digits_value(decimal_repr(n)) == n,
    decreases n,
{
    if n < 10 {
        let s = decimal_repr(n);
        assert(s.drop_last() =~= Seq::<char>::empty());
        assert(digits_value(s.drop_last()) == 0);
    } else {
        lemma_decimal_repr(n / 10);
        let s = decimal_repr(n);
        assert(s.drop_last() =~= decimal_repr(n / 10));
        assert(s.last() == digit_char(n % 10));
    }
}

/// Reading back the numeral of a 64-bit number gives the number.
pub proof fn lemma_decimal_round_trip(v: u64)
    ensures
        decimal_u64(decimal_repr(v as nat)) == Some(v),
{
    lemma_decimal_repr(v as nat);
    let s = decimal_repr(v as nat);
    assert(is_digit(s[0]));
}

/// Appends the decimal numeral of `v` to `out`.
pub fn push_decimal(out: &mut String, v: u64)
    ensures
        final(out)@ == old(out)@ + decimal_repr(v as nat),
    decreases v,
{
    if v >= 10 {
        push_decimal(out, v / 10);
    }
    let d: u8 = (v % 10) as u8;
    let c: char = (d + 48u8) as char;
    out.push(c);
    assert(c == digit_char((v % 10) as nat));
    assert(out@ =~= old(out)@ + decimal_repr(v as nat));
}

/// Calls `str::parse::<u64>`, which accepts an optional `+` followed by
/// decimal digits only and fails on an empty string, on any other character
/// and on a value above `u64::MAX`.
#[verifier::external_body]
pub(crate) fn parse_u64(text: &str) -> (r: Result<u64, std::num::ParseIntError>)
    ensures
        match r {
            Ok(v) => decimal_u64(text@) == Some(v),
            Err(_) => decimal_u64(text@) is None,
        },
{
    text.parse::<u64>()
}

/// Determines whether `line` starts with `prefix`; if it does, returns the
/// rest of the line. Calls `str::strip_prefix`.
#[verifier::external_body]
pub fn prefix_split<'a>(prefix: &str, line: &'a str) -> (r: Option<&'a str>)
    ensures
        match r {
            Some(rest) => prefix@.is_prefix_of(line@) && rest@ == line@.skip(prefix@.len() as int),
            None => !prefix@.is_prefix_of(line@),
        },
{
    line.strip_prefix(prefix)
}


/// The texts that a list of strings holds.
pub open spec fn texts(lines: Seq<String>) -> Seq<Seq<char>> {
    Seq::new(lines.len(), |i: int| lines[i]@)
}

/// Whether two texts are the same: they are when their bytes are.
pub fn same_text(a: &str, b: &str) -> (r: bool)
    ensures
        r == (a@ == b@),
{
    let left = a.as_bytes();
    let right = b.as_bytes();
    proof {
        encode_utf8_decode_utf8(a@);
        encode_utf8_decode_utf8(b@);
    }
    if left.len() != right.len() {
        return false;
    }
    let mut i: usize = 0;
    while i < left.len()
        invariant
            i <= left.len(),
            left.len() == right.len(),
            left@ == encode_utf8(a@),
            right@ == encode_utf8(b@),
            decode_utf8(encode_utf8(a@)) == a@,
            decode_utf8(encode_utf8(b@)) == b@,
            forall|k: int| 0 <= k < i ==> left@[k] == right@[k],
        decreases left.len() - i,
    {
        if left[i] != right[i] {
            assert(left@[i as int] != right@[i as int]);
            return false;
        }
        i = i + 1;
    }
    assert(left@ =~= right@);
    true
}


/// The lower-case form of a text, by the case mapping of Unicode.
pub uninterp spec fn lowercase(text: Seq<char>) -> Seq<char>;

/// Calls `str::to_lowercase`.
#[verifier::external_body]
pub(crate) fn to_lowercase(text: &str) -> (r: String)
    ensures
        r@ == lowercase(text@),
{
    text.to_lowercase()
}

} // verus!
