//! Variant tags: the name that a node gives to the variant at each position.

use vstd::prelude::*;
use vstd::string::*;

verus! {

/// The decimal digit that stands for `d`, for `0 <= d < 10`.
pub open spec fn digit_char(d: int) -> char {
    if d == 0 {
        '0'
    } else if d == 1 {
        '1'
    } else if d == 2 {
        '2'
    } else if d == 3 {
        '3'
    } else if d == 4 {
        '4'
    } else if d == 5 {
        '5'
    } else if d == 6 {
        '6'
    } else if d == 7 {
        '7'
    } else if d == 8 {
        '8'
    } else {
        '9'
    }
}

/// The number that a decimal digit stands for; 0 for any other character.
pub open spec fn digit_value(c: char) -> nat {
    if c == '1' {
        1
    } else if c == '2' {
        2
    } else if c == '3' {
        3
    } else if c == '4' {
        4
    } else if c == '5' {
        5
    } else if c == '6' {
        6
    } else if c == '7' {
        7
    } else if c == '8' {
        8
    } else if c == '9' {
        9
    } else {
        0
    }
}

/// `n` written in base ten, most significant digit first, without leading zeros.
pub open spec fn decimal(n: nat) -> Seq<char>
    decreases n,
{
    if n < 10 {
        seq![digit_char(n as int)]
    } else {
        decimal(n / 10).push(digit_char((n % 10) as int))
    }
}

/// The number that a sequence of decimal digits stands for.
pub open spec fn decimal_value(s: Seq<char>) -> nat
    decreases s.len(),
{
    if s.len() == 0 {
        0
    } else {
        decimal_value(s.drop_last()) * 10 + digit_value(s.last())
    }
}

/// The tag of the variant at position `index`: `Variant0`, `Variant1`, ...
pub open spec fn variant_tag(index: nat) -> Seq<char> {
    "Variant"@ + decimal(index)
}

/// Reading back the decimal form of a number gives that number.
pub proof fn lemma_decimal_value(n: nat)
    ensures
        decimal_value(decimal(n)) == n,
    decreases n,
{
    if n < 10 {
        let s = decimal(n);
        assert(decimal_value(s.drop_last()) == 0);
    } else {
        let head = decimal(n / 10);
        let s = decimal(n);
        lemma_decimal_value(n / 10);
        assert(s.drop_last() =~= head);
    }
}

/// Tags are positional: two positions have the same tag only if they are the
/// same position.
pub proof fn lemma_variant_tag_injective(i: nat, j: nat)
    requires
        variant_tag(i) == variant_tag(j),
    ensures
        i == j,
{
    let prefix = "Variant"@;
    assert(variant_tag(i).skip(prefix.len() as int) =~= decimal(i));
    assert(variant_tag(j).skip(prefix.len() as int) =~= decimal(j));
    lemma_decimal_value(i);
    lemma_decimal_value(j);
}

/// The decimal digit that stands for `d`.
fn digit(d: usize) -> (c: char)
    requires
        d < 10,
    ensures
        c == digit_char(d as int),
{
    if d == 0 {
        '0'
    } else if d == 1 {
        '1'
    } else if d == 2 {
        '2'
    } else if d == 3 {
        '3'
    } else if d == 4 {
        '4'
    } else if d == 5 {
        '5'
    } else if d == 6 {
        '6'
    } else if d == 7 {
        '7'
    } else if d == 8 {
        '8'
    } else {
        '9'
    }
}

/// Writes `n` in base ten.
pub fn decimal_string(n: usize) -> (s: String)
    ensures
        s@ == decimal(n as nat),
    decreases n,
{
    let mut s = if n < 10 {
        String::new()
    } else {
        decimal_string(n / 10)
    };
    s.push(digit(n % 10));
    s
}

/// The tag of the variant at position `number`.
pub fn format_variant_name(number: usize) -> (tag: String)
    ensures
        tag@ == variant_tag(number as nat),
{
    let mut tag = String::from_str("Variant");
    let digits = decimal_string(number);
    tag.append(digits.as_str());
    tag
}

} // verus!
