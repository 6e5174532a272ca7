//! Numbers of the table that are always there.

use crate::text::{digit, number_of_decimal, parse_decimal};
use serde_hex::{CompactPfx, SerHex};
use vstd::prelude::*;

verus! {

/// The value of a hexadecimal digit of either case.
pub open spec fn hex_value(c: char) -> Option<nat> {
    let n = c as u32;
    if 0x30 <= n <= 0x39 {
        Some((n - 0x30) as nat)
    } else if 0x61 <= n <= 0x66 {
        Some((n - 0x61 + 10) as nat)
    } else if 0x41 <= n <= 0x46 {
        Some((n - 0x41 + 10) as nat)
    } else {
        None
    }
}

/// The number that hexadecimal digits stand for.
pub open spec fn number_of_hex(s: Seq<char>) -> Option<nat>
    decreases s.len(),
{
    if s.len() == 0 {
        Some(0)
    } else {
        match (number_of_hex(s.drop_last()), hex_value(s.last())) {
            (Some(n), Some(d)) => Some(n * 16 + d),
            _ => None,
        }
    }
}

/// Whether a text starts with the mark of a hexadecimal number.
pub open spec fn has_prefix(s: Seq<char>) -> bool {
    s.len() >= 2 && s[0] == '0' && s[1] == 'x'
}

/// The number that one to four hexadecimal digits behind the mark stand for.
pub open spec fn prefixed_number(s: Seq<char>) -> Option<u16> {
    if 3 <= s.len() <= 6 && number_of_hex(s.skip(2)) is Some {
        Some((number_of_hex(s.skip(2))->0) as u16)
    } else {
        None
    }
}

/// `serde_hex::SerHex::from_hex` for a `u16` in the compact form with the mark
/// `0x`, on a text that has the mark.
#[verifier::external_body]
fn from_hex(s: &str) -> (n: Option<u16>)
    requires
        has_prefix(s@),
    ensures
        n == prefixed_number(s@),
{
    <u16 as SerHex<CompactPfx>>::from_hex(s).ok()
}

/// A number in hexadecimal, without leading zeros.
pub open spec fn hex_of(n: nat) -> Seq<char>
    decreases n,
{
    if n < 16 {
        seq![digit(n as int)]
    } else {
        hex_of(n / 16).push(digit(n as int % 16))
    }
}

/// `serde_hex::SerHex::into_hex` for a `u16` in the compact form with the mark
/// `0x`: the mark, and the number without leading zeros.
#[verifier::external_body]
fn into_hex(n: u16) -> (s: String)
    ensures
        s@ == "0x"@ + hex_of(n as nat),
{
    <u16 as SerHex<CompactPfx>>::into_hex(&n).unwrap()
}

/// The number that a text of the table stands for: hexadecimal with the mark,
/// else decimal.
pub open spec fn number(s: Seq<char>) -> Option<u16> {
    if has_prefix(s) {
        prefixed_number(s)
    } else {
        number_of_decimal(s)
    }
}

pub fn deserialize(res: &str) -> (n: Option<u16>)
    ensures
        n == number(res@),
{
    if starts_with_mark(res) {
        from_hex(res)
    } else {
        parse_decimal(res)
    }
}

fn starts_with_mark(s: &str) -> (starts: bool)
    ensures
        starts == has_prefix(s@),
{
    s.unicode_len() >= 2 && s.get_char(0) == '0' && s.get_char(1) == 'x'
}

pub fn serialize(this: u16) -> (s: String)
    ensures
        s@ == "0x"@ + hex_of(this as nat),
{
    into_hex(this)
}

proof fn lemma_hex(n: nat)
    ensures
        number_of_hex(hex_of(n)) == Some(n),
        1 <= hex_of(n).len(),
        n < 0x10 ==> hex_of(n).len() <= 1,
        n < 0x100 ==> hex_of(n).len() <= 2,
        n < 0x1000 ==> hex_of(n).len() <= 3,
        n < 0x1_0000 ==> hex_of(n).len() <= 4,
    decreases n,
{
    reveal_with_fuel(number_of_hex, 2);
    if n < 16 {
        let s = hex_of(n);
        assert(s.drop_last() =~= Seq::<char>::empty());
        lemma_digit(n);
    } else {
        lemma_hex(n / 16);
        let s = hex_of(n);
        assert(s.drop_last() =~= hex_of(n / 16));
        lemma_digit(n % 16);
    }
}

proof fn lemma_digit(n: nat)
    requires
        n < 16,
    ensures
        hex_value(digit(n as int)) == Some(n),
{
}

/// A number that was written to the table is read back from it.
pub proof fn written_numbers_are_read_back(n: u16)
    ensures
        number("0x"@ + hex_of(n as nat)) == Some(n),
{
    let s = "0x"@ + hex_of(n as nat);
    reveal_strlit("0x");
    lemma_hex(n as nat);
    assert(s.skip(2) =~= hex_of(n as nat));
    assert(s[0] == '0' && s[1] == 'x');
}

/// The value of a hexadecimal digit of either case is the usual one.
pub open spec fn is_digit_of(c: char, value: int) -> bool {
    ||| '0' <= c <= '9' && value == c as int - '0' as int
    ||| 'a' <= c <= 'f' && value == c as int - 'a' as int + 10
    ||| 'A' <= c <= 'F' && value == c as int - 'A' as int + 10
}

/// A hexadecimal number behind its mark grows by a digit as sixteen times itself and
/// the digit, up to four digits; with anything else in it, it is no number.
pub proof fn hexadecimal_numbers_grow_by_digits(
    shorter: &str,
    longer: &str,
    c: char,
    value: int,
    n: Option<u16>,
    m: Option<u16>,
)
    requires
        longer@ == shorter@.push(c),
        shorter@.len() >= 2,
        shorter@[0] == '0' && shorter@[1] == 'x',
        call_ensures(deserialize, (shorter,), n),
        call_ensures(deserialize, (longer,), m),
    ensures
        shorter@.len() == 2 ==> n is None,
        shorter@.len() >= 6 ==> m is None,
        shorter@.len() == 2 && is_digit_of(c, value) ==> m is Some && m->0 == value,
        3 <= shorter@.len() < 6 && n is Some && is_digit_of(c, value) ==> m is Some && m->0 == n->0
            * 16 + value,
        (forall|v: int| !is_digit_of(c, v)) ==> m is None,
        3 <= shorter@.len() && n is None ==> m is None,
{
    let digits = shorter@.skip(2);
    let all = longer@.skip(2);
    assert(all =~= digits.push(c));
    assert(all.drop_last() =~= digits);
    reveal_with_fuel(number_of_hex, 2);
    if hex_value(c) is Some {
        assert(is_digit_of(c, hex_value(c)->0 as int));
    }
    lemma_hex_fits(digits);
    lemma_hex_fits(all);
    if shorter@.len() == 2 {
        assert(digits =~= Seq::<char>::empty());
    }
}

proof fn lemma_hex_fits(s: Seq<char>)
    ensures
        number_of_hex(s) matches Some(n) ==> {
            &&& s.len() <= 1 ==> n < 0x10
            &&& s.len() <= 2 ==> n < 0x100
            &&& s.len() <= 3 ==> n < 0x1000
            &&& s.len() <= 4 ==> n < 0x1_0000
        },
    decreases s.len(),
{
    if s.len() > 0 {
        lemma_hex_fits(s.drop_last());
    }
}

/// What was written is what is read again.
pub proof fn numbers_survive_the_table(this: u16, text: String, read: Option<u16>)
    requires
        call_ensures(serialize, (this,), text),
        exists|s: &str| #[trigger] call_ensures(deserialize, (s,), read) && s@ == text@,
    ensures
        read == Some(this),
{
    written_numbers_are_read_back(this);
}

} // verus!
