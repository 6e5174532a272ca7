//! Numbers of the table that may be missing.

use super::hex_serde;
use super::hex_serde::{hex_of, number, written_numbers_are_read_back};
use vstd::prelude::*;

verus! {

/// The number that a text of the table stands for, if the text is none; an
/// empty text stands for no number.
pub open spec fn optional_number(s: Seq<char>) -> Option<Option<u16>> {
    if s.len() == 0 {
        Some(None)
    } else {
        match number(s) {
            Some(n) => Some(Some(n)),
            None => None,
        }
    }
}

/// What stands in the table for a number that may be missing.
pub open spec fn optional_text(n: Option<u16>) -> Seq<char> {
    match n {
        Some(n) => "0x"@ + hex_of(n as nat),
        None => ""@,
    }
}

pub fn deserialize(res: &str) -> (n: Option<Option<u16>>)
    ensures
        n == optional_number(res@),
{
    if res.unicode_len() == 0 {
        Some(None)
    } else {
        match hex_serde::deserialize(res) {
            Some(n) => Some(Some(n)),
            None => None,
        }
    }
}

pub fn serialize(this: Option<u16>) -> (s: String)
    ensures
        s@ == optional_text(this),
{
    match this {
        Some(n) => hex_serde::serialize(n),
        None => String::from_str(""),
    }
}

/// What was written to the table is read back from it.
pub proof fn written_fields_are_read_back(n: Option<u16>)
    ensures
        optional_number(optional_text(n)) == Some(n),
{
    reveal_strlit("0x");
    reveal_strlit("");
    if let Some(n) = n {
        written_numbers_are_read_back(n);
    }
}

/// A field that is empty is no number, and any other one is the number that it would
/// be if it had to be there.
pub proof fn optional_numbers_are_numbers(
    text: &str,
    optional: Option<Option<u16>>,
    number: Option<u16>,
)
    requires
        call_ensures(deserialize, (text,), optional),
        call_ensures(hex_serde::deserialize, (text,), number),
    ensures
        text@.len() == 0 ==> optional == Some(None::<u16>),
        text@.len() > 0 && number is Some ==> optional == Some(number),
        text@.len() > 0 && number is None ==> optional is None,
{
}

/// What was written is what is read again, a number or none.
pub proof fn optional_numbers_survive_the_table(
    this: Option<u16>,
    text: String,
    read: Option<Option<u16>>,
)
    requires
        call_ensures(serialize, (this,), text),
        exists|s: &str| #[trigger] call_ensures(deserialize, (s,), read) && s@ == text@,
    ensures
        read == Some(this),
{
    written_fields_are_read_back(this);
}

} // verus!
