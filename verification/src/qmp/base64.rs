//! Bytes as base64 text.

use vstd::prelude::*;
use vstd::utf8::encode_utf8;

verus! {

/// Why a text is no base64.
#[derive(Debug, Clone, Copy, PartialEq, Eq, Structural)]
pub enum DecodeError {
    InvalidByte,
    InvalidLength,
    InvalidLastSymbol,
}

/// What a reader is told of a text that is no base64.
#[derive(Debug, Clone, Copy, PartialEq, Eq, Structural)]
pub enum Base64Error {
    /// Base64 was expected in place of the text.
    InvalidValue,
    /// A valid length was expected in place of this number of bytes.
    InvalidLength { len: usize },
}

/// What `base64::encode` makes of some bytes.
pub uninterp spec fn encoded(data: Seq<u8>) -> Seq<char>;

/// What `base64::decode` makes of a text.
pub uninterp spec fn decoded(text: Seq<char>) -> Result<Seq<u8>, DecodeError>;

/// Whether a text stands for some bytes.
pub open spec fn stands_for(text: Seq<char>, data: Seq<u8>) -> bool {
    decoded(text) matches Ok(bytes) && bytes == data
}

/// `base64::encode`: the bytes as text, from which `base64::decode` gives them
/// back.
#[verifier::external_body]
fn encode(data: &[u8]) -> (text: String)
    requires
        data@.len() <= isize::MAX / 2,
    ensures
        text@ == encoded(data@),
        stands_for(text@, data@),
{
    ::base64::encode(data)
}

/// `base64::decode`: the bytes that a text stands for.
#[verifier::external_body]
fn decode(text: &str) -> (data: Result<Vec<u8>, DecodeError>)
    ensures
        decoded(text@) == match data {
            Ok(data) => Ok(data@),
            Err(error) => Err(error),
        },
{
    ::base64::decode(text).map_err(|error| match error {
        ::base64::DecodeError::InvalidByte(..) => DecodeError::InvalidByte,
        ::base64::DecodeError::InvalidLength => DecodeError::InvalidLength,
        ::base64::DecodeError::InvalidLastSymbol(..) => DecodeError::InvalidLastSymbol,
    })
}

/// Writes bytes down.
pub fn serialize(data: &[u8]) -> (text: String)
    requires
        data@.len() <= isize::MAX / 2,
    ensures
        text@ == encoded(data@),
        stands_for(text@, data@),
{
    encode(data)
}

/// Reads bytes that were written down.
pub fn deserialize(text: &str) -> (data: Result<Vec<u8>, Base64Error>)
    ensures
        match decoded(text@) {
            Ok(bytes) => data matches Ok(d) && d@ == bytes,
            Err(error) => data == Err::<Vec<u8>, Base64Error>(
                told_of(encode_utf8(text@).len(), error),
            ),
        },
{
    match decode(text) {
        Ok(data) => Ok(data),
        Err(error) => Err(de_err(text, error)),
    }
}

/// What a reader is told of a text with a number of bytes.
pub open spec fn told_of(len: nat, error: DecodeError) -> Base64Error {
    match error {
        DecodeError::InvalidLength => Base64Error::InvalidLength { len: len as usize },
        _ => Base64Error::InvalidValue,
    }
}

pub fn de_err(text: &str, error: DecodeError) -> (told: Base64Error)
    ensures
        told == told_of(encode_utf8(text@).len(), error),
{
    match error {
        DecodeError::InvalidByte => Base64Error::InvalidValue,
        DecodeError::InvalidLastSymbol => Base64Error::InvalidValue,
        DecodeError::InvalidLength => Base64Error::InvalidLength { len: text.len() },
    }
}

/// Bytes that were written down are read again as they were.
pub proof fn bytes_are_read_back(
    data: &[u8],
    text: String,
    read: Result<Vec<u8>, Base64Error>,
)
    requires
        data@.len() <= isize::MAX / 2,
        call_ensures(serialize, (data,), text),
        exists|s: &str| #[trigger] call_ensures(deserialize, (s,), read) && s@ == text@,
    ensures
        read is Ok,
        read->Ok_0@ == data@,
{
}

/// A text of a wrong length is told by its length, and any other one that is no
/// base64 as a wrong value.
pub proof fn bad_texts_are_told_apart(text: &str, error: DecodeError, told: Base64Error)
    requires
        call_ensures(de_err, (text, error), told),
    ensures
        error is InvalidLength <==> told is InvalidLength,
        told matches Base64Error::InvalidLength { len } ==> len == encode_utf8(text@).len() as usize,
        error is InvalidByte || error is InvalidLastSymbol ==> told is InvalidValue,
{
}

} // verus!
