//! Bytes as base64 text, where they are there.

use super::base64;
use super::base64::{decoded, encoded, stands_for, told_of, Base64Error};
use vstd::prelude::*;
use vstd::utf8::encode_utf8;

verus! {

/// Writes bytes down that are there.
pub fn serialize(data: &Option<Vec<u8>>) -> (text: String)
    requires
        data matches Some(d) && d@.len() <= isize::MAX / 2,
    ensures
        text@ == encoded(data->0@),
        stands_for(text@, data->0@),
{
    match data {
        Some(data) => base64::serialize(data.as_slice()),
        None => String::new(),
    }
}

/// Reads bytes, where there are any.
pub fn deserialize(text: Option<&str>) -> (data: Result<Option<Vec<u8>>, Base64Error>)
    ensures
        match text {
            Some(text) => match decoded(text@) {
                Ok(bytes) => data matches Ok(Some(d)) && d@ == bytes,
                Err(error) => data == Err::<Option<Vec<u8>>, Base64Error>(
                    told_of(encode_utf8(text@).len(), error),
                ),
            },
            None => data == Ok::<Option<Vec<u8>>, Base64Error>(None),
        },
{
    match text {
        Some(text) => match base64::deserialize(text) {
            Ok(data) => Ok(Some(data)),
            Err(error) => Err(error),
        },
        None => Ok(None),
    }
}

/// Bytes that were written down are read again as they were, and where there is no
/// text there are none.
pub proof fn optional_bytes_are_read_back(
    data: Option<Vec<u8>>,
    text: String,
    read: Result<Option<Vec<u8>>, Base64Error>,
    nothing: Result<Option<Vec<u8>>, Base64Error>,
)
    requires
        data is Some && data->0@.len() <= isize::MAX / 2,
        call_ensures(serialize, (&data,), text),
        exists|s: &str| #[trigger] call_ensures(deserialize, (Some(s),), read) && s@ == text@,
        call_ensures(deserialize, (None::<&str>,), nothing),
    ensures
        read is Ok && read->Ok_0 is Some,
        read->Ok_0->0@ == data->0@,
        nothing == Ok::<Option<Vec<u8>>, Base64Error>(None),
{
}

} // verus!
