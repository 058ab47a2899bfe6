//! Conversions between the values of the engine and those of Rust.

use crate::error::Error;
use std::string::FromUtf8Error;
use vstd::prelude::*;
use vstd::utf8::{decode_utf8, valid_utf8};

verus! {

/// The error of `String::from_utf8`.
#[verifier::external_type_specification]
#[verifier::external_body]
pub struct ExFromUtf8Error(FromUtf8Error);

/// `String::from_utf8` makes the text that `vec` encodes, and fails if `vec`
/// is not valid UTF-8.
pub assume_specification[ String::from_utf8 ](vec: Vec<u8>) -> (made: Result<String, FromUtf8Error>)
    ensures
        made is Ok <==> valid_utf8(vec@),
        made matches Ok(text) ==> text@ == decode_utf8(vec@),
;

/// 1 for `true`, 0 for `false`.
pub fn bool_to_int(value: bool) -> (number: i32)
    ensures
        number == (if value {
            1i32
        } else {
            0i32
        }),
{
    if value {
        1
    } else {
        0
    }
}

/// `false` for 0, `true` for any other number.
pub fn int_to_bool(value: i32) -> (flag: bool)
    ensures
        flag == (value != 0),
{
    value != 0
}

/// `value` as the engine's `int`, if it fits.
pub fn to_c_int(value: usize) -> (made: Result<i32, Error>)
    ensures
        made is Ok <==> value <= i32::MAX,
        made matches Ok(number) ==> number == value,
        made is Err ==> made->Err_0 == Error::IntOutOfRange,
{
    match i32::try_from(value) {
        Ok(number) => Ok(number),
        Err(_) => Err(Error::IntOutOfRange),
    }
}

/// `index` is the place of the first byte of `bytes` that is 0.
pub open spec fn first_nul(bytes: Seq<u8>, index: int) -> bool {
    &&& 0 <= index < bytes.len()
    &&& bytes[index] == 0
    &&& forall|i: int| 0 <= i < index ==> bytes[i] != 0
}

/// The bytes of `bytes` before the first that is 0, or all of them if none is.
pub open spec fn until_nul(bytes: Seq<u8>) -> Seq<u8> {
    if exists|index: int| first_nul(bytes, index) {
        bytes.take(choose|index: int| first_nul(bytes, index))
    } else {
        bytes
    }
}

/// The text of a buffer that the engine has filled: the bytes before the first
/// that is 0, or all of them if none is, read as UTF-8.
pub fn chars_to_string(chars: Vec<u8>) -> (made: Result<String, Error>)
    ensures
        made is Ok <==> valid_utf8(until_nul(chars@)),
        made matches Ok(text) ==> text@ == decode_utf8(until_nul(chars@)),
        made is Err ==> made->Err_0 == Error::InvalidUtf8,
{
    let mut chars = chars;
    let ghost bytes = chars@;
    let mut index: usize = 0;
    while index < chars.len() && chars[index] != 0
        invariant
            chars@ == bytes,
            index <= bytes.len(),
            forall|i: int| 0 <= i < index ==> bytes[i] != 0,
        decreases bytes.len() - index,
    {
        index += 1;
    }
    proof {
        if index < bytes.len() {
            assert(first_nul(bytes, index as int));
        }
        assert(until_nul(bytes) == bytes.take(index as int));
    }
    chars.truncate(index);
    match String::from_utf8(chars) {
        Ok(text) => Ok(text),
        Err(_) => Err(Error::InvalidUtf8),
    }
}

/// The texts of buffers that the engine has filled, each read as
/// `chars_to_string` reads it: all of them, or an error if one is no text.
pub fn chars_to_strings(buffers: Vec<Vec<u8>>) -> (made: Result<Vec<String>, Error>)
    ensures
        made is Ok <==> forall|i: int|
            0 <= i < buffers@.len() ==> valid_utf8(until_nul(#[trigger] buffers@[i]@)),
        made matches Ok(texts) ==> {
            &&& texts@.len() == buffers@.len()
            &&& forall|i: int|
                0 <= i < buffers@.len() ==> (#[trigger] texts@[i])@ == decode_utf8(
                    until_nul(buffers@[i]@),
                )
        },
        made is Err ==> made->Err_0 == Error::InvalidUtf8,
{
    let mut texts: Vec<String> = Vec::new();
    for buffer in it: buffers.into_iter()
        invariant
            it.seq() == buffers@,
            texts@.len() == it.index(),
            forall|i: int|
                0 <= i < it.index() ==> valid_utf8(until_nul(#[trigger] buffers@[i]@)),
            forall|i: int|
                0 <= i < it.index() ==> (#[trigger] texts@[i])@ == decode_utf8(
                    until_nul(buffers@[i]@),
                ),
    {
        match chars_to_string(buffer) {
            Ok(text) => {
                texts.push(text);
            },
            Err(e) => {
                return Err(e);
            },
        }
    }
    Ok(texts)
}

/// `count` buffers of `len` bytes each, all 0, for the engine to fill.
pub fn zeroed_buffers(count: usize, len: usize) -> (buffers: Vec<Vec<u8>>)
    ensures
        buffers@.len() == count,
        forall|i: int| 0 <= i < count ==> (#[trigger] buffers@[i])@ == Seq::new(
            len as nat,
            |j: int| 0u8,
        ),
{
    let buffer = vec![0u8; len];
    vec![buffer; count]
}

/// What to do with a buffer after the engine has written to it and has told
/// how many bytes it had to write.
#[derive(Debug, PartialEq, Eq)]
pub enum Filled {
    /// The buffer held all that there was to write: here it is, cut to that.
    Done(Vec<u8>),
    /// The buffer was too small: here it is, grown to what is needed, for the
    /// engine to write again.
    Again(Vec<u8>),
}

/// What to do with `buffer` after the engine, which had `needed` bytes to
/// write, has written as many of them as `buffer` holds.
pub fn after_fill(buffer: Vec<u8>, needed: usize) -> (filled: Filled)
    ensures
        needed <= buffer@.len() ==> filled is Done && filled->Done_0@ == buffer@.take(
            needed as int,
        ),
        needed > buffer@.len() ==> filled is Again && filled->Again_0@ == buffer@ + Seq::new(
            (needed - buffer@.len()) as nat,
            |j: int| 0u8,
        ),
{
    let mut buffer = buffer;
    if needed <= buffer.len() {
        buffer.truncate(needed);
        Filled::Done(buffer)
    } else {
        let ghost before = buffer@;
        buffer.resize(needed, 0);
        proof {
            assert(buffer@ =~= before + Seq::new(
                (needed - before.len()) as nat,
                |j: int| 0u8,
            ));
        }
        Filled::Again(buffer)
    }
}

} // verus!
