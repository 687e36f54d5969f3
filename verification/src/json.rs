//! The JSON payloads that the library itself writes and reads: the decision
//! list, an array of names, and the answer to an info probe, an object of two
//! text fields. The text is made and parsed by `serde_json`; the library frames
//! it and decides what a failure means.

use crate::wire::{frame, framed, ProtocolError};
use vstd::prelude::*;

verus! {

/// Trusted: the error type of `serde_json`, carried through unread.
#[verifier::external_type_specification]
#[verifier::external_body]
pub struct ExJsonError(serde_json::Error);

/// The bytes that `serde_json::to_vec` writes for a list of names.
pub uninterp spec fn names_json(names: Seq<Seq<char>>) -> Seq<u8>;

/// The list of names that `serde_json::from_slice` reads from `bytes`, where it
/// accepts them as an array of strings.
pub uninterp spec fn names_from_json(bytes: Seq<u8>) -> Option<Seq<Seq<char>>>;

/// The bytes that `serde_json::to_vec` writes for an object into which text
/// fields were inserted, key and value, in this order.
pub uninterp spec fn object_json(fields: Seq<(Seq<char>, Seq<char>)>) -> Seq<u8>;

/// Trusted: `serde_json::to_vec` on a list of strings. The contract claims that
/// the call succeeds, since it writes strings into a vector of bytes, which
/// takes whatever is written, and that what is written is a function of the
/// names, called [`names_json`].
#[verifier::external_body]
fn names_to_json(names: &Vec<String>) -> (r: Result<Vec<u8>, serde_json::Error>)
    ensures
        r is Ok,
        r matches Ok(bytes) ==> bytes@ == names_json(names.deep_view()),
{
    serde_json::to_vec(names)
}

/// Trusted: `serde_json::from_slice` into a list of strings. The contract
/// claims only that acceptance and the names read are a function of the bytes,
/// called [`names_from_json`].
#[verifier::external_body]
fn names_of_json(bytes: &[u8]) -> (r: Result<Vec<String>, serde_json::Error>)
    ensures
        match r {
            Ok(names) => names_from_json(bytes@) == Some(names.deep_view()),
            Err(_) => names_from_json(bytes@) is None,
        },
{
    serde_json::from_slice(bytes)
}

/// Trusted: `serde_json::to_vec` on an object built with `serde_json::Map::insert`
/// from two keys and their text values. The contract claims that the call
/// succeeds, since it writes strings into a vector of bytes, which takes
/// whatever is written, and that what is written is a function of the fields
/// in the order of their insertion, called [`object_json`].
#[verifier::external_body]
fn two_fields_to_json(first_key: &str, first: &str, second_key: &str, second: &str) -> (r: Result<
    Vec<u8>,
    serde_json::Error,
>)
    ensures
        r is Ok,
        r matches Ok(bytes) ==> bytes@ == object_json(
            seq![(first_key@, first@), (second_key@, second@)],
        ),
{
    let mut object = serde_json::Map::new();
    object.insert(first_key.to_owned(), serde_json::Value::String(first.to_owned()));
    object.insert(second_key.to_owned(), serde_json::Value::String(second.to_owned()));
    serde_json::to_vec(&serde_json::Value::Object(object))
}

/// Frames JSON text that was written, or says why there is none to frame: text
/// that could not be written is malformed, text of more than `u32::MAX` bytes is
/// too long.
pub fn frame_written(written: Result<Vec<u8>, serde_json::Error>) -> (r: Result<
    Vec<u8>,
    ProtocolError,
>)
    ensures
        match written {
            Ok(payload) => if payload.len() <= u32::MAX {
                r matches Ok(bytes) && bytes@ == framed(payload@)
            } else {
                r matches Err(e) && e is PayloadTooLong
            },
            Err(_) => r matches Err(e) && e is MalformedJson,
        },
{
    match written {
        Ok(payload) => frame(&payload),
        Err(_) => Err(ProtocolError::MalformedJson),
    }
}

/// The frame that carries a decision list: the names of the files the sender
/// will transfer, none to transfer nothing. The frame is owed unless the list
/// as JSON is longer than a length prefix can say.
pub fn encode_decision(names: &Vec<String>) -> (r: Result<Vec<u8>, ProtocolError>)
    ensures
        r is Ok <==> names_json(names.deep_view()).len() <= u32::MAX,
        r matches Ok(bytes) ==> bytes@ == framed(names_json(names.deep_view())),
        r matches Err(e) ==> e is PayloadTooLong,
{
    frame_written(names_to_json(names))
}

/// Reads the payload of a decision frame.
pub fn decode_decision(payload: &[u8]) -> (r: Result<Vec<String>, ProtocolError>)
    ensures
        match names_from_json(payload@) {
            Some(names) => r matches Ok(list) && list.deep_view() == names,
            None => r matches Err(e) && e is MalformedJson,
        },
{
    match names_of_json(payload) {
        Ok(names) => Ok(names),
        Err(_) => Err(ProtocolError::MalformedJson),
    }
}

/// The fields of the answer to an info probe: the name, then the role.
pub open spec fn identity_fields(name: Seq<char>, role: Seq<char>) -> Seq<(Seq<char>, Seq<char>)> {
    seq![("name"@, name), ("role"@, role)]
}

/// The frame that answers an info probe: the receiver's name and role. The
/// frame is owed unless the answer as JSON is longer than a length prefix can
/// say.
pub fn encode_identity(name: &str, role: &str) -> (r: Result<Vec<u8>, ProtocolError>)
    ensures
        r is Ok <==> object_json(identity_fields(name@, role@)).len() <= u32::MAX,
        r matches Ok(bytes) ==> bytes@ == framed(object_json(identity_fields(name@, role@))),
        r matches Err(e) ==> e is PayloadTooLong,
{
    frame_written(two_fields_to_json("name", name, "role", role))
}

} // verus!
