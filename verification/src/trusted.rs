//! What this library believes of code that it calls and cannot verify:
//! `String::from_utf8` of the standard library and `Uuid::from_bytes` of the
//! `uuid` crate. Nothing here is proved.

use std::string::FromUtf8Error;
use uuid::Uuid;
use vstd::prelude::*;
use vstd::utf8::{decode_utf8, valid_utf8};

verus! {

/// The error of `String::from_utf8`. Nothing is known of what is inside.
#[verifier::external_type_specification]
#[verifier::external_body]
pub struct ExFromUtf8Error(FromUtf8Error);

/// The identifier type of the `uuid` crate. Nothing is known of what is
/// inside but its sixteen bytes, see [`uuid_bytes`].
#[verifier::external_type_specification]
#[verifier::external_body]
pub struct ExUuid(Uuid);

/// The sixteen bytes that an identifier holds, in the order in which
/// `Uuid::as_bytes` gives them.
pub uninterp spec fn uuid_bytes(id: Uuid) -> Seq<u8>;

/// `String::from_utf8` succeeds exactly on the byte vectors that are
/// well-formed UTF-8, and the string it returns is the text that the bytes
/// encode.
pub assume_specification[ String::from_utf8 ](bytes: Vec<u8>) -> (res: Result<
    String,
    FromUtf8Error,
>)
    ensures
        res is Ok <==> valid_utf8(bytes@),
        res matches Ok(text) ==> text@ == decode_utf8(bytes@),
;

/// `Uuid::from_bytes` returns the identifier that holds the given bytes,
/// unchanged and in the given order.
pub assume_specification[ Uuid::from_bytes ](bytes: [u8; 16]) -> (id: Uuid)
    ensures
        uuid_bytes(id) == bytes@,
;

} // verus!
