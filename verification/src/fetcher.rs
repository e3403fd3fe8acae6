//! The resource fetcher's rules: what a response is worth once it has
//! arrived. The transfer itself is the caller's.

use crate::error::text_view;
use crate::error::Error;
use vstd::prelude::*;
use vstd::utf8::decode_utf8;
use vstd::utf8::valid_utf8;

verus! {

/// Whether `status`, the status code of a response, reports success.
pub open spec fn is_success(status: u16) -> bool {
    200 <= status < 300
}

/// The text of a response with the given status and body: `Network` where
/// the status reports no success, `Decode` where the body is not UTF-8.
pub open spec fn text_of(status: u16, body: Seq<u8>) -> Result<Seq<char>, Error> {
    if !is_success(status) {
        Err(Error::Network)
    } else if !valid_utf8(body) {
        Err(Error::Decode)
    } else {
        Ok(decode_utf8(body))
    }
}

/// Calls `std::str::from_utf8`. The claim: it accepts the byte strings that
/// are UTF-8, and those only, and returns the text that they encode.
#[verifier::external_body]
fn text_of_bytes(bytes: &[u8]) -> (text: Option<&str>)
    ensures
        match text {
            Some(text) => valid_utf8(bytes@) && text@ == decode_utf8(bytes@),
            None => !valid_utf8(bytes@),
        },
{
    std::str::from_utf8(bytes).ok()
}

/// Accepts a response whose status reports success.
pub fn check_status(status: u16) -> (checked: Result<(), Error>)
    ensures
        checked == if is_success(status) {
            Ok::<(), Error>(())
        } else {
            Err::<(), Error>(Error::Network)
        },
{
    if 200 <= status && status < 300 {
        Ok(())
    } else {
        Err(Error::Network)
    }
}

/// The text of a response with the given status and body.
pub fn response_text(status: u16, body: &[u8]) -> (text: Result<String, Error>)
    ensures
        text_view(text) == text_of(status, body@),
{
    match check_status(status) {
        Err(e) => Err(e),
        Ok(_) => match text_of_bytes(body) {
            None => Err(Error::Decode),
            Some(text) => Ok(text.to_owned()),
        },
    }
}

} // verus!
