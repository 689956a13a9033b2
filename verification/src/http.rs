//! What the client for images on the web asks for.
use vstd::prelude::*;

use crate::text::same_text;

verus! {

/// Seconds that a connection may take.
pub const CONNECT_TIMEOUT_S: u64 = 10;

/// Seconds that a request may take.
pub const REQUEST_TIMEOUT_S: u64 = 30;

/// The most bytes that an answer may have.
pub const MAX_BODY_BYTES: u64 = 16_777_216;

/// Whether requests of a method have no body.
pub open spec fn bodyless(method: Seq<char>) -> bool {
    method == "GET"@ || method == "HEAD"@
}

/// Whether a request can be sent: only those without a body can. Others are refused with a
/// message rather than sent without their body.
pub fn check_method(method: &str) -> (r: Result<(), String>)
    ensures
        r is Ok <==> bodyless(method@),
        r matches Err(message) ==> message@ == "UreqHttpClient only supports GET/HEAD, got "@ + method@,
{
    if same_text(method, "GET") || same_text(method, "HEAD") {
        return Ok(());
    }
    let mut message: String = "UreqHttpClient only supports GET/HEAD, got ".to_owned();
    message.append(method);
    Err(message)
}

} // verus!
