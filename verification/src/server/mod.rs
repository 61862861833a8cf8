//! What a connection computes between its read and its write: from the
//! bytes that arrived to the bytes that go back.

use crate::http::{parse_request, response_text, Request, RequestTrait, Response};
use crate::router::Router;
use vstd::prelude::*;
use vstd::slice::slice_subrange;
use vstd::string::*;
use vstd::utf8::{decode_utf8, encode_utf8, valid_utf8};

verus! {

/// The number of bytes that one read takes from a connection. What a client
/// sends beyond it is not seen.
pub const READ_BUFFER_SIZE: usize = 1024;

/// The text that `String::from_utf8_lossy` reads from bytes: valid UTF-8
/// as it is, with U+FFFD in place of what is not.
pub uninterp spec fn utf8_lossy(bytes: Seq<u8>) -> Seq<char>;

/// Calls `String::from_utf8_lossy`, which hands valid UTF-8 back unchanged.
#[verifier::external_body]
pub(crate) fn decode_lossy(bytes: &[u8]) -> (text: String)
    ensures
        text@ == utf8_lossy(bytes@),
        valid_utf8(bytes@) ==> text@ == decode_utf8(bytes@),
{
    String::from_utf8_lossy(bytes).into_owned()
}

/// The bytes that the parser sees of what arrived: at most
/// `READ_BUFFER_SIZE` of them.
pub open spec fn seen(received: Seq<u8>) -> Seq<u8> {
    if received.len() > READ_BUFFER_SIZE {
        received.take(READ_BUFFER_SIZE as int)
    } else {
        received
    }
}

/// The request that the received bytes stand for.
pub fn read_request(received: &[u8]) -> (request: Request)
    ensures
        request@ == parse_request(utf8_lossy(seen(received@))),
{
    let text = if received.len() > READ_BUFFER_SIZE {
        decode_lossy(slice_subrange(received, 0, READ_BUFFER_SIZE))
    } else {
        assert(received@.subrange(0, received@.len() as int) =~= received@);
        decode_lossy(received)
    };
    Request::parse(text.as_str())
}

/// The bytes of a response on the wire.
pub fn write_response(response: &Response) -> (sent: Vec<u8>)
    ensures
        sent@ == encode_utf8(
            response_text(response@.status, response.header_entries(), response@.body),
        ),
{
    let text = response.to_string();
    text.as_str().as_bytes_vec()
}

/// Answers what arrived on a connection: reads the request, lets the
/// router find the response and writes it out.
pub fn respond<H: Fn(Request) -> Response, M: Fn(Request) -> Result<Request, Response>>(
    router: &Router<H, M>,
    received: &[u8],
) -> (sent: Vec<u8>)
    requires
        router.accepts_every_request(),
    ensures
        exists|response: Response|
            {
                &&& #[trigger] router.responds(
                    parse_request(utf8_lossy(seen(received@))),
                    response,
                )
                &&& sent@ == encode_utf8(
                    response_text(response@.status, response.header_entries(), response@.body),
                )
            },
{
    let request = read_request(received);
    let response = router.handle_request(request);
    write_response(&response)
}

} // verus!
