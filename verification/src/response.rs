//! The response model and its wire serialization: status line,
//! content type, content length in bytes, one CR LF CR LF separator,
//! then the body; the connection closes after one response.

use vstd::prelude::*;

use crate::status::{spec_reason, Status};
use crate::strutil::{spec_dec, u64_to_string};
use vstd::utf8::encode_utf8;

verus! {

/// The mathematical model of a response: its status code, its content
/// type and its body text.
pub struct ResponseView {
    pub status: u16,
    pub content_type: Seq<char>,
    pub body: Seq<char>,
}

/// An HTTP response.
pub struct Response {
    pub status: Status,
    pub content_type: String,
    pub body: String,
}

impl View for Response {
    type V = ResponseView;

    open spec fn view(&self) -> ResponseView {
        ResponseView {
            status: self.status.0,
            content_type: self.content_type@,
            body: self.body@,
        }
    }
}

/// The byte length of a body: the length of its UTF-8 encoding, which
/// is what `Content-Length` announces. A body held in memory is never
/// longer than the address space, so the machine-width cast is exact.
pub open spec fn spec_body_bytes(body: Seq<char>) -> nat {
    (encode_utf8(body).len() as usize) as nat
}

/// The serialized form of a response: the status line, the content
/// type and byte-exact content length, an empty line, then the body.
pub open spec fn spec_wire(r: ResponseView) -> Seq<char> {
    "HTTP/1.1 "@ + spec_dec(r.status as int) + " "@ + spec_reason(r.status)
        + "\r\nContent-Type: "@ + r.content_type + "\r\nContent-Length: "@ + spec_dec(
        spec_body_bytes(r.body) as int,
    ) + "\r\n\r\n"@ + r.body
}

impl Response {
    /// Builds a response from its parts.
    pub fn new(status: Status, body: String, content_type: String) -> (r: Response)
        ensures
            r@.status == status.0,
            r@.body == body@,
            r@.content_type == content_type@,
    {
        Response { status, content_type, body }
    }

    /// The same response with `body` in place of the old body.
    pub fn body(self, body: String) -> (r: Response)
        ensures
            r@.status == self@.status,
            r@.content_type == self@.content_type,
            r@.body == body@,
    {
        Response { status: self.status, content_type: self.content_type, body }
    }

    /// Serializes the response for the socket.
    pub fn to_wire(&self) -> (r: String)
        ensures
            r@ == spec_wire(self@),
    {
        let mut s = "HTTP/1.1 ".to_owned();
        let code = u64_to_string(self.status.0 as u64);
        s.append(code.as_str());
        s.append(" ");
        s.append(self.status.reason());
        s.append("\r\nContent-Type: ");
        s.append(self.content_type.as_str());
        s.append("\r\nContent-Length: ");
        let blen = self.body.as_str().len();
        let blen_str = u64_to_string(blen as u64);
        s.append(blen_str.as_str());
        s.append("\r\n\r\n");
        s.append(self.body.as_str());
        proof {
            assert(s@ =~= spec_wire(self@));
        }
        s
    }
}

impl Clone for Response {
    /// A copy with the same model.
    fn clone(&self) -> (r: Self)
        ensures
            r@ == self@,
    {
        Response {
            status: self.status,
            content_type: self.content_type.clone(),
            body: self.body.clone(),
        }
    }
}

} // verus!
