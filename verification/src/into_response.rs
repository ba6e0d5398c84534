//! The response conversion protocol: the deterministic, ordered rules
//! that turn whatever value a handler or middleware produced into a
//! response.

use vstd::prelude::*;

use crate::response::{Response, ResponseView};
use crate::status::Status;
use crate::strutil::{spec_dec, u64_to_string};

verus! {

/// What a handler or middleware produced, as the dispatcher sees it:
/// either a pre-built response, a status alone, plain text, a
/// structured value (carried as its canonical JSON encoding), one of
/// those paired with a status, or something convertible to none of
/// these.
pub enum HandlerValue {
    /// A pre-built response, passed through as given.
    Complete(Response),
    /// A status alone.
    StatusOnly(Status),
    /// A text value alone.
    Text(String),
    /// A structured value alone, as its canonical JSON encoding.
    Structured(String),
    /// A text value paired with a status.
    TextWithStatus(String, Status),
    /// A structured value paired with a status.
    StructuredWithStatus(String, Status),
    /// Anything else: convertible only to a diagnostic.
    Opaque,
}

/// The model of a handler value.
pub enum HandlerValueView {
    Complete(ResponseView),
    StatusOnly(u16),
    Text(Seq<char>),
    Structured(Seq<char>),
    TextWithStatus(Seq<char>, u16),
    StructuredWithStatus(Seq<char>, u16),
    Opaque,
}

impl View for HandlerValue {
    type V = HandlerValueView;

    open spec fn view(&self) -> HandlerValueView {
        match self {
            HandlerValue::Complete(r) => HandlerValueView::Complete(r@),
            HandlerValue::StatusOnly(c) => HandlerValueView::StatusOnly(c.0),
            HandlerValue::Text(t) => HandlerValueView::Text(t@),
            HandlerValue::Structured(j) => HandlerValueView::Structured(j@),
            HandlerValue::TextWithStatus(t, c) => HandlerValueView::TextWithStatus(t@, c.0),
            HandlerValue::StructuredWithStatus(j, c) => HandlerValueView::StructuredWithStatus(
                j@,
                c.0,
            ),
            HandlerValue::Opaque => HandlerValueView::Opaque,
        }
    }
}

/// The conversion protocol: which response each shape of handler
/// value yields. Text alone answers 200 as text/plain; a structured
/// value alone answers 200 as application/json; a pair takes its
/// given status; a status alone has an empty body; anything else
/// yields a 500 with a diagnostic body.
pub open spec fn spec_convert(v: HandlerValueView) -> ResponseView {
    match v {
        HandlerValueView::Complete(r) => r,
        HandlerValueView::StatusOnly(c) => ResponseView {
            status: c,
            content_type: "text/plain"@,
            body: Seq::empty(),
        },
        HandlerValueView::Text(t) => ResponseView {
            status: 200,
            content_type: "text/plain"@,
            body: t,
        },
        HandlerValueView::Structured(j) => ResponseView {
            status: 200,
            content_type: "application/json"@,
            body: j,
        },
        HandlerValueView::TextWithStatus(t, c) => ResponseView {
            status: c,
            content_type: "text/plain"@,
            body: t,
        },
        HandlerValueView::StructuredWithStatus(j, c) => ResponseView {
            status: c,
            content_type: "application/json"@,
            body: j,
        },
        HandlerValueView::Opaque => ResponseView {
            status: 500,
            content_type: "text/plain"@,
            body: "Failed to convert this type to response"@,
        },
    }
}

/// Converts a handler value into a response, by the conversion
/// protocol.
pub fn convert_to_response(v: HandlerValue) -> (r: Response)
    ensures
        r@ == spec_convert(v@),
{
    match v {
        HandlerValue::Complete(r) => r,
        HandlerValue::StatusOnly(c) => {
            let r = Response::new(c, String::new(), "text/plain".to_owned());
            proof {
                assert(r@ =~= spec_convert(HandlerValueView::StatusOnly(c.0)));
            }
            r
        },
        HandlerValue::Text(t) => Response::new(Status(200), t, "text/plain".to_owned()),
        HandlerValue::Structured(j) => Response::new(
            Status(200),
            j,
            "application/json".to_owned(),
        ),
        HandlerValue::TextWithStatus(t, c) => Response::new(c, t, "text/plain".to_owned()),
        HandlerValue::StructuredWithStatus(j, c) => Response::new(
            c,
            j,
            "application/json".to_owned(),
        ),
        HandlerValue::Opaque => Response::new(
            Status(500),
            "Failed to convert this type to response".to_owned(),
            "text/plain".to_owned(),
        ),
    }
}

/// A value with a canonical response form.
pub trait IntoResponse {
    /// The response this value converts to.
    spec fn spec_response(&self) -> ResponseView;

    /// Converts the value.
    fn into_response(&self) -> (r: Response)
        ensures
            r@ == self.spec_response(),
    ;
}

impl IntoResponse for Response {
    open spec fn spec_response(&self) -> ResponseView {
        self@
    }

    fn into_response(&self) -> (r: Response)
        ensures
            r@ == self.spec_response(),
    {
        self.clone()
    }
}

impl IntoResponse for Status {
    open spec fn spec_response(&self) -> ResponseView {
        ResponseView { status: self.0, content_type: "text/plain"@, body: Seq::empty() }
    }

    fn into_response(&self) -> (r: Response)
        ensures
            r@ == self.spec_response(),
    {
        let r = Response::new(*self, String::new(), "text/plain".to_owned());
        proof {
            assert(r@ =~= self.spec_response());
        }
        r
    }
}

impl IntoResponse for String {
    open spec fn spec_response(&self) -> ResponseView {
        ResponseView { status: 200, content_type: "text/plain"@, body: self@ }
    }

    fn into_response(&self) -> (r: Response)
        ensures
            r@ == self.spec_response(),
    {
        Response::new(Status(200), self.clone(), "text/plain".to_owned())
    }
}

/// The decimal rendering of a signed number.
pub open spec fn spec_int_dec(n: int) -> Seq<char> {
    if n < 0 {
        seq!['-'] + spec_dec(-n)
    } else {
        spec_dec(n)
    }
}

impl IntoResponse for i32 {
    open spec fn spec_response(&self) -> ResponseView {
        ResponseView {
            status: 200,
            content_type: "application/json"@,
            body: spec_int_dec(*self as int),
        }
    }

    fn into_response(&self) -> (r: Response)
        ensures
            r@ == self.spec_response(),
    {
        let n: i64 = *self as i64;
        let body = if n < 0 {
            let mut s = "-".to_owned();
            let digits = u64_to_string((-n) as u64);
            s.append(digits.as_str());
            proof {
                reveal_strlit("-");
                assert(s@ =~= spec_int_dec(*self as int));
            }
            s
        } else {
            u64_to_string(n as u64)
        };
        Response::new(Status(200), body, "application/json".to_owned())
    }
}

impl IntoResponse for (String, Status) {
    open spec fn spec_response(&self) -> ResponseView {
        ResponseView { status: self.1.0, content_type: "text/plain"@, body: self.0@ }
    }

    fn into_response(&self) -> (r: Response)
        ensures
            r@ == self.spec_response(),
    {
        Response::new(self.1, self.0.clone(), "text/plain".to_owned())
    }
}

} // verus!
