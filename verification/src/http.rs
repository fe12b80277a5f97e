//! What the library is told of an answered HTTP request.

use vstd::prelude::*;

verus! {

/// The parts of an HTTP response that the library reads.
#[derive(Debug, Clone, PartialEq, Eq)]
pub struct HttpResponse {
    /// The status code.
    pub status: u16,
    /// The value of the `Location` header, where the response has one.
    pub location: Option<String>,
    /// The whole body.
    pub body: Vec<u8>,
}

/// An HTTP response, as plain values.
pub struct HttpResponseView {
    pub status: u16,
    pub location: Option<Seq<char>>,
    pub body: Seq<u8>,
}

impl View for HttpResponse {
    type V = HttpResponseView;

    open spec fn view(&self) -> HttpResponseView {
        HttpResponseView {
            status: self.status,
            location: match self.location {
                Some(location) => Some(location@),
                None => None,
            },
            body: self.body@,
        }
    }
}

/// How a request ended, as plain values: `None` where it failed in
/// transport, the response otherwise.
pub open spec fn outcome_view(outcome: Option<HttpResponse>) -> Option<HttpResponseView> {
    match outcome {
        Some(response) => Some(response@),
        None => None,
    }
}

/// The status is one of the redirections, 300 to 399.
pub open spec fn is_redirection(status: u16) -> bool {
    300 <= status < 400
}

/// The status is one of the successes, 200 to 299.
pub open spec fn is_success(status: u16) -> bool {
    200 <= status < 300
}

impl HttpResponseView {
    /// The response sends the client elsewhere: its status is a redirection
    /// and it names a location.
    pub open spec fn redirects(self) -> bool {
        is_redirection(self.status) && self.location is Some
    }
}

} // verus!
