//! The generic outbound response the flows populate.
//!
//! The HTTP adapter outside this crate turns a [`GummaAuthResponse`] into a
//! framework response: [`response_status_code`] gives the wire status, and
//! the `location`, `www_authenticate` and `body` fields carry the headers
//! and payload.

use vstd::prelude::*;

verus! {

/// The four statuses a flow can answer with, plus the store-failure one.
#[derive(Clone, Copy, PartialEq, Eq, Structural, Debug)]
pub enum Status {
    Okay,
    Redirect,
    BadRequest,
    Unauthorized,
    InternalError,
}

/// A response payload: plain text or a JSON document.
pub enum ResponseBody {
    Text(String),
    Json(String),
}

/// The generic outbound response: a status, the two headers the flows set,
/// and an optional payload.
pub struct GummaAuthResponse {
    pub status: Status,
    pub location: Option<String>,
    pub www_authenticate: Option<String>,
    pub body: Option<ResponseBody>,
}

/// The HTTP status line for each [`Status`].
pub fn response_status_code(status: Status) -> (r: u16)
    ensures
        r == (match status {
            Status::Okay => 200u16,
            Status::Redirect => 302u16,
            Status::BadRequest => 400u16,
            Status::Unauthorized => 401u16,
            Status::InternalError => 500u16,
        }),
{
    match status {
        Status::Okay => 200,
        Status::Redirect => 302,
        Status::BadRequest => 400,
        Status::Unauthorized => 401,
        Status::InternalError => 500,
    }
}

impl GummaAuthResponse {
    /// A bare response with the given status and nothing else set.
    pub fn new(status: Status) -> (r: Self)
        ensures
            r.status == status,
            r.location is None,
            r.www_authenticate is None,
            r.body is None,
    {
        GummaAuthResponse { status, location: None, www_authenticate: None, body: None }
    }

    /// Marks the response as plain success.
    pub fn ok(&mut self)
        ensures
            final(self).status == Status::Okay,
            final(self).location == old(self).location,
            final(self).www_authenticate == old(self).www_authenticate,
            final(self).body == old(self).body,
    {
        self.status = Status::Okay;
    }

    /// Turns the response into a redirect to `url`.
    pub fn redirect(&mut self, url: String)
        ensures
            final(self).status == Status::Redirect,
            final(self).location matches Some(u) && u@ == url@,
            final(self).www_authenticate == old(self).www_authenticate,
            final(self).body == old(self).body,
    {
        self.status = Status::Redirect;
        self.location = Some(url);
    }

    /// Marks the response as a client error.
    pub fn client_error(&mut self)
        ensures
            final(self).status == Status::BadRequest,
            final(self).location == old(self).location,
            final(self).www_authenticate == old(self).www_authenticate,
            final(self).body == old(self).body,
    {
        self.status = Status::BadRequest;
    }

    /// Marks the response as an authentication failure carrying the given
    /// challenge header.
    pub fn unauthorized(&mut self, header_value: &str)
        ensures
            final(self).status == Status::Unauthorized,
            final(self).location == old(self).location,
            final(self).www_authenticate matches Some(h) && h@ == header_value@,
            final(self).body == old(self).body,
    {
        self.status = Status::Unauthorized;
        self.www_authenticate = Some(header_value.to_owned());
    }

    /// Attaches a plain-text payload.
    pub fn body_text(&mut self, text: &str)
        ensures
            final(self).status == old(self).status,
            final(self).location == old(self).location,
            final(self).www_authenticate == old(self).www_authenticate,
            final(self).body matches Some(b) && b matches ResponseBody::Text(t) && t@ == text@,
    {
        self.body = Some(ResponseBody::Text(text.to_owned()));
    }

    /// Attaches a JSON payload.
    pub fn body_json(&mut self, data: &str)
        ensures
            final(self).status == old(self).status,
            final(self).location == old(self).location,
            final(self).www_authenticate == old(self).www_authenticate,
            final(self).body matches Some(b) && b matches ResponseBody::Json(t) && t@ == data@,
    {
        self.body = Some(ResponseBody::Json(data.to_owned()));
    }
}

} // verus!
