//! Plain key/value parameter lists and the generic inbound request.
//!
//! An HTTP adapter outside this crate decodes the query string and the form
//! body into [`Params`] values and hands them over; the flows only ever read
//! parameters through [`Params::get`], whose meaning is [`spec_get`]: the
//! value of the first pair carrying the name.

use vstd::prelude::*;

verus! {

/// A list of `name=value` parameters, in the order they appeared.
pub struct Params {
    pub items: Vec<(String, String)>,
}

impl View for Params {
    type V = Seq<(Seq<char>, Seq<char>)>;

    open spec fn view(&self) -> Seq<(Seq<char>, Seq<char>)> {
        self.items@.map_values(|p: (String, String)| (p.0@, p.1@))
    }
}

/// The value of the first pair named `name`, if any.
pub open spec fn spec_get(q: Seq<(Seq<char>, Seq<char>)>, name: Seq<char>) -> Option<Seq<char>>
    decreases q.len(),
{
    if q.len() == 0 {
        None
    } else if q[0].0 == name {
        Some(q[0].1)
    } else {
        spec_get(q.drop_first(), name)
    }
}

impl Params {
    /// An empty parameter list.
    pub fn new() -> (r: Self)
        ensures
            r@ =~= Seq::<(Seq<char>, Seq<char>)>::empty(),
    {
        Params { items: Vec::new() }
    }

    /// Appends one `name=value` pair.
    pub fn push(&mut self, name: String, value: String)
        ensures
            final(self)@ =~= old(self)@.push((name@, value@)),
    {
        self.items.push((name, value));
    }

    /// Looks the name up; the first pair carrying it wins.
    pub fn get<'a>(&'a self, name: &str) -> (r: Option<&'a String>)
        ensures
            match r {
                Some(v) => spec_get(self@, name@) == Some(v@),
                None => spec_get(self@, name@) is None,
            },
    {
        let n = self.items.len();
        proof {
            assert(self@.skip(0) =~= self@);
        }
        for i in 0..n
            invariant
                n == self.items.len(),
                spec_get(self@, name@) == spec_get(self@.skip(i as int), name@),
        {
            proof {
                assert(self@.skip(i as int)[0] == self@[i as int]);
                assert(self@.skip(i as int).drop_first() =~= self@.skip(i as int + 1));
            }
            if crate::text::str_eq(self.items[i].0.as_str(), name) {
                return Some(&self.items[i].1);
            }
        }
        proof {
            assert(self@.skip(n as int) =~= Seq::<(Seq<char>, Seq<char>)>::empty());
        }
        None
    }
}

/// The view of an optional string.
pub open spec fn opt_str_view(o: Option<String>) -> Option<Seq<char>> {
    match o {
        Some(s) => Some(s@),
        None => None,
    }
}

/// The generic inbound request: an optional raw `Authorization` header, the
/// decoded query parameters and the decoded form body, any of which the
/// adapter may have found missing or undecodable.
pub struct GummaAuthRequest {
    pub auth_header: Option<String>,
    pub query_params: Option<Params>,
    pub form_body: Option<Params>,
}

impl GummaAuthRequest {
    /// The view of the query parameters, when the adapter decoded any.
    pub open spec fn spec_query(&self) -> Option<Seq<(Seq<char>, Seq<char>)>> {
        match self.query_params {
            Some(ref p) => Some(p@),
            None => None,
        }
    }

    /// The view of the form body, when the adapter decoded one.
    pub open spec fn spec_body(&self) -> Option<Seq<(Seq<char>, Seq<char>)>> {
        match self.form_body {
            Some(ref p) => Some(p@),
            None => None,
        }
    }

    /// The view of the raw `Authorization` header, when one came in.
    pub open spec fn spec_auth(&self) -> Option<Seq<char>> {
        opt_str_view(self.auth_header)
    }

    /// Bundles the three decoded pieces of an inbound request.
    pub fn new(
        query_params: Option<Params>,
        form_body: Option<Params>,
        auth_header: Option<String>,
    ) -> (r: Self)
        ensures
            r.query_params == query_params,
            r.form_body == form_body,
            r.auth_header == auth_header,
    {
        GummaAuthRequest { auth_header, query_params, form_body }
    }

    /// The raw `Authorization` header, if the request carried one.
    pub fn auth_header(&self) -> (r: Option<&str>)
        ensures
            match r {
                Some(h) => self.auth_header matches Some(s) && s@ == h@,
                None => self.auth_header is None,
            },
    {
        match &self.auth_header {
            Some(s) => Some(s.as_str()),
            None => None,
        }
    }

    /// The decoded query parameters, if any.
    pub fn query_params(&self) -> (r: Option<&Params>)
        ensures
            match r {
                Some(p) => self.query_params matches Some(q) && q == *p,
                None => self.query_params is None,
            },
    {
        self.query_params.as_ref()
    }

    /// The decoded form body, if any.
    pub fn form_body(&self) -> (r: Option<&Params>)
        ensures
            match r {
                Some(p) => self.form_body matches Some(q) && q == *p,
                None => self.form_body is None,
            },
    {
        self.form_body.as_ref()
    }
}

} // verus!
