//! The authorization flow: from an inbound `authorize` request to either a
//! direct client error, an error redirect, or a pending consent request.
//!
//! The failure policy follows the one safe order: until the redirect URI is
//! validated against the registry nothing is ever redirected (missing or
//! unknown `client_id`, missing or unregistered `redirect_uri` all answer a
//! bare `400`); from then on every error travels inside the redirect's
//! query string, with the client's `state` carried back verbatim.
//! [`auth_decision`] is the whole decision chain as one specification
//! function, and [`authorize_validate`] is proved to follow it exactly.

use crate::consent::{ConsentDecision, ConsentRequest};
use crate::grants::{GrantStore, GRANT_TTL_SECONDS};
use crate::text::code_chars;
use crate::encode::pct_encoded;
use crate::params::{opt_str_view, spec_get, GummaAuthRequest};
use crate::registry::ClientRegistry;
use crate::response::{GummaAuthResponse, Status};
use crate::scope::{dedup_words, scope_string_ok, scope_words, ScopeSet};
use vstd::prelude::*;

verus! {

/// The errors that are reported inside a redirect, once the redirect URI
/// itself is known good.
#[derive(Clone, Copy, PartialEq, Eq, Structural, Debug)]
pub enum AuthError {
    UnsupportedResponseType,
    InvalidScope,
    AccessDenied,
}

/// The verdict of the validation chain over one authorize request.
pub enum AuthDecision {
    /// Answer a bare `400`: the request never earned a redirect.
    Refused,
    /// Redirect to the validated URI with an error code.
    RedirectErr { uri: Seq<char>, error: AuthError, state: Option<Seq<char>> },
    /// Everything checked out; consent may be solicited.
    Proceed {
        client_id: Seq<char>,
        redirect_uri: Seq<char>,
        scope_tokens: Seq<Seq<char>>,
        state: Option<Seq<char>>,
    },
}

/// Whether every word stands in the allowed set.
pub open spec fn words_in(ws: Seq<Seq<char>>, allowed: Set<Seq<char>>) -> bool {
    forall|i: int| 0 <= i < ws.len() ==> allowed.contains(#[trigger] ws[i])
}

/// The whole validation chain of the authorization flow, in the order the
/// failure policy dictates.
pub open spec fn auth_decision(
    reg: ClientRegistry,
    q: Option<Seq<(Seq<char>, Seq<char>)>>,
) -> AuthDecision {
    match q {
        None => AuthDecision::Refused,
        Some(qs) => match spec_get(qs, "client_id"@) {
            None => AuthDecision::Refused,
            Some(cid) => if !reg.has_client(cid) {
                AuthDecision::Refused
            } else {
                let client = reg.client_named(cid);
                match spec_get(qs, "redirect_uri"@) {
                    None => AuthDecision::Refused,
                    Some(uri) => if !client.uris().contains(uri) {
                        AuthDecision::Refused
                    } else {
                        let state = spec_get(qs, "state"@);
                        if spec_get(qs, "response_type"@) != Some("code"@) {
                            AuthDecision::RedirectErr {
                                uri,
                                error: AuthError::UnsupportedResponseType,
                                state,
                            }
                        } else {
                            match spec_get(qs, "scope"@) {
                                Some(sv) => if !scope_string_ok(sv) {
                                    AuthDecision::RedirectErr {
                                        uri,
                                        error: AuthError::InvalidScope,
                                        state,
                                    }
                                } else if !words_in(
                                    dedup_words(scope_words(sv)),
                                    client.allowed_scopes@,
                                ) {
                                    AuthDecision::RedirectErr {
                                        uri,
                                        error: AuthError::InvalidScope,
                                        state,
                                    }
                                } else {
                                    AuthDecision::Proceed {
                                        client_id: cid,
                                        redirect_uri: uri,
                                        scope_tokens: dedup_words(scope_words(sv)),
                                        state,
                                    }
                                },
                                None => AuthDecision::Proceed {
                                    client_id: cid,
                                    redirect_uri: uri,
                                    scope_tokens: client.allowed_scopes.words(),
                                    state,
                                },
                            }
                        }
                    },
                }
            },
        },
    }
}

/// `?` where the URI has no query yet, `&` where it has one.
pub open spec fn sep_chars(uri: Seq<char>) -> Seq<char> {
    if uri.contains('?') {
        "&"@
    } else {
        "?"@
    }
}

/// The wire name of each redirect-borne error.
pub open spec fn error_name_chars(e: AuthError) -> Seq<char> {
    match e {
        AuthError::UnsupportedResponseType => "unsupported_response_type"@,
        AuthError::InvalidScope => "invalid_scope"@,
        AuthError::AccessDenied => "access_denied"@,
    }
}

/// The `&state=...` suffix, percent-encoded, when a state was supplied.
pub open spec fn state_suffix_chars(state: Option<Seq<char>>) -> Seq<char> {
    match state {
        Some(st) => "&state="@ + pct_encoded(st),
        None => Seq::<char>::empty(),
    }
}

/// The redirect location carrying an error back to the client.
pub open spec fn error_redirect_chars(
    uri: Seq<char>,
    e: AuthError,
    state: Option<Seq<char>>,
) -> Seq<char> {
    uri + sep_chars(uri) + "error="@ + error_name_chars(e) + state_suffix_chars(state)
}

/// The redirect location carrying a fresh authorization code.
pub open spec fn code_redirect_chars(
    uri: Seq<char>,
    code: Seq<char>,
    state: Option<Seq<char>>,
) -> Seq<char> {
    uri + sep_chars(uri) + "code="@ + code + state_suffix_chars(state)
}

/// A fresh grant was recorded on top of `pre`: its code uses `pre`'s next
/// serial with the given random draw, it binds the validated client,
/// redirect URI and scope, it is unconsumed with the standard grant TTL,
/// and nothing else moved.
pub open spec fn grant_recorded(
    pre: crate::grants::GrantStore,
    post: crate::grants::GrantStore,
    client_id: Seq<char>,
    redirect_uri: Seq<char>,
    scope_tokens: Seq<Seq<char>>,
    now: u64,
    rand_bits: int,
) -> bool {
    &&& post.next_serial == pre.next_serial + 1
    &&& post.grants@.len() == pre.grants@.len() + 1
    &&& forall|i: int| 0 <= i < pre.grants@.len() ==> post.grants@[i] == pre.grants@[i]
    &&& post.grants@.last().code@ == crate::text::code_chars(rand_bits, pre.next_serial as int)
    &&& post.grants@.last().client_id@ == client_id
    &&& post.grants@.last().redirect_uri@ == redirect_uri
    &&& post.grants@.last().scope.words() == scope_tokens
    &&& post.grants@.last().issued_at == now
    &&& post.grants@.last().expires_at == now + crate::grants::GRANT_TTL_SECONDS
    &&& !post.grants@.last().consumed
}

/// Whether the string holds a `?`.
pub fn str_contains_qmark(s: &str) -> (r: bool)
    ensures
        r == s@.contains('?'),
{
    let n = s.unicode_len();
    for i in 0..n
        invariant
            n == s@.len(),
            forall|j: int| 0 <= j < i ==> s@[j] != '?',
    {
        if s.get_char(i) == '?' {
            return true;
        }
    }
    proof {
        if s@.contains('?') {
            let j = choose|j: int| 0 <= j < s@.len() && s@[j] == '?';
            assert(s@[j] == '?');
        }
    }
    false
}

/// Builds the redirect location for an error.
pub fn build_error_redirect(uri: &str, error: AuthError, state: &Option<String>) -> (r: String)
    ensures
        r@ == error_redirect_chars(uri@, error, opt_str_view(*state)),
{
    let mut l = uri.to_owned();
    if str_contains_qmark(uri) {
        l.append("&");
    } else {
        l.append("?");
    }
    l.append("error=");
    match error {
        AuthError::UnsupportedResponseType => l.append("unsupported_response_type"),
        AuthError::InvalidScope => l.append("invalid_scope"),
        AuthError::AccessDenied => l.append("access_denied"),
    }
    match state {
        Some(st) => {
            l.append("&state=");
            let enc = crate::encode::pct_encode(st.as_str());
            l.append(enc.as_str());
        },
        None => {},
    }
    l
}

/// Builds the redirect location for a granted code.
pub fn build_code_redirect(uri: &str, code: &str, state: &Option<String>) -> (r: String)
    ensures
        r@ == code_redirect_chars(uri@, code@, opt_str_view(*state)),
{
    let mut l = uri.to_owned();
    if str_contains_qmark(uri) {
        l.append("&");
    } else {
        l.append("?");
    }
    l.append("code=");
    l.append(code);
    match state {
        Some(st) => {
            l.append("&state=");
            let enc = crate::encode::pct_encode(st.as_str());
            l.append(enc.as_str());
        },
        None => {},
    }
    l
}

/// Finishes an authorize request once consent came back: denial redirects
/// with `access_denied` and leaves the store alone; approval records a
/// grant under a fresh code built from the given random draw and redirects
/// with it; only a full store answers an internal error.
pub fn authorize_grant(
    grants: &mut GrantStore,
    cr: ConsentRequest,
    decision: &ConsentDecision,
    now: u64,
    rand_bits: u128,
) -> (resp: GummaAuthResponse)
    requires
        old(grants).wf(),
        cr.scope.wf(),
    ensures
        final(grants).wf(),
        final(grants).next_serial >= old(grants).next_serial,
        match decision {
            ConsentDecision::Denied => resp.status == Status::Redirect && (resp.location
                matches Some(l) && l@ == error_redirect_chars(
                cr.redirect_uri@,
                AuthError::AccessDenied,
                opt_str_view(cr.state),
            )) && *final(grants) == *old(grants) && resp.body is None && resp.www_authenticate
                is None,
            ConsentDecision::Authorized { .. } => if old(grants).can_issue(
                now,
                GRANT_TTL_SECONDS,
            ) {
                &&& resp.status == Status::Redirect
                &&& resp.location matches Some(l) && l@ == code_redirect_chars(
                    cr.redirect_uri@,
                    code_chars(rand_bits as int, old(grants).next_serial as int),
                    opt_str_view(cr.state),
                )
                &&& grant_recorded(
                    *old(grants),
                    *final(grants),
                    cr.client_id@,
                    cr.redirect_uri@,
                    cr.scope.words(),
                    now,
                    rand_bits as int,
                )
                &&& resp.body is None
                &&& resp.www_authenticate is None
            } else {
                resp.status == Status::InternalError && resp.location is None
                    && resp.www_authenticate is None && resp.body is None && *final(grants)
                    == *old(grants)
            },
        },
{
    match decision {
        ConsentDecision::Denied => {
            let mut resp = GummaAuthResponse::new(Status::Redirect);
            let l = build_error_redirect(
                cr.redirect_uri.as_str(),
                AuthError::AccessDenied,
                &cr.state,
            );
            resp.location = Some(l);
            resp
        },
        ConsentDecision::Authorized { owner: _ } => {
            let ConsentRequest { client_id, redirect_uri, scope, state } = cr;
            match grants.issue_grant(
                client_id.as_str(),
                redirect_uri.as_str(),
                scope,
                now,
                GRANT_TTL_SECONDS,
                rand_bits,
            ) {
                Some(code) => {
                    let mut resp = GummaAuthResponse::new(Status::Redirect);
                    let l = build_code_redirect(redirect_uri.as_str(), code.as_str(), &state);
                    resp.location = Some(l);
                    resp
                },
                None => GummaAuthResponse::new(Status::InternalError),
            }
        },
    }
}

/// A scope is a subset of an allowed set exactly when each of its stored
/// words stands in that set.
pub proof fn lemma_scope_subset_words(sc: ScopeSet, allowed: Set<Seq<char>>)
    ensures
        sc@.subset_of(allowed) == words_in(sc.words(), allowed),
{
    if sc@.subset_of(allowed) {
        assert forall|i: int| 0 <= i < sc.words().len() implies allowed.contains(
            #[trigger] sc.words()[i],
        ) by {
            assert(sc@.contains(sc.words()[i]));
        }
    }
    if words_in(sc.words(), allowed) {
        assert forall|t: Seq<char>| sc@.contains(t) implies allowed.contains(t) by {
            let i = choose|i: int| 0 <= i < sc.words().len() && sc.words()[i] == t;
            assert(allowed.contains(sc.words()[i]));
        }
    }
}

/// Validates an authorize request.  The result follows [`auth_decision`]
/// over the registry and the request's query exactly: a bare `400` before
/// the redirect URI is validated, an error redirect after, or the pending
/// consent request when everything checked out.
pub fn authorize_validate(reg: &ClientRegistry, req: &GummaAuthRequest) -> (r: Result<
    ConsentRequest,
    GummaAuthResponse,
>)
    requires
        reg.wf(),
    ensures
        match auth_decision(*reg, req.spec_query()) {
            AuthDecision::Refused => r matches Err(resp) && resp.status == Status::BadRequest
                && resp.location is None && resp.www_authenticate is None && resp.body is None,
            AuthDecision::RedirectErr { uri, error, state } => r matches Err(resp) && resp.status
                == Status::Redirect && (resp.location matches Some(l) && l@ == error_redirect_chars(
                uri,
                error,
                state,
            )) && resp.www_authenticate is None && resp.body is None,
            AuthDecision::Proceed { client_id, redirect_uri, scope_tokens, state } => r matches Ok(
                cr,
            ) && cr.client_id@ == client_id && cr.redirect_uri@ == redirect_uri && cr.scope.wf()
                && cr.scope.words() == scope_tokens && opt_str_view(cr.state) == state,
        },
{
    let query = match req.query_params() {
        Some(q) => q,
        None => {
            return Err(GummaAuthResponse::new(Status::BadRequest));
        },
    };
    let client_id = match query.get("client_id") {
        Some(v) => v,
        None => {
            return Err(GummaAuthResponse::new(Status::BadRequest));
        },
    };
    let client = match reg.lookup(client_id.as_str()) {
        Some(c) => c,
        None => {
            return Err(GummaAuthResponse::new(Status::BadRequest));
        },
    };
    let redirect_uri = match query.get("redirect_uri") {
        Some(v) => v,
        None => {
            return Err(GummaAuthResponse::new(Status::BadRequest));
        },
    };
    if !reg.validate_redirect_uri(client_id.as_str(), redirect_uri.as_str()) {
        return Err(GummaAuthResponse::new(Status::BadRequest));
    }
    let state: Option<String> = match query.get("state") {
        Some(v) => Some(v.clone()),
        None => None,
    };
    let response_type_ok = match query.get("response_type") {
        Some(v) => crate::text::str_eq(v.as_str(), "code"),
        None => false,
    };
    if !response_type_ok {
        let mut resp = GummaAuthResponse::new(Status::Redirect);
        let l = build_error_redirect(
            redirect_uri.as_str(),
            AuthError::UnsupportedResponseType,
            &state,
        );
        resp.location = Some(l);
        return Err(resp);
    }
    let effective: ScopeSet = match query.get("scope") {
        Some(sv) => {
            let parsed = match crate::scope::parse_scope(sv.as_str()) {
                Some(p) => p,
                None => {
                    let mut resp = GummaAuthResponse::new(Status::Redirect);
                    let l = build_error_redirect(
                        redirect_uri.as_str(),
                        AuthError::InvalidScope,
                        &state,
                    );
                    resp.location = Some(l);
                    return Err(resp);
                },
            };
            proof {
                lemma_scope_subset_words(parsed, client.allowed_scopes@);
            }
            match reg.validate_scope(client_id.as_str(), &parsed) {
                Some(eff) => eff,
                None => {
                    let mut resp = GummaAuthResponse::new(Status::Redirect);
                    let l = build_error_redirect(
                        redirect_uri.as_str(),
                        AuthError::InvalidScope,
                        &state,
                    );
                    resp.location = Some(l);
                    return Err(resp);
                },
            }
        },
        None => client.allowed_scopes.duplicate(),
    };
    Ok(
        ConsentRequest {
            client_id: client_id.clone(),
            redirect_uri: redirect_uri.clone(),
            scope: effective,
            state,
        },
    )
}

} // verus!
