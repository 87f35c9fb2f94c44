//! The token flow: from an inbound `token` request to a JSON answer.
//!
//! The flow authenticates the client (public clients by identity,
//! confidential ones by the `client_secret` form field or by an HTTP Basic
//! `Authorization` header, either compared in constant time against the
//! stored credential), redeems an authorization code in one atomic step or
//! looks a refresh token up, and answers `200` with the token JSON body.  Every failure is a JSON error body, never a redirect,
//! and never says more than the standard error code.  [`token_decision`]
//! is the whole decision chain as one specification function, and
//! [`token_exchange`] is proved to follow it exactly.

use crate::grants::{redeemable, Grant, GrantStore};
use crate::params::{spec_get, GummaAuthRequest, Params};
use crate::registry::{Client, ClientKind, ClientRegistry};
use crate::response::{GummaAuthResponse, ResponseBody, Status};
use crate::scope::join_words;
use crate::text::{code_chars, dec_seq};
use crate::tokens::{TokenIssuer, TOKEN_TTL_SECONDS};
use vstd::prelude::*;
use vstd::utf8::encode_utf8;

verus! {

/// The verdict of the validation chain over one token request.
pub enum TokenDecision {
    /// `400` with `invalid_request`: a required parameter is missing.
    Refused,
    /// `400` with `unsupported_grant_type`.
    UnsupportedGrantType,
    /// `401` with `invalid_client` and a challenge header.
    Unauthorized,
    /// `400` with `invalid_grant`: unknown, expired, consumed or misbound
    /// code or refresh token; the body never says which.
    InvalidGrant,
    /// Redeem the grant carrying `code` and issue a token.
    RedeemCode { code: Seq<char> },
    /// Issue a token over the scope of the token carrying `refresh`.
    Refresh { refresh: Seq<char> },
}

/// The `Authorization` header value that HTTP Basic authentication gives
/// a client with this id and credential: `Basic base64(id ":" credential)`.
pub open spec fn basic_auth_chars(id: Seq<char>, credential: Seq<u8>) -> Seq<char> {
    "Basic "@ + crate::base64::b64_chars(encode_utf8(id) + seq![58u8] + credential)
}

/// Whether the client named `cid` authenticates on this request:
/// public clients by identity alone, confidential ones by a matching
/// `client_secret` form field or by the HTTP Basic header carrying their
/// id and credential.
pub open spec fn client_auth_ok(
    reg: ClientRegistry,
    b: Seq<(Seq<char>, Seq<char>)>,
    auth: Option<Seq<char>>,
    cid: Seq<char>,
) -> bool
    recommends
        reg.has_client(cid),
{
    match reg.client_named(cid).kind {
        ClientKind::Public => true,
        ClientKind::Confidential { credential } => {
            ||| (spec_get(b, "client_secret"@) matches Some(s) && encode_utf8(s) == credential@)
            ||| (auth matches Some(h) && h == basic_auth_chars(cid, credential@))
        },
    }
}

/// Renders the `Authorization` value this client would present under HTTP
/// Basic authentication.
fn render_basic_header(id: &str, credential: &[u8]) -> (r: String)
    ensures
        r@ == basic_auth_chars(id@, credential@),
{
    let mut payload = vstd::slice::slice_to_vec(id.as_bytes());
    payload.push(58);
    payload.extend_from_slice(credential);
    proof {
        assert(payload@ =~= encode_utf8(id@) + seq![58u8] + credential@);
    }
    let encoded = crate::base64::base64_encode(payload.as_slice());
    let mut out = "Basic ".to_owned();
    out.append(encoded.as_str());
    out
}

/// Decides the client-authentication step of [`client_auth_ok`] for one
/// concrete client: the form field first, the Basic header otherwise, both
/// compared in constant time.
fn client_authenticates(client: &Client, body: &Params, auth: Option<&str>) -> (r: bool)
    ensures
        r == (match client.kind {
            ClientKind::Public => true,
            ClientKind::Confidential { credential } => {
                ||| (spec_get(body@, "client_secret"@) matches Some(s) && encode_utf8(s)
                    == credential@)
                ||| (auth matches Some(h) && h@ == basic_auth_chars(client.id@, credential@))
            },
        }),
{
    match &client.kind {
        ClientKind::Public => true,
        ClientKind::Confidential { credential } => {
            let body_ok = match body.get("client_secret") {
                Some(s) => crate::registry::bytes_ct_eq(
                    s.as_str().as_bytes(),
                    credential.as_slice(),
                ),
                None => false,
            };
            if body_ok {
                true
            } else {
                match auth {
                    Some(h) => {
                        let expected = render_basic_header(client.id.as_str(), credential.as_slice());
                        crate::registry::str_ct_eq(h, expected.as_str())
                    },
                    None => false,
                }
            }
        },
    }
}

/// The decision chain for an `authorization_code` exchange.
pub open spec fn code_decision(
    reg: ClientRegistry,
    grants: GrantStore,
    b: Seq<(Seq<char>, Seq<char>)>,
    auth: Option<Seq<char>>,
    now: u64,
) -> TokenDecision {
    match spec_get(b, "code"@) {
        None => TokenDecision::Refused,
        Some(code) => if !grants.has_code(code) {
            TokenDecision::InvalidGrant
        } else {
            let g = grants.grant_at(code);
            let mismatch = match spec_get(b, "client_id"@) {
                Some(c) => c != g.client_id@,
                None => false,
            };
            if mismatch {
                TokenDecision::InvalidGrant
            } else if !reg.has_client(g.client_id@) {
                TokenDecision::InvalidGrant
            } else if !client_auth_ok(reg, b, auth, g.client_id@) {
                TokenDecision::Unauthorized
            } else {
                match spec_get(b, "redirect_uri"@) {
                    None => TokenDecision::InvalidGrant,
                    Some(uri) => if !redeemable(g, g.client_id@, uri, now) {
                        TokenDecision::InvalidGrant
                    } else {
                        TokenDecision::RedeemCode { code }
                    },
                }
            }
        },
    }
}

/// The decision chain for a `refresh_token` exchange.
pub open spec fn refresh_decision(
    reg: ClientRegistry,
    issuer: TokenIssuer,
    b: Seq<(Seq<char>, Seq<char>)>,
    auth: Option<Seq<char>>,
) -> TokenDecision {
    match spec_get(b, "refresh_token"@) {
        None => TokenDecision::Refused,
        Some(rt) => if !issuer.has_refresh(rt) {
            TokenDecision::InvalidGrant
        } else {
            let t = issuer.token_by_refresh(rt);
            let mismatch = match spec_get(b, "client_id"@) {
                Some(c) => c != t.client_id@,
                None => false,
            };
            if mismatch {
                TokenDecision::InvalidGrant
            } else if !reg.has_client(t.client_id@) {
                TokenDecision::InvalidGrant
            } else if !client_auth_ok(reg, b, auth, t.client_id@) {
                TokenDecision::Unauthorized
            } else {
                TokenDecision::Refresh { refresh: rt }
            }
        },
    }
}

/// The whole validation chain of the token flow.
pub open spec fn token_decision(
    reg: ClientRegistry,
    grants: GrantStore,
    issuer: TokenIssuer,
    body: Option<Seq<(Seq<char>, Seq<char>)>>,
    auth: Option<Seq<char>>,
    now: u64,
) -> TokenDecision {
    match body {
        None => TokenDecision::Refused,
        Some(b) => match spec_get(b, "grant_type"@) {
            None => TokenDecision::Refused,
            Some(gt) => if gt == "authorization_code"@ {
                code_decision(reg, grants, b, auth, now)
            } else if gt == "refresh_token"@ {
                refresh_decision(reg, issuer, b, auth)
            } else {
                TokenDecision::UnsupportedGrantType
            },
        },
    }
}

/// The success body: the token JSON document, field by field.
pub open spec fn token_json_chars(
    access: Seq<char>,
    refresh: Seq<char>,
    expires: int,
    scope: Seq<char>,
) -> Seq<char> {
    "{\"access_token\":\""@ + access + "\",\"token_type\":\"bearer\",\"expires_in\":"@ + dec_seq(
        expires,
    ) + ",\"refresh_token\":\""@ + refresh + "\",\"scope\":\""@ + scope + "\"}"@
}

/// A fresh token pair was recorded on top of `pre`: the access string uses
/// `pre`'s next serial, the refresh string the one after, and nothing else
/// moved.
pub open spec fn token_recorded(
    pre: TokenIssuer,
    post: TokenIssuer,
    client_id: Seq<char>,
    scope_tokens: Seq<Seq<char>>,
    now: u64,
    rand_access: int,
    rand_refresh: int,
) -> bool {
    &&& post.next_serial == pre.next_serial + 2
    &&& post.tokens@.len() == pre.tokens@.len() + 1
    &&& forall|i: int| 0 <= i < pre.tokens@.len() ==> post.tokens@[i] == pre.tokens@[i]
    &&& post.tokens@.last().access_token@ == code_chars(rand_access, pre.next_serial as int)
    &&& post.tokens@.last().refresh_token matches Some(rf) && rf@ == code_chars(
        rand_refresh,
        pre.next_serial + 1 as int,
    )
    &&& post.tokens@.last().client_id@ == client_id
    &&& post.tokens@.last().scope.words() == scope_tokens
    &&& post.tokens@.last().issued_at == now
    &&& post.tokens@.last().expires_at == now + TOKEN_TTL_SECONDS
}

/// The whole post-state relation of one token request: how the response
/// and the two stores after the call follow [`token_decision`] over the
/// stores before it, for one clock reading and one pair of random draws.
pub open spec fn token_outcome(
    reg: ClientRegistry,
    g_pre: GrantStore,
    i_pre: TokenIssuer,
    g_post: GrantStore,
    i_post: TokenIssuer,
    body: Option<Seq<(Seq<char>, Seq<char>)>>,
    auth: Option<Seq<char>>,
    now: u64,
    rand_access: int,
    rand_refresh: int,
    resp: GummaAuthResponse,
) -> bool {
    match token_decision(reg, g_pre, i_pre, body, auth, now) {
        TokenDecision::Refused => resp.status == Status::BadRequest && (resp.body matches Some(b)
            && b matches ResponseBody::Json(t) && t@ == "{\"error\":\"invalid_request\"}"@)
            && resp.location is None && resp.www_authenticate is None && g_post == g_pre && i_post
            == i_pre,
        TokenDecision::UnsupportedGrantType => resp.status == Status::BadRequest && (resp.body
            matches Some(b) && b matches ResponseBody::Json(t) && t@
            == "{\"error\":\"unsupported_grant_type\"}"@) && resp.location is None
            && resp.www_authenticate is None && g_post == g_pre && i_post == i_pre,
        TokenDecision::Unauthorized => resp.status == Status::Unauthorized && (resp.body
            matches Some(b) && b matches ResponseBody::Json(t) && t@
            == "{\"error\":\"invalid_client\"}"@) && (resp.www_authenticate matches Some(h) && h@
            == "Basic"@) && resp.location is None && g_post == g_pre && i_post == i_pre,
        TokenDecision::InvalidGrant => resp.status == Status::BadRequest && (resp.body matches Some(
            b,
        ) && b matches ResponseBody::Json(t) && t@ == "{\"error\":\"invalid_grant\"}"@)
            && resp.location is None && resp.www_authenticate is None && g_post == g_pre && i_post
            == i_pre,
        TokenDecision::RedeemCode { code } => {
            let g = g_pre.grant_at(code);
            let i = g_pre.grant_index(code);
            &&& g_post.grants@ == g_pre.grants@.update(
                i,
                Grant { consumed: true, ..g_pre.grants@[i] },
            )
            &&& if i_pre.can_issue(now, TOKEN_TTL_SECONDS) {
                &&& resp.status == Status::Okay
                &&& resp.location is None
                &&& resp.www_authenticate is None
                &&& resp.body matches Some(b) && b matches ResponseBody::Json(t) && t@
                    == token_json_chars(
                    code_chars(rand_access, i_pre.next_serial as int),
                    code_chars(rand_refresh, i_pre.next_serial + 1 as int),
                    TOKEN_TTL_SECONDS as int,
                    join_words(g.scope.words()),
                )
                &&& token_recorded(
                    i_pre,
                    i_post,
                    g.client_id@,
                    g.scope.words(),
                    now,
                    rand_access,
                    rand_refresh,
                )
            } else {
                resp.status == Status::InternalError && resp.location is None
                    && resp.www_authenticate is None && resp.body is None && i_post == i_pre
            }
        },
        TokenDecision::Refresh { refresh } => {
            let t = i_pre.token_by_refresh(refresh);
            &&& g_post == g_pre
            &&& if i_pre.can_issue(now, TOKEN_TTL_SECONDS) {
                &&& resp.status == Status::Okay
                &&& resp.location is None
                &&& resp.www_authenticate is None
                &&& resp.body matches Some(b) && b matches ResponseBody::Json(bt) && bt@
                    == token_json_chars(
                    code_chars(rand_access, i_pre.next_serial as int),
                    code_chars(rand_refresh, i_pre.next_serial + 1 as int),
                    TOKEN_TTL_SECONDS as int,
                    join_words(t.scope.words()),
                )
                &&& token_recorded(
                    i_pre,
                    i_post,
                    t.client_id@,
                    t.scope.words(),
                    now,
                    rand_access,
                    rand_refresh,
                )
            } else {
                resp.status == Status::InternalError && resp.location is None
                    && resp.www_authenticate is None && resp.body is None && i_post == i_pre
            }
        },
    }
}

/// A grant code, once consumed, is refused on every later token request
/// that presents it, whatever client, redirect URI or clock reading the
/// request brings: the stores do not move and no token is issued.  The
/// answer is `400` `invalid_grant` — or `401` `invalid_client` when the
/// presenting client fails authentication, which spec policy checks first;
/// it is never a success.
pub proof fn lemma_replayed_code_refused(
    reg: ClientRegistry,
    grants: GrantStore,
    issuer: TokenIssuer,
    g_post: GrantStore,
    i_post: TokenIssuer,
    b: Seq<(Seq<char>, Seq<char>)>,
    auth: Option<Seq<char>>,
    now: u64,
    code: Seq<char>,
    rand_access: int,
    rand_refresh: int,
    resp: GummaAuthResponse,
)
    requires
        grants.has_code(code),
        grants.grant_at(code).consumed,
        spec_get(b, "grant_type"@) == Some("authorization_code"@),
        spec_get(b, "code"@) == Some(code),
        token_outcome(
            reg,
            grants,
            issuer,
            g_post,
            i_post,
            Some(b),
            auth,
            now,
            rand_access,
            rand_refresh,
            resp,
        ),
    ensures
        g_post == grants,
        i_post == issuer,
        ({
            ||| (resp.status == Status::BadRequest && (resp.body matches Some(body) && body
                matches ResponseBody::Json(t) && t@ == "{\"error\":\"invalid_grant\"}"@))
            ||| resp.status == Status::Unauthorized
        }),
{
    let d = token_decision(reg, grants, issuer, Some(b), auth, now);
    assert(d == TokenDecision::InvalidGrant || d == TokenDecision::Unauthorized);
}

/// A grant past its expiry is refused on every token request that presents
/// its code, consumed or not, under the same carve-out for a client that
/// fails authentication first: the stores do not move and no token is
/// issued.
pub proof fn lemma_expired_code_refused(
    reg: ClientRegistry,
    grants: GrantStore,
    issuer: TokenIssuer,
    g_post: GrantStore,
    i_post: TokenIssuer,
    b: Seq<(Seq<char>, Seq<char>)>,
    auth: Option<Seq<char>>,
    now: u64,
    code: Seq<char>,
    rand_access: int,
    rand_refresh: int,
    resp: GummaAuthResponse,
)
    requires
        grants.has_code(code),
        now > grants.grant_at(code).expires_at,
        spec_get(b, "grant_type"@) == Some("authorization_code"@),
        spec_get(b, "code"@) == Some(code),
        token_outcome(
            reg,
            grants,
            issuer,
            g_post,
            i_post,
            Some(b),
            auth,
            now,
            rand_access,
            rand_refresh,
            resp,
        ),
    ensures
        g_post == grants,
        i_post == issuer,
        ({
            ||| (resp.status == Status::BadRequest && (resp.body matches Some(body) && body
                matches ResponseBody::Json(t) && t@ == "{\"error\":\"invalid_grant\"}"@))
            ||| resp.status == Status::Unauthorized
        }),
{
    let d = token_decision(reg, grants, issuer, Some(b), auth, now);
    assert(d == TokenDecision::InvalidGrant || d == TokenDecision::Unauthorized);
}

/// Builds the token JSON body.
pub fn build_token_json(access: &str, refresh: &str, expires_in: u64, scope_param: &str) -> (r:
    String)
    ensures
        r@ == token_json_chars(access@, refresh@, expires_in as int, scope_param@),
{
    let mut s = String::new();
    s.append("{\"access_token\":\"");
    s.append(access);
    s.append("\",\"token_type\":\"bearer\",\"expires_in\":");
    let d = crate::text::dec_u64(expires_in);
    s.append(d.as_str());
    s.append(",\"refresh_token\":\"");
    s.append(refresh);
    s.append("\",\"scope\":\"");
    s.append(scope_param);
    s.append("\"}");
    s
}

/// A `400` with the given JSON error body.
fn json_error_400(body: &str) -> (r: GummaAuthResponse)
    ensures
        r.status == Status::BadRequest,
        r.location is None,
        r.www_authenticate is None,
        r.body matches Some(b) && b matches ResponseBody::Json(t) && t@ == body@,
{
    let mut r = GummaAuthResponse::new(Status::BadRequest);
    r.body_json(body);
    r
}

/// A `401` with the `Basic` challenge and the `invalid_client` body.
fn json_unauthorized() -> (r: GummaAuthResponse)
    ensures
        r.status == Status::Unauthorized,
        r.location is None,
        r.www_authenticate matches Some(h) && h@ == "Basic"@,
        r.body matches Some(b) && b matches ResponseBody::Json(t) && t@
            == "{\"error\":\"invalid_client\"}"@,
{
    let mut r = GummaAuthResponse::new(Status::Unauthorized);
    r.unauthorized("Basic");
    r.body_json("{\"error\":\"invalid_client\"}");
    r
}

/// Runs one token request over the three stores.  The answer and the store
/// changes follow [`token_decision`] exactly; the caller supplies the
/// clock reading and the two random draws for a possible fresh token pair.
pub fn token_exchange(
    reg: &ClientRegistry,
    grants: &mut GrantStore,
    issuer: &mut TokenIssuer,
    req: &GummaAuthRequest,
    now: u64,
    rand_access: u128,
    rand_refresh: u128,
) -> (resp: GummaAuthResponse)
    requires
        reg.wf(),
        old(grants).wf(),
        old(issuer).wf(),
    ensures
        final(grants).wf(),
        final(issuer).wf(),
        final(grants).next_serial == old(grants).next_serial,
        token_outcome(
            *reg,
            *old(grants),
            *old(issuer),
            *final(grants),
            *final(issuer),
            req.spec_body(),
            req.spec_auth(),
            now,
            rand_access as int,
            rand_refresh as int,
            resp,
        ),
{
    let body = match req.form_body() {
        Some(b) => b,
        None => {
            return json_error_400("{\"error\":\"invalid_request\"}");
        },
    };
    let auth = req.auth_header();
    let grant_type = match body.get("grant_type") {
        Some(v) => v,
        None => {
            return json_error_400("{\"error\":\"invalid_request\"}");
        },
    };
    if crate::text::str_eq(grant_type.as_str(), "authorization_code") {
        let code = match body.get("code") {
            Some(v) => v,
            None => {
                return json_error_400("{\"error\":\"invalid_request\"}");
            },
        };
        let (g_client, g_uri) = match grants.find_by_code(code.as_str()) {
            Some(g) => (g.client_id.clone(), g.redirect_uri.clone()),
            None => {
                return json_error_400("{\"error\":\"invalid_grant\"}");
            },
        };
        match body.get("client_id") {
            Some(c) => {
                if !crate::text::str_eq(c.as_str(), g_client.as_str()) {
                    return json_error_400("{\"error\":\"invalid_grant\"}");
                }
            },
            None => {},
        }
        let client = match reg.lookup(g_client.as_str()) {
            Some(c) => c,
            None => {
                return json_error_400("{\"error\":\"invalid_grant\"}");
            },
        };
        proof {
            assert(client.id@ == g_client@);
        }
        if !client_authenticates(client, body, auth) {
            return json_unauthorized();
        }
        let uri = match body.get("redirect_uri") {
            Some(v) => v,
            None => {
                return json_error_400("{\"error\":\"invalid_grant\"}");
            },
        };
        let sc = match grants.redeem(code.as_str(), g_client.as_str(), uri.as_str(), now) {
            Some(sc) => sc,
            None => {
                return json_error_400("{\"error\":\"invalid_grant\"}");
            },
        };
        let scope_param = sc.as_param();
        match issuer.issue(
            g_client.as_str(),
            sc,
            now,
            TOKEN_TTL_SECONDS,
            rand_access,
            rand_refresh,
        ) {
            Some((access, refresh)) => {
                let json = build_token_json(
                    access.as_str(),
                    refresh.as_str(),
                    TOKEN_TTL_SECONDS,
                    scope_param.as_str(),
                );
                let mut resp = GummaAuthResponse::new(Status::Okay);
                resp.body_json(json.as_str());
                resp
            },
            None => GummaAuthResponse::new(Status::InternalError),
        }
    } else if crate::text::str_eq(grant_type.as_str(), "refresh_token") {
        let rt = match body.get("refresh_token") {
            Some(v) => v,
            None => {
                return json_error_400("{\"error\":\"invalid_request\"}");
            },
        };
        let (t_client, t_scope) = match issuer.find_refresh(rt.as_str()) {
            Some(t) => (t.client_id.clone(), t.scope.duplicate()),
            None => {
                return json_error_400("{\"error\":\"invalid_grant\"}");
            },
        };
        match body.get("client_id") {
            Some(c) => {
                if !crate::text::str_eq(c.as_str(), t_client.as_str()) {
                    return json_error_400("{\"error\":\"invalid_grant\"}");
                }
            },
            None => {},
        }
        let client = match reg.lookup(t_client.as_str()) {
            Some(c) => c,
            None => {
                return json_error_400("{\"error\":\"invalid_grant\"}");
            },
        };
        proof {
            assert(client.id@ == t_client@);
        }
        if !client_authenticates(client, body, auth) {
            return json_unauthorized();
        }
        let scope_param = t_scope.as_param();
        match issuer.issue(
            t_client.as_str(),
            t_scope,
            now,
            TOKEN_TTL_SECONDS,
            rand_access,
            rand_refresh,
        ) {
            Some((access, refresh)) => {
                let json = build_token_json(
                    access.as_str(),
                    refresh.as_str(),
                    TOKEN_TTL_SECONDS,
                    scope_param.as_str(),
                );
                let mut resp = GummaAuthResponse::new(Status::Okay);
                resp.body_json(json.as_str());
                resp
            },
            None => GummaAuthResponse::new(Status::InternalError),
        }
    } else {
        json_error_400("{\"error\":\"unsupported_grant_type\"}")
    }
}

} // verus!
