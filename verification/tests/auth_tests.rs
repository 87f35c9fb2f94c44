use gumma_auth::consent::{ConsentDecision, ConsentRequest, ConsentSolicitor, DenyAllSolicitor,
    GummaAuthSolicitor};
use gumma_auth::endpoint::{endpoint, GummaAuthEndpoint};
use gumma_auth::grants::GrantStore;
use gumma_auth::params::{GummaAuthRequest, Params};
use gumma_auth::registry::{Client, ClientRegistry};
use gumma_auth::response::{response_status_code, GummaAuthResponse, ResponseBody, Status};
use gumma_auth::scope::ScopeSet;
use gumma_auth::tokens::TokenIssuer;

const REDIRECT_URI: &str = "http://localhost:8080/redirect";

fn scope_of(tokens: &[&str]) -> ScopeSet {
    ScopeSet { tokens: tokens.iter().map(|t| t.to_string()).collect() }
}

/// The demo wiring: the confidential client `plupp` (credential `plupp`)
/// and the public client `plapp`, both on the same redirect URI and the
/// scope `default`.
fn demo_endpoint() -> GummaAuthEndpoint {
    let mut registry = ClientRegistry::new();
    registry
        .register(Client::confidential(
            "plupp".to_string(),
            REDIRECT_URI.to_string(),
            scope_of(&["default"]),
            b"plupp".to_vec(),
        ))
        .unwrap();
    registry
        .register(Client::public(
            "plapp".to_string(),
            REDIRECT_URI.to_string(),
            scope_of(&["default"]),
        ))
        .unwrap();
    GummaAuthEndpoint::new(registry, GrantStore::new(), TokenIssuer::new())
}

fn query_request(pairs: &[(&str, &str)]) -> GummaAuthRequest {
    let mut q = Params::new();
    for (k, v) in pairs {
        q.push(k.to_string(), v.to_string());
    }
    GummaAuthRequest::new(Some(q), None, None)
}

fn form_request(pairs: &[(&str, &str)]) -> GummaAuthRequest {
    let mut b = Params::new();
    for (k, v) in pairs {
        b.push(k.to_string(), v.to_string());
    }
    GummaAuthRequest::new(None, Some(b), None)
}

fn form_request_with_auth(pairs: &[(&str, &str)], auth: &str) -> GummaAuthRequest {
    let mut b = Params::new();
    for (k, v) in pairs {
        b.push(k.to_string(), v.to_string());
    }
    GummaAuthRequest::new(None, Some(b), Some(auth.to_string()))
}

fn param_of(query: &str, name: &str) -> Option<String> {
    let tail = query.splitn(2, '?').nth(1)?;
    for pair in tail.split('&') {
        let mut it = pair.splitn(2, '=');
        if it.next() == Some(name) {
            return Some(it.next().unwrap_or("").to_string());
        }
    }
    None
}

fn json_body(resp: &GummaAuthResponse) -> &str {
    match resp.body.as_ref().expect("body expected") {
        ResponseBody::Json(t) => t.as_str(),
        ResponseBody::Text(t) => panic!("expected JSON body, got text: {}", t),
    }
}

#[test]
fn no_headers() {
    let req = GummaAuthRequest::new(None, None, None);
    assert!(req.auth_header().is_none());
    assert!(req.query_params().is_none());
    assert!(req.form_body().is_none());
}

#[test]
fn authorize_with_no_client_id_should_fail() {
    let mut ep = demo_endpoint();
    let req = query_request(&[
        ("response_type", "code"),
        ("redirect_uri", REDIRECT_URI),
        ("scope", "default"),
    ]);
    let resp = ep.authorize(&req, 1000, &mut GummaAuthSolicitor);
    assert_eq!(response_status_code(resp.status), 400);
}

#[test]
fn authorize_with_no_args_should_fail() {
    let mut ep = demo_endpoint();
    let req = query_request(&[]);
    let resp = ep.authorize(&req, 1000, &mut GummaAuthSolicitor);
    assert_eq!(response_status_code(resp.status), 400);
}

#[test]
fn authorize_ok() {
    let mut ep = demo_endpoint();
    let req = query_request(&[
        ("response_type", "code"),
        ("client_id", "plupp"),
        ("redirect_uri", REDIRECT_URI),
        ("scope", "default"),
    ]);
    let resp = ep.authorize(&req, 1000, &mut GummaAuthSolicitor);
    assert_eq!(resp.status, Status::Redirect);
    let location = resp.location.expect("Location expected");
    assert!(param_of(&location, "code").is_some());
}

#[test]
fn token_with_no_args_should_fail() {
    let mut ep = demo_endpoint();
    let req = form_request(&[]);
    let resp = ep.token(&req, 1000);
    assert_eq!(response_status_code(resp.status), 400);
}

#[test]
fn token_ok() {
    let mut ep = demo_endpoint();
    let auth_req = query_request(&[
        ("response_type", "code"),
        ("client_id", "plupp"),
        ("redirect_uri", REDIRECT_URI),
        ("scope", "default"),
    ]);
    let resp = ep.authorize(&auth_req, 1000, &mut GummaAuthSolicitor);
    let location = resp.location.expect("Location expected");
    let code = param_of(&location, "code").expect("code expected");

    let basic = format!("Basic {}", gumma_auth::base64::base64_encode(b"plupp:plupp"));
    let token_req = form_request_with_auth(
        &[
            ("grant_type", "authorization_code"),
            ("code", &code),
            ("redirect_uri", REDIRECT_URI),
        ],
        &basic,
    );
    let resp = ep.token(&token_req, 1001);
    assert_eq!(response_status_code(resp.status), 200);
}

#[test]
fn token_ok_with_body_credentials() {
    let mut ep = demo_endpoint();
    let auth_req = query_request(&[
        ("response_type", "code"),
        ("client_id", "plupp"),
        ("redirect_uri", REDIRECT_URI),
        ("scope", "default"),
    ]);
    let resp = ep.authorize(&auth_req, 1000, &mut GummaAuthSolicitor);
    let location = resp.location.expect("Location expected");
    let code = param_of(&location, "code").expect("code expected");

    let token_req = form_request(&[
        ("grant_type", "authorization_code"),
        ("code", &code),
        ("redirect_uri", REDIRECT_URI),
        ("client_id", "plupp"),
        ("client_secret", "plupp"),
    ]);
    let resp = ep.token(&token_req, 1001);
    assert_eq!(response_status_code(resp.status), 200);
}

#[test]
fn wrong_basic_header_is_unauthorized() {
    let mut ep = demo_endpoint();
    let auth_req = query_request(&[
        ("response_type", "code"),
        ("client_id", "plupp"),
        ("redirect_uri", REDIRECT_URI),
    ]);
    let resp = ep.authorize(&auth_req, 50, &mut GummaAuthSolicitor);
    let location = resp.location.expect("Location expected");
    let code = param_of(&location, "code").expect("code expected");

    let bad = format!("Basic {}", gumma_auth::base64::base64_encode(b"plupp:wrong"));
    let req = form_request_with_auth(
        &[
            ("grant_type", "authorization_code"),
            ("code", &code),
            ("redirect_uri", REDIRECT_URI),
        ],
        &bad,
    );
    let resp = ep.token(&req, 51);
    assert_eq!(response_status_code(resp.status), 401);
    assert_eq!(resp.www_authenticate.as_deref(), Some("Basic"));

    let garbled = form_request_with_auth(
        &[
            ("grant_type", "authorization_code"),
            ("code", &code),
            ("redirect_uri", REDIRECT_URI),
        ],
        "Bearer something-else",
    );
    let resp = ep.token(&garbled, 52);
    assert_eq!(response_status_code(resp.status), 401);
}

#[test]
fn refresh_accepts_basic_header() {
    let mut ep = demo_endpoint();
    let auth_req = query_request(&[
        ("response_type", "code"),
        ("client_id", "plupp"),
        ("redirect_uri", REDIRECT_URI),
    ]);
    let resp = ep.authorize(&auth_req, 50, &mut GummaAuthSolicitor);
    let location = resp.location.expect("Location expected");
    let code = param_of(&location, "code").expect("code expected");
    let basic = format!("Basic {}", gumma_auth::base64::base64_encode(b"plupp:plupp"));
    let req = form_request_with_auth(
        &[
            ("grant_type", "authorization_code"),
            ("code", &code),
            ("redirect_uri", REDIRECT_URI),
        ],
        &basic,
    );
    let resp = ep.token(&req, 51);
    assert_eq!(response_status_code(resp.status), 200);
    let body = json_body(&resp).to_string();
    let refresh = body
        .split("\"refresh_token\":\"")
        .nth(1)
        .and_then(|s| s.split('"').next())
        .expect("refresh expected")
        .to_string();

    let req =
        form_request_with_auth(&[("grant_type", "refresh_token"), ("refresh_token", &refresh)],
            &basic);
    let resp = ep.token(&req, 60);
    assert_eq!(response_status_code(resp.status), 200);

    let req = form_request(&[("grant_type", "refresh_token"), ("refresh_token", &refresh)]);
    let resp = ep.token(&req, 61);
    assert_eq!(response_status_code(resp.status), 401);
}

#[test]
fn authorize_scenario_demo_client() {
    let mut ep = GummaAuthEndpoint::new(ClientRegistry::new(), GrantStore::new(),
        TokenIssuer::new());
    ep.registry
        .register(Client::public(
            "demo".to_string(),
            "https://app.example/cb".to_string(),
            scope_of(&["read"]),
        ))
        .unwrap();
    let req = query_request(&[
        ("response_type", "code"),
        ("client_id", "demo"),
        ("redirect_uri", "https://app.example/cb"),
        ("scope", "read"),
    ]);
    let resp = ep.authorize(&req, 50, &mut GummaAuthSolicitor);
    assert_eq!(response_status_code(resp.status), 302);
    let location = resp.location.expect("Location expected");
    assert!(location.starts_with("https://app.example/cb?code="));
    let code = param_of(&location, "code").expect("code expected");
    assert_eq!(code.len(), 48);
}

#[test]
fn authorize_scenario_wrong_redirect_is_bare_400() {
    let mut ep = GummaAuthEndpoint::new(ClientRegistry::new(), GrantStore::new(),
        TokenIssuer::new());
    ep.registry
        .register(Client::public(
            "demo".to_string(),
            "https://app.example/cb".to_string(),
            scope_of(&["read"]),
        ))
        .unwrap();
    let req = query_request(&[
        ("response_type", "code"),
        ("client_id", "demo"),
        ("redirect_uri", "https://evil.example/cb"),
    ]);
    let resp = ep.authorize(&req, 50, &mut GummaAuthSolicitor);
    assert_eq!(response_status_code(resp.status), 400);
    assert!(resp.location.is_none());
}

#[test]
fn token_scenario_exchange_then_replay() {
    let mut ep = GummaAuthEndpoint::new(ClientRegistry::new(), GrantStore::new(),
        TokenIssuer::new());
    ep.registry
        .register(Client::public(
            "demo".to_string(),
            "https://app.example/cb".to_string(),
            scope_of(&["read"]),
        ))
        .unwrap();
    let auth_req = query_request(&[
        ("response_type", "code"),
        ("client_id", "demo"),
        ("redirect_uri", "https://app.example/cb"),
        ("scope", "read"),
    ]);
    let resp = ep.authorize(&auth_req, 50, &mut GummaAuthSolicitor);
    let location = resp.location.expect("Location expected");
    let code = param_of(&location, "code").expect("code expected");

    let token_req = form_request(&[
        ("grant_type", "authorization_code"),
        ("code", &code),
        ("redirect_uri", "https://app.example/cb"),
    ]);
    let resp = ep.token(&token_req, 60);
    assert_eq!(response_status_code(resp.status), 200);
    let body = json_body(&resp).to_string();
    assert!(body.contains("\"access_token\":\""));
    assert!(body.contains("\"token_type\":\"bearer\""));
    assert!(body.contains("\"scope\":\"read\""));

    let replay = form_request(&[
        ("grant_type", "authorization_code"),
        ("code", &code),
        ("redirect_uri", "https://app.example/cb"),
    ]);
    let resp = ep.token(&replay, 61);
    assert_eq!(response_status_code(resp.status), 400);
    assert_eq!(json_body(&resp), "{\"error\":\"invalid_grant\"}");
}

#[test]
fn authorize_unknown_client_is_400() {
    let mut ep = demo_endpoint();
    let req = query_request(&[
        ("response_type", "code"),
        ("client_id", "nobody"),
        ("redirect_uri", REDIRECT_URI),
    ]);
    let resp = ep.authorize(&req, 50, &mut GummaAuthSolicitor);
    assert_eq!(response_status_code(resp.status), 400);
    assert!(resp.location.is_none());
}

#[test]
fn expired_grant_is_rejected() {
    let mut ep = demo_endpoint();
    let auth_req = query_request(&[
        ("response_type", "code"),
        ("client_id", "plapp"),
        ("redirect_uri", REDIRECT_URI),
        ("scope", "default"),
    ]);
    let resp = ep.authorize(&auth_req, 1000, &mut GummaAuthSolicitor);
    let location = resp.location.expect("Location expected");
    let code = param_of(&location, "code").expect("code expected");

    // The grant lives for 600 seconds: at 1600 it is still redeemable, so
    // probe one second past that on a fresh copy of the request.
    let late_req = form_request(&[
        ("grant_type", "authorization_code"),
        ("code", &code),
        ("redirect_uri", REDIRECT_URI),
        ("client_id", "plapp"),
    ]);
    let resp = ep.token(&late_req, 1601);
    assert_eq!(response_status_code(resp.status), 400);
    assert_eq!(json_body(&resp), "{\"error\":\"invalid_grant\"}");
}

#[test]
fn grant_valid_at_expiry_boundary() {
    let mut ep = demo_endpoint();
    let auth_req = query_request(&[
        ("response_type", "code"),
        ("client_id", "plapp"),
        ("redirect_uri", REDIRECT_URI),
    ]);
    let resp = ep.authorize(&auth_req, 1000, &mut GummaAuthSolicitor);
    let location = resp.location.expect("Location expected");
    let code = param_of(&location, "code").expect("code expected");
    let req = form_request(&[
        ("grant_type", "authorization_code"),
        ("code", &code),
        ("redirect_uri", REDIRECT_URI),
    ]);
    let resp = ep.token(&req, 1600);
    assert_eq!(response_status_code(resp.status), 200);
}

#[test]
fn unsupported_response_type_redirects_with_error() {
    let mut ep = demo_endpoint();
    let req = query_request(&[
        ("response_type", "token"),
        ("client_id", "plapp"),
        ("redirect_uri", REDIRECT_URI),
        ("state", "xyz"),
    ]);
    let resp = ep.authorize(&req, 50, &mut GummaAuthSolicitor);
    assert_eq!(resp.status, Status::Redirect);
    let location = resp.location.expect("Location expected");
    assert_eq!(
        location,
        format!("{}?error=unsupported_response_type&state=xyz", REDIRECT_URI)
    );
}

#[test]
fn invalid_scope_redirects_with_error() {
    let mut ep = demo_endpoint();
    let req = query_request(&[
        ("response_type", "code"),
        ("client_id", "plapp"),
        ("redirect_uri", REDIRECT_URI),
        ("scope", "admin"),
    ]);
    let resp = ep.authorize(&req, 50, &mut GummaAuthSolicitor);
    assert_eq!(resp.status, Status::Redirect);
    let location = resp.location.expect("Location expected");
    assert_eq!(location, format!("{}?error=invalid_scope", REDIRECT_URI));
}

#[test]
fn denied_consent_redirects_access_denied() {
    let mut ep = demo_endpoint();
    let req = query_request(&[
        ("response_type", "code"),
        ("client_id", "plapp"),
        ("redirect_uri", REDIRECT_URI),
        ("state", "s1"),
    ]);
    let resp = ep.authorize(&req, 50, &mut DenyAllSolicitor);
    assert_eq!(resp.status, Status::Redirect);
    let location = resp.location.expect("Location expected");
    assert_eq!(location, format!("{}?error=access_denied&state=s1", REDIRECT_URI));
}

#[test]
fn state_is_carried_back_in_code_redirect() {
    let mut ep = demo_endpoint();
    let req = query_request(&[
        ("response_type", "code"),
        ("client_id", "plapp"),
        ("redirect_uri", REDIRECT_URI),
        ("state", "a b/c"),
    ]);
    let resp = ep.authorize(&req, 50, &mut GummaAuthSolicitor);
    let location = resp.location.expect("Location expected");
    assert!(location.ends_with("&state=a%20b%2fc"));
}

#[test]
fn wrong_client_secret_is_unauthorized() {
    let mut ep = demo_endpoint();
    let auth_req = query_request(&[
        ("response_type", "code"),
        ("client_id", "plupp"),
        ("redirect_uri", REDIRECT_URI),
    ]);
    let resp = ep.authorize(&auth_req, 50, &mut GummaAuthSolicitor);
    let location = resp.location.expect("Location expected");
    let code = param_of(&location, "code").expect("code expected");
    let req = form_request(&[
        ("grant_type", "authorization_code"),
        ("code", &code),
        ("redirect_uri", REDIRECT_URI),
        ("client_secret", "wrong"),
    ]);
    let resp = ep.token(&req, 51);
    assert_eq!(response_status_code(resp.status), 401);
    assert_eq!(resp.www_authenticate.as_deref(), Some("Basic"));
    assert_eq!(json_body(&resp), "{\"error\":\"invalid_client\"}");
}

#[test]
fn missing_client_secret_is_unauthorized() {
    let mut ep = demo_endpoint();
    let auth_req = query_request(&[
        ("response_type", "code"),
        ("client_id", "plupp"),
        ("redirect_uri", REDIRECT_URI),
    ]);
    let resp = ep.authorize(&auth_req, 50, &mut GummaAuthSolicitor);
    let location = resp.location.expect("Location expected");
    let code = param_of(&location, "code").expect("code expected");
    let req = form_request(&[
        ("grant_type", "authorization_code"),
        ("code", &code),
        ("redirect_uri", REDIRECT_URI),
    ]);
    let resp = ep.token(&req, 51);
    assert_eq!(response_status_code(resp.status), 401);
}

#[test]
fn unsupported_grant_type_is_400() {
    let mut ep = demo_endpoint();
    let req = form_request(&[("grant_type", "password")]);
    let resp = ep.token(&req, 50);
    assert_eq!(response_status_code(resp.status), 400);
    assert_eq!(json_body(&resp), "{\"error\":\"unsupported_grant_type\"}");
}

#[test]
fn wrong_redirect_uri_at_token_is_invalid_grant() {
    let mut ep = demo_endpoint();
    let auth_req = query_request(&[
        ("response_type", "code"),
        ("client_id", "plapp"),
        ("redirect_uri", REDIRECT_URI),
    ]);
    let resp = ep.authorize(&auth_req, 50, &mut GummaAuthSolicitor);
    let location = resp.location.expect("Location expected");
    let code = param_of(&location, "code").expect("code expected");
    let req = form_request(&[
        ("grant_type", "authorization_code"),
        ("code", &code),
        ("redirect_uri", "http://localhost:8080/other"),
    ]);
    let resp = ep.token(&req, 51);
    assert_eq!(response_status_code(resp.status), 400);
    assert_eq!(json_body(&resp), "{\"error\":\"invalid_grant\"}");
}

#[test]
fn refresh_token_round_trip() {
    let mut ep = demo_endpoint();
    let auth_req = query_request(&[
        ("response_type", "code"),
        ("client_id", "plapp"),
        ("redirect_uri", REDIRECT_URI),
    ]);
    let resp = ep.authorize(&auth_req, 50, &mut GummaAuthSolicitor);
    let location = resp.location.expect("Location expected");
    let code = param_of(&location, "code").expect("code expected");
    let req = form_request(&[
        ("grant_type", "authorization_code"),
        ("code", &code),
        ("redirect_uri", REDIRECT_URI),
    ]);
    let resp = ep.token(&req, 51);
    assert_eq!(response_status_code(resp.status), 200);
    let body = json_body(&resp).to_string();
    let refresh = body
        .split("\"refresh_token\":\"")
        .nth(1)
        .and_then(|s| s.split('"').next())
        .expect("refresh expected")
        .to_string();

    let req = form_request(&[("grant_type", "refresh_token"), ("refresh_token", &refresh)]);
    let resp = ep.token(&req, 60);
    assert_eq!(response_status_code(resp.status), 200);
    assert!(json_body(&resp).contains("\"scope\":\"default\""));

    let req = form_request(&[("grant_type", "refresh_token"), ("refresh_token", "bogus")]);
    let resp = ep.token(&req, 61);
    assert_eq!(json_body(&resp), "{\"error\":\"invalid_grant\"}");
}

#[test]
fn validated_token_carries_grant_scope() {
    let mut ep = demo_endpoint();
    let auth_req = query_request(&[
        ("response_type", "code"),
        ("client_id", "plapp"),
        ("redirect_uri", REDIRECT_URI),
        ("scope", "default"),
    ]);
    let resp = ep.authorize(&auth_req, 50, &mut GummaAuthSolicitor);
    let location = resp.location.expect("Location expected");
    let code = param_of(&location, "code").expect("code expected");
    let req = form_request(&[
        ("grant_type", "authorization_code"),
        ("code", &code),
        ("redirect_uri", REDIRECT_URI),
    ]);
    let resp = ep.token(&req, 51);
    let body = json_body(&resp).to_string();
    let access = body
        .split("\"access_token\":\"")
        .nth(1)
        .and_then(|s| s.split('"').next())
        .expect("access expected")
        .to_string();
    let token = ep.issuer.validate(&access, 52).expect("token should validate");
    assert_eq!(token.scope.tokens, vec!["default".to_string()]);
    assert_eq!(token.client_id, "plapp");
    // Past its expiry (one hour) the very same token is gone.
    assert!(ep.issuer.validate(&access, 51 + 3601).is_none());
}

#[test]
fn revoked_token_no_longer_validates() {
    let mut ep = demo_endpoint();
    let scope = ScopeSet { tokens: vec!["default".to_string()] };
    let pair = ep.issuer.issue("plapp", scope, 10, 3600, 7, 8).expect("issue should succeed");
    assert!(ep.issuer.validate(&pair.0, 11).is_some());
    assert!(ep.issuer.revoke(&pair.0));
    assert!(ep.issuer.validate(&pair.0, 11).is_none());
    assert!(!ep.issuer.revoke(&pair.0));
}

#[test]
fn stock_endpoint_authorizes_plupp() {
    let mut ep = endpoint();
    let req = query_request(&[
        ("response_type", "code"),
        ("client_id", "plupp"),
        ("redirect_uri", "http://localhost:3000/api/auth/redirect"),
        ("scope", "all"),
    ]);
    let resp = ep.authorize(&req, 50, &mut GummaAuthSolicitor);
    assert_eq!(resp.status, Status::Redirect);
}

#[test]
fn solicitor_decisions() {
    let pending = ConsentRequest {
        client_id: "demo".to_string(),
        redirect_uri: "https://app.example/cb".to_string(),
        scope: ScopeSet { tokens: vec!["read".to_string()] },
        state: None,
    };
    match GummaAuthSolicitor.decide(&pending) {
        ConsentDecision::Authorized { owner } => assert!(!owner.is_empty()),
        ConsentDecision::Denied => panic!("stock solicitor must authorize"),
    }
    match DenyAllSolicitor.decide(&pending) {
        ConsentDecision::Denied => {},
        ConsentDecision::Authorized { .. } => panic!("deny-all solicitor must deny"),
    }
}
