use gumma_auth::grants::GrantStore;
use gumma_auth::registry::{bytes_ct_eq, uri_wellformed, Client, ClientRegistry, RegisterError};
use gumma_auth::scope::{parse_scope, token_ok, ScopeSet};
use gumma_auth::tokens::TokenIssuer;
use gumma_auth::TodoState;

fn reg_with(clients: Vec<Client>) -> ClientRegistry {
    let mut reg = ClientRegistry::new();
    for c in clients {
        reg.register(c).unwrap();
    }
    reg
}

fn one_scope(token: &str) -> ScopeSet {
    ScopeSet { tokens: vec![token.to_string()] }
}

#[test]
fn register_rejects_duplicate_id() {
    let mut reg = reg_with(vec![Client::public(
        "demo".to_string(),
        "https://app.example/cb".to_string(),
        one_scope("read"),
    )]);
    let again = Client::public(
        "demo".to_string(),
        "https://other.example/cb".to_string(),
        one_scope("write"),
    );
    assert_eq!(reg.register(again), Err(RegisterError::DuplicateClient));
}

#[test]
fn register_rejects_malformed_client() {
    let mut reg = ClientRegistry::new();
    let empty_id = Client::public(
        "".to_string(),
        "https://app.example/cb".to_string(),
        one_scope("read"),
    );
    assert_eq!(reg.register(empty_id), Err(RegisterError::MalformedClient));
    let bad_uri = Client::public("demo".to_string(), "https://a#frag".to_string(),
        one_scope("read"));
    assert_eq!(reg.register(bad_uri), Err(RegisterError::MalformedClient));
}

#[test]
fn redirect_uri_matches_exactly_only() {
    let reg = reg_with(vec![Client::public(
        "demo".to_string(),
        "https://app.example/cb".to_string(),
        one_scope("read"),
    )]);
    assert!(reg.validate_redirect_uri("demo", "https://app.example/cb"));
    assert!(!reg.validate_redirect_uri("demo", "https://app.example/cb2"));
    assert!(!reg.validate_redirect_uri("demo", "https://app.example/"));
    assert!(!reg.validate_redirect_uri("demo", "https://app.example/c"));
    assert!(!reg.validate_redirect_uri("nobody", "https://app.example/cb"));
}

#[test]
fn authenticate_compares_stored_credential() {
    let reg = reg_with(vec![
        Client::confidential(
            "conf".to_string(),
            "https://app.example/cb".to_string(),
            one_scope("read"),
            b"secret".to_vec(),
        ),
        Client::public("pub".to_string(), "https://app.example/cb".to_string(),
            one_scope("read")),
    ]);
    assert!(reg.authenticate("conf", b"secret"));
    assert!(!reg.authenticate("conf", b"secreT"));
    assert!(!reg.authenticate("conf", b"secre"));
    assert!(!reg.authenticate("pub", b"anything"));
    assert!(!reg.authenticate("ghost", b"secret"));
}

#[test]
fn validate_scope_needs_subset() {
    let reg = reg_with(vec![Client::public(
        "demo".to_string(),
        "https://app.example/cb".to_string(),
        ScopeSet { tokens: vec!["read".to_string(), "write".to_string()] },
    )]);
    let requested = one_scope("read");
    let eff = reg.validate_scope("demo", &requested).expect("subset expected");
    assert_eq!(eff.tokens, vec!["read".to_string()]);
    let too_much = ScopeSet { tokens: vec!["read".to_string(), "admin".to_string()] };
    assert!(reg.validate_scope("demo", &too_much).is_none());
}

#[test]
fn scope_parsing_and_charset() {
    let sc = parse_scope("read write").expect("two tokens");
    assert_eq!(sc.tokens, vec!["read".to_string(), "write".to_string()]);
    let deduped = parse_scope("read read write").expect("dedup");
    assert_eq!(deduped.tokens, vec!["read".to_string(), "write".to_string()]);
    assert!(parse_scope("").is_none());
    assert!(parse_scope("a  b").is_none());
    assert!(parse_scope("re\"ad").is_none());
    assert!(parse_scope("re\\ad").is_none());
    assert!(token_ok("rw:files.self"));
    assert!(!token_ok(""));
    assert!(!token_ok("two words"));
}

#[test]
fn scope_subset_and_param() {
    let small = one_scope("read");
    let big = ScopeSet { tokens: vec!["write".to_string(), "read".to_string()] };
    assert!(small.subset_of(&big));
    assert!(!big.subset_of(&small));
    assert_eq!(big.as_param(), "write read");
    assert_eq!(ScopeSet { tokens: vec![] }.as_param(), "");
    assert!(big.contains_token("read"));
    assert!(!big.contains_token("admin"));
}

#[test]
fn uri_wellformedness() {
    assert!(uri_wellformed("https://app.example/cb"));
    assert!(!uri_wellformed(""));
    assert!(!uri_wellformed("https://app.example/cb#frag"));
    assert!(!uri_wellformed("https://app.example/a b"));
}

#[test]
fn constant_time_compare() {
    assert!(bytes_ct_eq(b"abc", b"abc"));
    assert!(!bytes_ct_eq(b"abc", b"abd"));
    assert!(!bytes_ct_eq(b"abc", b"ab"));
    assert!(bytes_ct_eq(b"", b""));
}

#[test]
fn grant_store_redeems_once() {
    let mut store = GrantStore::new();
    let code = store
        .issue_grant("demo", "https://app.example/cb", one_scope("read"), 100, 600, 42)
        .expect("issue expected");
    assert_eq!(code.len(), 48);
    assert!(store.find_by_code(&code).is_some());
    assert!(store.find_by_code("nope").is_none());

    // Wrong bindings never consume the grant.
    assert!(store.redeem(&code, "other", "https://app.example/cb", 100).is_none());
    assert!(store.redeem(&code, "demo", "https://evil.example/cb", 100).is_none());

    let sc = store.redeem(&code, "demo", "https://app.example/cb", 100).expect("redeem expected");
    assert_eq!(sc.tokens, vec!["read".to_string()]);
    assert!(store.redeem(&code, "demo", "https://app.example/cb", 100).is_none());
}

#[test]
fn grant_store_rejects_expired() {
    let mut store = GrantStore::new();
    let code = store
        .issue_grant("demo", "https://app.example/cb", one_scope("read"), 100, 600, 42)
        .expect("issue expected");
    assert!(store.redeem(&code, "demo", "https://app.example/cb", 701).is_none());
    assert!(store.redeem(&code, "demo", "https://app.example/cb", 700).is_some());
}

#[test]
fn issued_codes_differ_even_with_equal_randomness() {
    let mut store = GrantStore::new();
    let a = store
        .issue_grant("demo", "https://app.example/cb", one_scope("read"), 100, 600, 42)
        .unwrap();
    let b = store
        .issue_grant("demo", "https://app.example/cb", one_scope("read"), 100, 600, 42)
        .unwrap();
    assert_ne!(a, b);
}

#[test]
fn token_issuer_pairs_are_distinct() {
    let mut issuer = TokenIssuer::new();
    let (a1, r1) = issuer.issue("demo", one_scope("read"), 10, 3600, 5, 5).unwrap();
    let (a2, r2) = issuer.issue("demo", one_scope("read"), 10, 3600, 5, 5).unwrap();
    let all = [&a1, &r1, &a2, &r2];
    for i in 0..all.len() {
        for j in 0..all.len() {
            if i != j {
                assert_ne!(all[i], all[j]);
            }
        }
    }
}

#[test]
fn token_validation_respects_expiry() {
    let mut issuer = TokenIssuer::new();
    let (access, refresh) = issuer.issue("demo", one_scope("read"), 10, 3600, 5, 6).unwrap();
    assert!(issuer.validate(&access, 3610).is_some());
    assert!(issuer.validate(&access, 3611).is_none());
    assert!(issuer.validate(&refresh, 10).is_none());
    let by_refresh = issuer.find_refresh(&refresh).expect("refresh lookup");
    assert_eq!(by_refresh.client_id, "demo");
    assert!(issuer.find_refresh(&access).is_none());
}

#[test]
fn evict_expired_grants_keeps_live_ones() {
    let mut store = GrantStore::new();
    let early = store
        .issue_grant("demo", "https://app.example/cb", one_scope("read"), 100, 600, 1)
        .unwrap();
    let late = store
        .issue_grant("demo", "https://app.example/cb", one_scope("read"), 500, 600, 2)
        .unwrap();
    store.evict_expired(701);
    assert!(store.find_by_code(&early).is_none());
    assert!(store.find_by_code(&late).is_some());
    assert!(store.redeem(&late, "demo", "https://app.example/cb", 701).is_some());
}

#[test]
fn evict_expired_tokens_keeps_live_ones() {
    let mut issuer = TokenIssuer::new();
    let (early, _) = issuer.issue("demo", one_scope("read"), 100, 600, 1, 2).unwrap();
    let (late, late_refresh) = issuer.issue("demo", one_scope("read"), 500, 600, 3, 4).unwrap();
    issuer.evict_expired(701);
    assert!(issuer.validate(&early, 701).is_none());
    assert!(issuer.validate(&late, 701).is_some());
    assert!(issuer.find_refresh(&late_refresh).is_some());
}

#[test]
fn toggle() {
    assert_eq!(TodoState::Checked.toggle(), TodoState::Unchecked);
    assert_eq!(TodoState::Unchecked.toggle(), TodoState::Checked);
    assert_eq!(TodoState::Checked.toggle().toggle(), TodoState::Checked);
}
