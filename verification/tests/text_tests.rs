use gumma_auth::base64::base64_encode;
use gumma_auth::encode::pct_encode;
use gumma_auth::params::{GummaAuthRequest, Params};
use gumma_auth::response::{response_status_code, GummaAuthResponse, ResponseBody, Status};
use gumma_auth::text::{dec_u64, digit_str, hex_fixed, render_code, str_eq};
use gumma_auth::token_flow::build_token_json;

#[test]
fn hex_rendering_is_fixed_width() {
    assert_eq!(hex_fixed(0, 4), "0000");
    assert_eq!(hex_fixed(255, 4), "00ff");
    assert_eq!(hex_fixed(0xdead_beef, 8), "deadbeef");
    assert_eq!(hex_fixed(0x1234_5678_9abc_def0, 16), "123456789abcdef0");
}

#[test]
fn decimal_rendering() {
    assert_eq!(dec_u64(0), "0");
    assert_eq!(dec_u64(7), "7");
    assert_eq!(dec_u64(3600), "3600");
    assert_eq!(dec_u64(18446744073709551615), "18446744073709551615");
}

#[test]
fn digit_strings() {
    assert_eq!(digit_str(0), "0");
    assert_eq!(digit_str(9), "9");
    assert_eq!(digit_str(10), "a");
    assert_eq!(digit_str(15), "f");
}

#[test]
fn opaque_strings_embed_serial() {
    let code = render_code(0, 0);
    assert_eq!(code.len(), 48);
    assert_eq!(code, "0".repeat(48));
    let code = render_code(1, 2);
    assert!(code.starts_with(&"0".repeat(31)));
    assert!(code.ends_with("0002"));
    assert_ne!(render_code(5, 1), render_code(5, 2));
}

#[test]
fn base64_vectors() {
    assert_eq!(base64_encode(b""), "");
    assert_eq!(base64_encode(b"f"), "Zg==");
    assert_eq!(base64_encode(b"fo"), "Zm8=");
    assert_eq!(base64_encode(b"foo"), "Zm9v");
    assert_eq!(base64_encode(b"foob"), "Zm9vYg==");
    assert_eq!(base64_encode(b"fooba"), "Zm9vYmE=");
    assert_eq!(base64_encode(b"foobar"), "Zm9vYmFy");
    assert_eq!(base64_encode(b"plupp:plupp"), "cGx1cHA6cGx1cHA=");
    assert_eq!(base64_encode(&[0xfb, 0xff, 0x3e]), "+/8+");
}

#[test]
fn percent_encoding_cases() {
    assert_eq!(pct_encode("abcXYZ019-._~"), "abcXYZ019-._~");
    assert_eq!(pct_encode("a b"), "a%20b");
    assert_eq!(pct_encode("a/b?c=d&e"), "a%2fb%3fc%3dd%26e");
    assert_eq!(pct_encode(""), "");
    // U+00E9 encodes as the two UTF-8 bytes C3 A9.
    assert_eq!(pct_encode("\u{00e9}"), "%c3%a9");
    // U+20AC (three bytes) and U+1F600 (four bytes).
    assert_eq!(pct_encode("\u{20ac}"), "%e2%82%ac");
    assert_eq!(pct_encode("\u{1f600}"), "%f0%9f%98%80");
}

#[test]
fn token_json_shape() {
    let json = build_token_json("AAA", "RRR", 3600, "read write");
    assert_eq!(
        json,
        "{\"access_token\":\"AAA\",\"token_type\":\"bearer\",\"expires_in\":3600,\
         \"refresh_token\":\"RRR\",\"scope\":\"read write\"}"
    );
}

#[test]
fn status_codes_match_the_wire() {
    assert_eq!(response_status_code(Status::Okay), 200);
    assert_eq!(response_status_code(Status::Redirect), 302);
    assert_eq!(response_status_code(Status::BadRequest), 400);
    assert_eq!(response_status_code(Status::Unauthorized), 401);
    assert_eq!(response_status_code(Status::InternalError), 500);
}

#[test]
fn response_builders_set_fields() {
    let mut r = GummaAuthResponse::new(Status::BadRequest);
    assert!(r.location.is_none() && r.body.is_none() && r.www_authenticate.is_none());
    r.ok();
    assert_eq!(r.status, Status::Okay);
    r.redirect("https://app.example/cb?code=1".to_string());
    assert_eq!(r.status, Status::Redirect);
    assert_eq!(r.location.as_deref(), Some("https://app.example/cb?code=1"));
    r.client_error();
    assert_eq!(r.status, Status::BadRequest);
    r.unauthorized("Basic");
    assert_eq!(r.status, Status::Unauthorized);
    assert_eq!(r.www_authenticate.as_deref(), Some("Basic"));
    r.body_text("plain");
    assert!(matches!(r.body, Some(ResponseBody::Text(ref t)) if t == "plain"));
    r.body_json("{}");
    assert!(matches!(r.body, Some(ResponseBody::Json(ref t)) if t == "{}"));
}

#[test]
fn params_first_match_wins() {
    let mut p = Params::new();
    p.push("a".to_string(), "1".to_string());
    p.push("b".to_string(), "2".to_string());
    p.push("a".to_string(), "3".to_string());
    assert_eq!(p.get("a").map(String::as_str), Some("1"));
    assert_eq!(p.get("b").map(String::as_str), Some("2"));
    assert!(p.get("c").is_none());
}

#[test]
fn request_accessors_hand_parts_back() {
    let mut q = Params::new();
    q.push("k".to_string(), "v".to_string());
    let req = GummaAuthRequest::new(Some(q), None, Some("Basic abc".to_string()));
    assert_eq!(req.auth_header(), Some("Basic abc"));
    assert_eq!(req.query_params().unwrap().get("k").map(String::as_str), Some("v"));
    assert!(req.form_body().is_none());
}

#[test]
fn string_comparison_by_contents() {
    assert!(str_eq("abc", "abc"));
    assert!(!str_eq("abc", "abd"));
    assert!(!str_eq("abc", "abcd"));
    assert!(str_eq("", ""));
}
