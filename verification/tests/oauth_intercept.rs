use openshell_providers::oauth_intercept::{generate_fake_oauth_response, should_intercept_oauth_request};

#[test]
fn intercepts_token_exchange() {
    assert!(should_intercept_oauth_request("POST", "oauth2.googleapis.com", "/token"));
}

#[test]
fn intercept_ignores_case_of_method_and_host() {
    assert!(should_intercept_oauth_request("post", "OAuth2.GoogleAPIs.com", "/token"));
    assert!(should_intercept_oauth_request("PoSt", "OAUTH2.GOOGLEAPIS.COM", "/token"));
}

#[test]
fn intercept_path_is_exact() {
    assert!(!should_intercept_oauth_request("POST", "oauth2.googleapis.com", "/TOKEN"));
    assert!(!should_intercept_oauth_request("POST", "oauth2.googleapis.com", "/token/"));
    assert!(!should_intercept_oauth_request("POST", "oauth2.googleapis.com", ""));
}

#[test]
fn intercept_needs_post_and_google_host() {
    assert!(!should_intercept_oauth_request("GET", "oauth2.googleapis.com", "/token"));
    assert!(!should_intercept_oauth_request("POSTS", "oauth2.googleapis.com", "/token"));
    assert!(!should_intercept_oauth_request("POST", "example.com", "/token"));
    assert!(!should_intercept_oauth_request("POST", "oauth2.googleapis.com.evil", "/token"));
}

#[test]
fn intercept_does_not_fold_non_ascii() {
    // U+017F (long s) uppercases to 'S' in Unicode but not in ASCII folding.
    assert!(!should_intercept_oauth_request("po\u{17f}t", "oauth2.googleapis.com", "/token"));
}

#[test]
fn fake_response_with_placeholder() {
    let bytes = generate_fake_oauth_response(None);
    let body = r#"{"access_token":"fake-token-will-be-replaced-by-proxy","token_type":"Bearer","expires_in":3600}"#;
    let expected = format!(
        "HTTP/1.1 200 OK\r\nContent-Type: application/json\r\nContent-Length: {}\r\n\r\n{}",
        body.len(),
        body
    );
    assert_eq!(String::from_utf8(bytes).unwrap(), expected);
}

#[test]
fn fake_response_with_real_token() {
    let bytes = generate_fake_oauth_response(Some("ya29.real"));
    let text = String::from_utf8(bytes).unwrap();
    assert_eq!(
        text,
        "HTTP/1.1 200 OK\r\nContent-Type: application/json\r\nContent-Length: 68\r\n\r\n{\"access_token\":\"ya29.real\",\"token_type\":\"Bearer\",\"expires_in\":3600}"
    );
}

#[test]
fn fake_response_content_length_counts_bytes() {
    // Two-byte UTF-8 characters count twice.
    let bytes = generate_fake_oauth_response(Some("\u{e9}\u{e9}"));
    let text = String::from_utf8(bytes).unwrap();
    let (head, body) = text.split_once("\r\n\r\n").unwrap();
    let declared: usize = head
        .lines()
        .find_map(|l| l.strip_prefix("Content-Length: "))
        .unwrap()
        .parse()
        .unwrap();
    assert_eq!(declared, body.len());
    assert_eq!(declared, 63);
}

#[test]
fn fake_response_with_empty_token() {
    let text = String::from_utf8(generate_fake_oauth_response(Some(""))).unwrap();
    assert!(text.ends_with("\r\n\r\n{\"access_token\":\"\",\"token_type\":\"Bearer\",\"expires_in\":3600}"));
    assert!(text.contains("Content-Length: 59\r\n"));
}
