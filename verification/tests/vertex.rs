use openshell_providers::secret_store::SecretError;
use openshell_providers::runtime::RuntimeError;
use openshell_providers::name_table::NameTable;
use openshell_providers::vertex::{
    VERTEX_PROJECT_ID_VAR, VERTEX_PROVIDER_ID,
    adc_not_found_message, adc_rejected_message, choose_adc, complete_discovery, invalid_adc, is_success_status, rejected_exchange, standard_adc_path, token_exchange_request,
    token_from_google, vertex_adc_key, AdcCredentials, GoogleTokenResponse,
};

fn adc() -> AdcCredentials {
    AdcCredentials {
        client_id: "id".to_string(),
        client_secret: "secret".to_string(),
        refresh_token: "refresh".to_string(),
        cred_type: "authorized_user".to_string(),
    }
}

#[test]
fn exchange_request_is_a_refresh_token_grant() {
    let req = token_exchange_request(&adc());
    assert_eq!(req.url, "https://oauth2.googleapis.com/token");
    let expected: Vec<(String, String)> = vec![
        ("client_id".to_string(), "id".to_string()),
        ("client_secret".to_string(), "secret".to_string()),
        ("refresh_token".to_string(), "refresh".to_string()),
        ("grant_type".to_string(), "refresh_token".to_string()),
    ];
    assert_eq!(req.form, expected);
}

#[test]
fn success_statuses_are_2xx() {
    assert!(is_success_status(200));
    assert!(is_success_status(204));
    assert!(is_success_status(299));
    assert!(!is_success_status(199));
    assert!(!is_success_status(300));
    assert!(!is_success_status(401));
}

#[test]
fn rejected_exchange_is_auth_failure() {
    match rejected_exchange(401, "{\"error\":\"invalid_grant\"}") {
        RuntimeError::AuthFailed(m) => assert_eq!(
            m,
            "OAuth token request failed with status 401 Unauthorized: {\"error\":\"invalid_grant\"}"
        ),
        other => panic!("unexpected: {:?}", other),
    }
}

#[test]
fn invalid_adc_is_invalid_response() {
    let e = invalid_adc("expected value at line 1 column 1");
    assert_eq!(
        e.message(),
        "invalid response: Invalid ADC format: expected value at line 1 column 1"
    );
}

#[test]
fn google_answer_becomes_trimmed_token() {
    let t = token_from_google(GoogleTokenResponse {
        access_token: "  ya29.token\n".to_string(),
        token_type: "Bearer".to_string(),
        expires_in: 3599,
    });
    assert_eq!(t.access_token, "ya29.token");
    assert_eq!(t.token_type, "Bearer");
    assert_eq!(t.expires_in, 3599);
    assert!(t.metadata.is_empty());
}

#[test]
fn trimming_removes_unicode_whitespace_only_at_ends() {
    let t = token_from_google(GoogleTokenResponse {
        access_token: "\u{3000}\u{a0}a b\u{2003}\t".to_string(),
        token_type: "Bearer".to_string(),
        expires_in: 1,
    });
    assert_eq!(t.access_token, "a b");
    let blank = token_from_google(GoogleTokenResponse {
        access_token: " \r\n ".to_string(),
        token_type: "Bearer".to_string(),
        expires_in: 1,
    });
    assert_eq!(blank.access_token, "");
}

#[test]
fn adc_path_under_home() {
    assert_eq!(
        standard_adc_path("/home/u"),
        "/home/u/.config/gcloud/application_default_credentials.json"
    );
    assert_eq!(
        standard_adc_path("/home/u/"),
        "/home/u/.config/gcloud/application_default_credentials.json"
    );
    assert_eq!(
        standard_adc_path(""),
        ".config/gcloud/application_default_credentials.json"
    );
}

#[test]
fn adc_secret_key_name() {
    assert_eq!(vertex_adc_key(), "VERTEX_ADC");
}

#[test]
fn runtime_error_messages() {
    assert_eq!(
        RuntimeError::NotConfigured("vertex".to_string()).message(),
        "provider not configured: vertex"
    );
    assert_eq!(RuntimeError::Network("x".to_string()).message(), "network error: x");
    assert_eq!(
        RuntimeError::AuthFailed("x".to_string()).message(),
        "authentication failed: x"
    );
    assert_eq!(RuntimeError::Expired.message(), "token expired");
    assert_eq!(
        RuntimeError::InvalidResponse("x".to_string()).message(),
        "invalid response: x"
    );
    let e: RuntimeError = SecretError::NotFound("VERTEX_ADC".to_string()).into();
    assert_eq!(e.message(), "secret store error: secret not found: VERTEX_ADC");
}

#[test]
fn adc_rejection_names_the_numeric_status() {
    let m = adc_rejected_message(400, "invalid_grant");
    assert!(m.starts_with("ADC credentials rejected by Google OAuth (status 400): invalid_grant"));
    assert_eq!(
        m,
        "ADC credentials rejected by Google OAuth (status 400): invalid_grant. Your credentials may be expired or invalid. Run: gcloud auth application-default login"
    );
    assert!(adc_rejected_message(0, "").contains("(status 0): "));
    assert!(adc_rejected_message(65535, "").contains("(status 65535): "));
}

#[test]
fn adc_source_priority() {
    assert_eq!(
        choose_adc(Some("env".to_string()), Some("file".to_string())),
        Ok("env".to_string())
    );
    assert_eq!(choose_adc(None, Some("file".to_string())), Ok("file".to_string()));
    assert_eq!(choose_adc(Some(String::new()), None), Ok(String::new()));
    assert_eq!(choose_adc(None, None), Err(adc_not_found_message()));
    assert!(adc_not_found_message().starts_with("Vertex ADC credentials not found. Run one of:\n  1. gcloud auth application-default login"));
}

#[test]
fn discovery_adds_vertex_switch_region_and_adc() {
    let mut credentials: NameTable<String> = NameTable::new();
    credentials.insert("ANTHROPIC_VERTEX_PROJECT_ID".to_string(), "my-gcp-project".to_string());
    let mut config: NameTable<String> = NameTable::new();
    complete_discovery(
        &mut credentials,
        &mut config,
        Some("us-east5".to_string()),
        "{}".to_string(),
    );
    let get = |t: &NameTable<String>, k: &str| t.find(k).map(|i| t.value_at(i).clone());
    assert_eq!(get(&credentials, "ANTHROPIC_VERTEX_PROJECT_ID"), Some("my-gcp-project".to_string()));
    assert_eq!(get(&credentials, "CLAUDE_CODE_USE_VERTEX"), Some("1".to_string()));
    assert_eq!(get(&credentials, "VERTEX_ADC"), Some("{}".to_string()));
    assert_eq!(credentials.len(), 3);
    assert_eq!(get(&config, "ANTHROPIC_VERTEX_REGION"), Some("us-east5".to_string()));

    let mut config2: NameTable<String> = NameTable::new();
    complete_discovery(&mut credentials, &mut config2, None, "{\"a\":1}".to_string());
    assert_eq!(config2.len(), 0);
    assert_eq!(get(&credentials, "VERTEX_ADC"), Some("{\"a\":1}".to_string()));
    assert_eq!(credentials.len(), 3);
}

#[test]
fn rejected_exchange_shows_reason_phrase() {
    match rejected_exchange(400, "invalid_grant") {
        RuntimeError::AuthFailed(m) => assert_eq!(
            m,
            "OAuth token request failed with status 400 Bad Request: invalid_grant"
        ),
        other => panic!("unexpected: {:?}", other),
    }
    match rejected_exchange(599, "") {
        RuntimeError::AuthFailed(m) => assert_eq!(
            m,
            "OAuth token request failed with status 599 <unknown status code>: "
        ),
        other => panic!("unexpected: {:?}", other),
    }
}

#[test]
fn provider_constants() {
    assert_eq!(VERTEX_PROVIDER_ID, "vertex");
    assert_eq!(VERTEX_PROJECT_ID_VAR, "ANTHROPIC_VERTEX_PROJECT_ID");
}
