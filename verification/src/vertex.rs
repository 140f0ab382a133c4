//! Vertex AI: exchanging Application Default Credentials (ADC) for an
//! OAuth access token.
//!
//! The HTTP exchange itself is performed by the caller; this module builds
//! the request, judges the status, and turns the answer into a token or an
//! error.

use std::collections::HashMap;
use vstd::prelude::*;
use vstd::string::*;
use crate::runtime::{RuntimeError, TokenResponse};
use crate::http_status::{canonical_reason, status_display, status_text_spec};
use crate::name_table::{string_values, NameTable};
use crate::text::{decimal_string, decimal_text, trim, trim_whitespace};

verus! {

/// The Vertex provider's identifier.
pub const VERTEX_PROVIDER_ID: &'static str = "vertex";

/// The environment variable whose presence reveals Vertex credentials.
pub const VERTEX_PROJECT_ID_VAR: &'static str = "ANTHROPIC_VERTEX_PROJECT_ID";

/// Application Default Credentials as written by gcloud.
pub struct AdcCredentials {
    pub client_id: String,
    pub client_secret: String,
    pub refresh_token: String,
    /// The `type` field of the credentials file.
    pub cred_type: String,
}

/// The answer of Google's OAuth token endpoint.
pub struct GoogleTokenResponse {
    pub access_token: String,
    pub token_type: String,
    pub expires_in: u64,
}

/// A form-encoded POST to the OAuth token endpoint.
pub struct TokenExchangeRequest {
    pub url: String,
    pub form: Vec<(String, String)>,
}

/// The name under which the secret store keeps the ADC JSON.
pub open spec fn adc_secret_key() -> Seq<char> {
    "VERTEX_ADC"@
}

/// The name under which the secret store keeps the ADC JSON.
pub fn vertex_adc_key() -> (k: &'static str)
    ensures
        k@ == adc_secret_key(),
{
    "VERTEX_ADC"
}

/// The form fields of a refresh-token grant for `adc`, in order.
pub open spec fn exchange_form(adc: AdcCredentials) -> Seq<(Seq<char>, Seq<char>)> {
    seq![
        ("client_id"@, adc.client_id@),
        ("client_secret"@, adc.client_secret@),
        ("refresh_token"@, adc.refresh_token@),
        ("grant_type"@, "refresh_token"@),
    ]
}

/// The pairs of a form, as character sequences.
pub open spec fn form_view(form: Seq<(String, String)>) -> Seq<(Seq<char>, Seq<char>)> {
    form.map_values(|p: (String, String)| (p.0@, p.1@))
}

/// The request that exchanges `adc` for an access token.
pub fn token_exchange_request(adc: &AdcCredentials) -> (req: TokenExchangeRequest)
    ensures
        req.url@ == "https://oauth2.googleapis.com/token"@,
        form_view(req.form@) == exchange_form(*adc),
        req.form@.len() == 4,
        req.form@[0].0@ == "client_id"@ && req.form@[0].1@ == adc.client_id@,
        req.form@[1].0@ == "client_secret"@ && req.form@[1].1@ == adc.client_secret@,
        req.form@[2].0@ == "refresh_token"@ && req.form@[2].1@ == adc.refresh_token@,
        req.form@[3].0@ == "grant_type"@ && req.form@[3].1@ == "refresh_token"@,
{
    let mut form: Vec<(String, String)> = Vec::new();
    form.push((String::from_str("client_id"), adc.client_id.clone()));
    form.push((String::from_str("client_secret"), adc.client_secret.clone()));
    form.push((String::from_str("refresh_token"), adc.refresh_token.clone()));
    form.push((String::from_str("grant_type"), String::from_str("refresh_token")));
    assert(form_view(form@) =~= exchange_form(*adc));
    TokenExchangeRequest { url: String::from_str("https://oauth2.googleapis.com/token"), form }
}

/// Whether an HTTP status code reports success (the 2xx range).
pub fn is_success_status(code: u16) -> (r: bool)
    ensures
        r == (200 <= code <= 299),
{
    200 <= code && code <= 299
}

/// The error for a token exchange that the endpoint refused with HTTP
/// status `status` and response body `body`; the status is rendered with
/// its standard reason phrase.
pub fn rejected_exchange(status: u16, body: &str) -> (e: RuntimeError)
    requires
        100 <= status <= 999,
    ensures
        e matches RuntimeError::AuthFailed(m) && m@ == "OAuth token request failed with status "@
            + status_text_spec(status, canonical_reason(status)) + ": "@ + body@,
{
    let shown = status_display(status);
    RuntimeError::AuthFailed(
        String::from_str("OAuth token request failed with status ").concat(shown.as_str()).concat(
            ": ",
        ).concat(body),
    )
}

/// The error for ADC JSON that does not parse; `detail` says why.
pub fn invalid_adc(detail: &str) -> (e: RuntimeError)
    ensures
        e matches RuntimeError::InvalidResponse(m) && m@ == "Invalid ADC format: "@ + detail@,
{
    RuntimeError::InvalidResponse(String::from_str("Invalid ADC format: ").concat(detail))
}

/// The runtime token for an accepted exchange: the access token without
/// surrounding whitespace, the type and lifetime as given, no metadata.
pub fn token_from_google(answer: GoogleTokenResponse) -> (t: TokenResponse)
    ensures
        t.access_token@ == trim(answer.access_token@),
        t.token_type@ == answer.token_type@,
        t.expires_in == answer.expires_in,
        t.metadata@ == Map::<String, String>::empty(),
{
    TokenResponse {
        access_token: trim_whitespace(answer.access_token.as_str()),
        token_type: answer.token_type,
        expires_in: answer.expires_in,
        metadata: HashMap::new(),
    }
}

/// Where gcloud keeps the ADC file, relative to the home directory.
pub open spec fn adc_relative_path() -> Seq<char> {
    ".config/gcloud/application_default_credentials.json"@
}

/// The standard ADC file path under `home`: the relative path joined to the
/// home directory, with a separator added unless `home` is empty or already
/// ends in one.
pub open spec fn standard_adc_path_spec(home: Seq<char>) -> Seq<char> {
    if home.len() > 0 && home.last() != '/' {
        home + "/"@ + adc_relative_path()
    } else {
        home + adc_relative_path()
    }
}

/// The standard ADC file path under the home directory `home`.
pub fn standard_adc_path(home: &str) -> (p: String)
    ensures
        p@ == standard_adc_path_spec(home@),
{
    let n = home.unicode_len();
    if n > 0 && home.get_char(n - 1) != '/' {
        String::from_str(home).concat("/").concat(".config/gcloud/application_default_credentials.json")
    } else {
        String::from_str(home).concat(".config/gcloud/application_default_credentials.json")
    }
}


/// Text for ADC JSON that does not parse while credentials are being set
/// up; `detail` says why.
pub fn adc_setup_format_message(detail: &str) -> (m: String)
    ensures
        m@ == "Invalid ADC format: "@ + detail@
            + ". Expected Google Application Default Credentials JSON from 'gcloud auth application-default login'"@,
{
    String::from_str("Invalid ADC format: ").concat(detail).concat(
        ". Expected Google Application Default Credentials JSON from 'gcloud auth application-default login'",
    )
}

/// Text for a validation that could not start its own async runtime.
pub fn runtime_creation_message(detail: &str) -> (m: String)
    ensures
        m@ == "Failed to create runtime for validation: "@ + detail@,
{
    String::from_str("Failed to create runtime for validation: ").concat(detail)
}

/// Text for a validation that could not reach the OAuth endpoint.
pub fn oauth_connect_message(detail: &str) -> (m: String)
    ensures
        m@ == "Failed to connect to Google OAuth: "@ + detail@
            + ". Check your internet connection."@,
{
    String::from_str("Failed to connect to Google OAuth: ").concat(detail).concat(
        ". Check your internet connection.",
    )
}

/// Text for credentials that the OAuth endpoint refused, with HTTP status
/// `status`, during validation.
pub fn adc_rejected_message(status: u16, body: &str) -> (m: String)
    ensures
        m@ == "ADC credentials rejected by Google OAuth (status "@ + decimal_text(status as nat)
            + "): "@ + body@
            + ". Your credentials may be expired or invalid. Run: gcloud auth application-default login"@,
{
    let code = decimal_string(status as u64);
    String::from_str("ADC credentials rejected by Google OAuth (status ").concat(code.as_str()).concat(
        "): ",
    ).concat(body).concat(
        ". Your credentials may be expired or invalid. Run: gcloud auth application-default login",
    )
}


/// Text for when no ADC credentials can be found, listing the ways to
/// provide them.
pub open spec fn adc_not_found_text() -> Seq<char> {
    "Vertex ADC credentials not found. Run one of:\n  1. gcloud auth application-default login (creates ~/.config/gcloud/application_default_credentials.json)\n  2. export VERTEX_ADC=\"$(cat /path/to/adc.json)\"\n  3. openshell provider create --name vertex --type vertex --credential VERTEX_ADC=\"$(cat /path/to/adc.json)\""@
}

/// Text for when no ADC credentials can be found, listing the ways to
/// provide them.
pub fn adc_not_found_message() -> (m: String)
    ensures
        m@ == adc_not_found_text(),
{
    String::from_str(
        "Vertex ADC credentials not found. Run one of:\n  1. gcloud auth application-default login (creates ~/.config/gcloud/application_default_credentials.json)\n  2. export VERTEX_ADC=\"$(cat /path/to/adc.json)\"\n  3. openshell provider create --name vertex --type vertex --credential VERTEX_ADC=\"$(cat /path/to/adc.json)\"",
    )
}


/// The configuration key, and environment variable, of the Vertex region.
pub fn region_config_key() -> (k: &'static str)
    ensures
        k@ == "ANTHROPIC_VERTEX_REGION"@,
{
    "ANTHROPIC_VERTEX_REGION"
}

/// The ADC to use: the `VERTEX_ADC` variable's value when it is set,
/// otherwise the standard credentials file's contents, otherwise an error
/// saying how to provide credentials.
pub fn choose_adc(env_adc: Option<String>, file_adc: Option<String>) -> (r: Result<String, String>)
    ensures
        env_adc matches Some(v) ==> r == Ok::<String, String>(v),
        env_adc is None && file_adc is Some ==> r == Ok::<String, String>(file_adc->Some_0),
        env_adc is None && file_adc is None ==> (r matches Err(m) && m@
            == adc_not_found_text()),
{
    match env_adc {
        Some(v) => Ok(v),
        None => match file_adc {
            Some(v) => Ok(v),
            None => Err(adc_not_found_message()),
        },
    }
}

/// Records on a discovered Vertex provider what discovery adds: the region
/// setting in its configuration, when one is set, and in its credentials
/// the switch that enables Vertex AI in the CLI and the validated ADC.
pub fn complete_discovery(
    credentials: &mut NameTable<String>,
    config: &mut NameTable<String>,
    region: Option<String>,
    adc_json: String,
)
    ensures
        string_values(final(credentials)@) == string_values(old(credentials)@).insert(
            "CLAUDE_CODE_USE_VERTEX"@,
            "1"@,
        ).insert("VERTEX_ADC"@, adc_json@),
        region matches Some(r) ==> final(config)@ == old(config)@.insert(
            "ANTHROPIC_VERTEX_REGION"@,
            r,
        ),
        region is None ==> final(config)@ == old(config)@,
{
    match region {
        Some(r) => config.insert(String::from_str("ANTHROPIC_VERTEX_REGION"), r),
        None => {},
    }
    credentials.insert(String::from_str("CLAUDE_CODE_USE_VERTEX"), String::from_str("1"));
    credentials.insert(String::from_str("VERTEX_ADC"), adc_json);
}


/// The grant sends each credential verbatim, under its own field name:
/// the client id, the client secret and the refresh token of the ADC, in
/// that order, then the grant type.
pub proof fn lemma_exchange_form_carries_credentials(adc: AdcCredentials)
    ensures
        exchange_form(adc).len() == 4,
        exchange_form(adc)[0] == ("client_id"@, adc.client_id@),
        exchange_form(adc)[1] == ("client_secret"@, adc.client_secret@),
        exchange_form(adc)[2] == ("refresh_token"@, adc.refresh_token@),
        exchange_form(adc)[3] == ("grant_type"@, "refresh_token"@),
{
}

/// The standard ADC path starts with the home directory, unchanged, and
/// ends with the path relative to it; between them stands one separator
/// exactly when the home directory is non-empty and does not already end
/// in one.
pub proof fn lemma_adc_path_extends_home(home: Seq<char>)
    ensures
        ({
            let p = standard_adc_path_spec(home);
            let rel = adc_relative_path();
            let sep: int = if home.len() > 0 && home.last() != '/' { 1 } else { 0 };
            &&& p.len() == home.len() + sep + rel.len()
            &&& p.subrange(0, home.len() as int) == home
            &&& p.subrange(p.len() - rel.len(), p.len() as int) == rel
            &&& sep == 1 ==> p[home.len() as int] == '/'
        }),
{
    let p = standard_adc_path_spec(home);
    let rel = adc_relative_path();
    reveal_strlit("/");
    assert(p.subrange(0, home.len() as int) =~= home);
    assert(p.subrange(p.len() - rel.len(), p.len() as int) =~= rel);
}

} // verus!
