use openshell_providers::http_status::{status_display, status_text};

#[test]
fn status_rendered_with_standard_phrase() {
    assert_eq!(status_display(200), "200 OK");
    assert_eq!(status_display(400), "400 Bad Request");
    assert_eq!(status_display(401), "401 Unauthorized");
    assert_eq!(status_display(503), "503 Service Unavailable");
    assert_eq!(status_display(999), "999 <unknown status code>");
}

#[test]
fn status_text_uses_given_phrase_or_placeholder() {
    assert_eq!(status_text(418, Some("I'm a teapot")), "418 I'm a teapot");
    assert_eq!(status_text(7, None), "7 <unknown status code>");
    assert_eq!(status_text(0, Some("")), "0 ");
}
