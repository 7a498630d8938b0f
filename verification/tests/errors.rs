use semka_core::error::{format_u16, FetchError, ParsePathError, PathError, WidgetError};

#[test]
fn status_categorization() {
    let e = FetchError::from_status("u".to_string(), 404, "nf".to_string());
    assert!(matches!(e, FetchError::ClientError { .. }));
    assert!(e.is_not_found());
    assert!(!e.is_forbidden());

    let e = FetchError::from_status("u".to_string(), 403, "fb".to_string());
    assert!(e.is_forbidden());
    assert!(!e.is_not_found());

    let e = FetchError::from_status("u".to_string(), 500, "boom".to_string());
    assert!(matches!(e, FetchError::ServerError { .. }));
    assert!(!e.is_not_found());

    let e = FetchError::from_status("u".to_string(), 301, "moved".to_string());
    assert!(matches!(e, FetchError::UnknownError { .. }));
}

#[test]
fn not_found_variant_is_not_client_404() {
    let e = FetchError::NotFound { url: "u".to_string(), code: 404, text: "nf".to_string() };
    assert!(!e.is_not_found());
}

#[test]
fn fetch_error_messages() {
    let e = FetchError::SerdeError("docs/a/document.json".to_string(), "bad json".to_string());
    assert_eq!(e.message(), "Can not fetch \"docs/a/document.json\". Serde error bad json");

    let e = FetchError::ClientError {
        url: "docs/missing/document.json".to_string(),
        code: 404,
        text: "Not Found".to_string(),
    };
    let msg = e.message();
    assert_eq!(msg, "Can not fetch \"docs/missing/document.json\". Client error 404 Not Found");
    assert!(msg.contains("missing"));

    let e = FetchError::NetworkError("u".to_string(), "offline".to_string());
    assert_eq!(e.message(), "Can not fetch \"u\". Network error offline");
}

#[test]
fn digits_render_exactly() {
    assert_eq!(format_u16(0), "0");
    assert_eq!(format_u16(7), "7");
    assert_eq!(format_u16(40), "40");
    assert_eq!(format_u16(404), "404");
    assert_eq!(format_u16(65535), "65535");
}

#[test]
fn more_fetch_error_messages() {
    let e = FetchError::DomException("u".to_string(), "boom".to_string());
    assert_eq!(e.message(), "Can not fetch \"u\". DOM exception boom");
    let e = FetchError::PromiseError("u".to_string(), "rejected".to_string());
    assert_eq!(e.message(), "Can not fetch \"u\". Promise error rejected");
    let e = FetchError::Forbidden { url: "u".to_string(), code: 403, text: "no".to_string() };
    assert_eq!(e.message(), "Can not fetch \"u\". Forbidden 403 no");
    let e = FetchError::RequestError("u".to_string(), "bad".to_string());
    assert_eq!(e.message(), "Can not fetch \"u\". Request error bad");
    let e = FetchError::ServerError { url: "u".to_string(), code: 503, text: "later".to_string() };
    assert_eq!(e.message(), "Can not fetch \"u\". Server error 503 later");
    let e = FetchError::UnknownError { url: "u".to_string(), code: 999, text: "odd".to_string() };
    assert_eq!(e.message(), "Can not fetch \"u\". Unknown Error 999 odd");
    let e = FetchError::NotFound { url: "u".to_string(), code: 404, text: "nf".to_string() };
    assert_eq!(e.message(), "Can not fetch \"u\". Not found 404 nf");
}

#[test]
fn widget_error_message() {
    let e = WidgetError::new("markdown", "No such widget");
    assert_eq!(e.message(), "Error in widget \"markdown\": No such widget");
}

#[test]
fn path_errors_carry_their_cause() {
    let e = PathError("Can not find releative path");
    assert_eq!(e.0, "Can not find releative path");
    let e = ParsePathError("bad path");
    assert_eq!(e.0, "bad path");
}
