use pixiv_proxy::api::common::ApiResponse;
use pixiv_proxy::api::error::ApiError;
use pixiv_proxy::text::{push_decimal, str_eq};
use pixiv_proxy::util::truncate;

#[test]
fn strings_compare_by_their_characters() {
    assert!(str_eq("", ""));
    assert!(str_eq("date_d", "date_d"));
    assert!(!str_eq("date_d", "date"));
    assert!(!str_eq("date", "date_d"));
    assert!(!str_eq("abc", "abd"));
    assert!(str_eq("世話やき", "世話やき"));
    assert!(!str_eq("世話やき", "世話やく"));
}

#[test]
fn decimal_numbers() {
    for n in [0u64, 7, 10, 97276742, u64::MAX] {
        let mut s = String::new();
        push_decimal(&mut s, n);
        assert_eq!(s, n.to_string());
    }
    let mut s = String::from("/artworks/");
    push_decimal(&mut s, 1234567890);
    assert_eq!(s, "/artworks/1234567890");
}

#[test]
fn truncate_counts_characters() {
    assert_eq!(truncate("hello world", 5), "hello");
    assert_eq!(truncate("hello", 5), "hello");
    assert_eq!(truncate("hello", 200), "hello");
    assert_eq!(truncate("hello", 0), "");
    assert_eq!(truncate("", 3), "");
    assert_eq!(truncate("世話やきキツネ", 3), "世話や");
}

#[test]
fn error_text() {
    assert_eq!(ApiError::External(404, "Not Found".into()).message(), "404: Not Found");
    assert_eq!(ApiError::External(418, String::new()).message(), "418: ");
    assert_eq!(ApiError::Internal("Unknown Error".into()).message(), "Unknown Error");
    assert_eq!(ApiError::External(404, "x".into()).status_code(), 404);
    assert_eq!(ApiError::Internal("x".into()).status_code(), 500);
}

#[test]
fn error_of_a_transport_failure() {
    assert!(matches!(ApiError::from_status(Some(403)), ApiError::External(403, m) if m.is_empty()));
    assert!(matches!(ApiError::from_status(None), ApiError::Internal(m) if m == "Unknown Error"));
}

#[test]
fn envelope_with_a_body_opens() {
    let ok = ApiResponse { error: false, body: Some(5u32), message: None };
    assert!(matches!(ok.into_result(), Ok(5)));
}

#[test]
fn envelope_without_a_body_is_an_error() {
    let empty: ApiResponse<u32> = ApiResponse { error: false, body: None, message: None };
    assert!(matches!(empty.into_result(), Err(ApiError::External(400, m)) if m.is_empty()));
    let refused = ApiResponse { error: true, body: Some(5u32), message: Some("no".to_string()) };
    assert!(matches!(refused.into_result(), Err(ApiError::External(400, m)) if m == "no"));
}
