use almarjaa_network::{ContentType, HttpHeaders, HttpMethod, StatusCode, TimeSpan};

#[test]
fn method_from_arabic_and_english_names() {
    assert_eq!(HttpMethod::from_arabic("احضر"), Some(HttpMethod::Get));
    assert_eq!(HttpMethod::from_arabic("GET"), Some(HttpMethod::Get));
    assert_eq!(HttpMethod::from_arabic("ارسل"), Some(HttpMethod::Post));
    assert_eq!(HttpMethod::from_arabic("ضع"), Some(HttpMethod::Put));
    assert_eq!(HttpMethod::from_arabic("احذف"), Some(HttpMethod::Delete));
    assert_eq!(HttpMethod::from_arabic("عدل"), Some(HttpMethod::Patch));
    assert_eq!(HttpMethod::from_arabic("رأس"), Some(HttpMethod::Head));
    assert_eq!(HttpMethod::from_arabic("خيارات"), Some(HttpMethod::Options));
    assert_eq!(HttpMethod::from_arabic("اتصل"), Some(HttpMethod::Connect));
    assert_eq!(HttpMethod::from_arabic("تتبع"), Some(HttpMethod::Trace));
    assert_eq!(HttpMethod::from_arabic("get"), None);
    assert_eq!(HttpMethod::from_arabic(""), None);
}

#[test]
fn method_names_read_back() {
    let all = [
        HttpMethod::Get,
        HttpMethod::Post,
        HttpMethod::Put,
        HttpMethod::Delete,
        HttpMethod::Patch,
        HttpMethod::Head,
        HttpMethod::Options,
        HttpMethod::Connect,
        HttpMethod::Trace,
    ];
    for m in all {
        assert_eq!(HttpMethod::from_arabic(m.as_str()), Some(m));
    }
    assert_eq!(HttpMethod::Delete.as_str(), "DELETE");
}

#[test]
fn headers_ignore_name_case() {
    let mut h = HttpHeaders::new();
    assert!(h.is_empty());
    h.insert("Content-Type".to_string(), "text/html".to_string());
    assert_eq!(h.get("content-type"), Some(&"text/html".to_string()));
    assert_eq!(h.get("CONTENT-TYPE"), Some(&"text/html".to_string()));
    assert!(h.contains("Content-type"));
    h.insert("CONTENT-TYPE".to_string(), "application/json".to_string());
    assert_eq!(h.len(), 1);
    assert_eq!(h.get("Content-Type"), Some(&"application/json".to_string()));
    assert_eq!(h.remove("content-TYPE"), Some("application/json".to_string()));
    assert!(!h.contains("content-type"));
    assert_eq!(h.remove("content-type"), None);
    assert!(h.is_empty());
}

#[test]
fn headers_iterate_lower_case_names() {
    let mut h = HttpHeaders::new();
    h.insert("X-One".to_string(), "1".to_string());
    h.insert("X-Two".to_string(), "2".to_string());
    let pairs = h.iter();
    assert_eq!(
        pairs,
        vec![
            ("x-one".to_string(), "1".to_string()),
            ("x-two".to_string(), "2".to_string())
        ]
    );
    let copy = h.clone();
    assert_eq!(copy.get("x-two"), Some(&"2".to_string()));
}

#[test]
fn headers_lowercase_non_ascii_names() {
    let mut h = HttpHeaders::new();
    h.insert("Ünïcode".to_string(), "v".to_string());
    assert_eq!(h.get("ÜNÏCODE"), Some(&"v".to_string()));
    assert_eq!(h.iter()[0].0, "ünïcode");
}

#[test]
fn status_code_classes() {
    assert!(StatusCode::OK().is_success());
    assert!(StatusCode(299).is_success());
    assert!(!StatusCode(300).is_success());
    assert!(StatusCode::FOUND().is_redirect());
    assert!(StatusCode::NOT_FOUND().is_client_error());
    assert!(!StatusCode::NOT_FOUND().is_server_error());
    assert!(StatusCode::BAD_GATEWAY().is_server_error());
    assert!(!StatusCode(600).is_server_error());
    assert!(!StatusCode(199).is_success());
}

#[test]
fn status_code_constants() {
    assert_eq!(StatusCode::CREATED().0, 201);
    assert_eq!(StatusCode::ACCEPTED().0, 202);
    assert_eq!(StatusCode::NO_CONTENT().0, 204);
    assert_eq!(StatusCode::MOVED_PERMANENTLY().0, 301);
    assert_eq!(StatusCode::SEE_OTHER().0, 303);
    assert_eq!(StatusCode::NOT_MODIFIED().0, 304);
    assert_eq!(StatusCode::TEMPORARY_REDIRECT().0, 307);
    assert_eq!(StatusCode::PERMANENT_REDIRECT().0, 308);
    assert_eq!(StatusCode::BAD_REQUEST().0, 400);
    assert_eq!(StatusCode::UNAUTHORIZED().0, 401);
    assert_eq!(StatusCode::FORBIDDEN().0, 403);
    assert_eq!(StatusCode::METHOD_NOT_ALLOWED().0, 405);
    assert_eq!(StatusCode::REQUEST_TIMEOUT().0, 408);
    assert_eq!(StatusCode::CONFLICT().0, 409);
    assert_eq!(StatusCode::GONE().0, 410);
    assert_eq!(StatusCode::PAYLOAD_TOO_LARGE().0, 413);
    assert_eq!(StatusCode::URI_TOO_LONG().0, 414);
    assert_eq!(StatusCode::UNSUPPORTED_MEDIA_TYPE().0, 415);
    assert_eq!(StatusCode::TOO_MANY_REQUESTS().0, 429);
    assert_eq!(StatusCode::INTERNAL_SERVER_ERROR().0, 500);
    assert_eq!(StatusCode::NOT_IMPLEMENTED().0, 501);
    assert_eq!(StatusCode::SERVICE_UNAVAILABLE().0, 503);
    assert_eq!(StatusCode::GATEWAY_TIMEOUT().0, 504);
    assert_eq!(StatusCode::HTTP_VERSION_NOT_SUPPORTED().0, 505);
}

#[test]
fn status_reason_phrases() {
    assert_eq!(StatusCode::OK().reason_phrase(), "OK");
    assert_eq!(StatusCode(404).reason_phrase(), "Not Found");
    assert_eq!(StatusCode(429).reason_phrase(), "Too Many Requests");
    assert_eq!(StatusCode(303).reason_phrase(), "Unknown");
    assert_eq!(StatusCode(418).reason_phrase(), "Unknown");
    assert_eq!(StatusCode(200).reason_phrase_arabic(), "نجاح");
    assert_eq!(StatusCode(500).reason_phrase_arabic(), "خطأ داخلي في الخادم");
    assert_eq!(StatusCode(999).reason_phrase_arabic(), "غير معروف");
}

#[test]
fn content_type_mime_round_trip() {
    let all = [
        ContentType::Json,
        ContentType::Xml,
        ContentType::Html,
        ContentType::Text,
        ContentType::Binary,
        ContentType::FormData,
        ContentType::Multipart,
        ContentType::UrlEncoded,
    ];
    for ct in all {
        assert_eq!(ContentType::from_mime(&ct.to_mime()), ct);
    }
    assert_eq!(ContentType::Json.to_mime(), "application/json");
    assert_eq!(
        ContentType::Custom("image/png".to_string()).to_mime(),
        "image/png"
    );
}

#[test]
fn content_type_from_mime_cases() {
    assert_eq!(ContentType::from_mime("APPLICATION/JSON"), ContentType::Json);
    assert_eq!(ContentType::from_mime("text/xml"), ContentType::Xml);
    assert_eq!(ContentType::from_mime("Text/Plain"), ContentType::Text);
    assert_eq!(
        ContentType::from_mime("Image/PNG"),
        ContentType::Custom("Image/PNG".to_string())
    );
}

#[test]
fn content_type_from_arabic_names() {
    assert_eq!(ContentType::from_arabic("جسون"), ContentType::Json);
    assert_eq!(ContentType::from_arabic("json"), ContentType::Json);
    assert_eq!(ContentType::from_arabic("إكس إم إل"), ContentType::Xml);
    assert_eq!(ContentType::from_arabic("إتش تي إم إل"), ContentType::Html);
    assert_eq!(ContentType::from_arabic("نص"), ContentType::Text);
    assert_eq!(ContentType::from_arabic("binary"), ContentType::Binary);
    assert_eq!(
        ContentType::from_arabic("JSON"),
        ContentType::Custom("JSON".to_string())
    );
}

#[test]
fn time_span_units() {
    assert_eq!(TimeSpan::from_secs(2).nanos, 2_000_000_000);
    assert_eq!(TimeSpan::from_millis(500).nanos, 500_000_000);
    assert_eq!(TimeSpan::from_nanos(7).nanos, 7);
    assert_eq!(
        TimeSpan::from_secs(u64::MAX).nanos,
        u64::MAX as u128 * 1_000_000_000
    );
}

#[test]
fn content_type_from_lowercase_mime() {
    assert_eq!(
        ContentType::from_lowercase_mime("multipart/mixed", "Multipart/Mixed"),
        ContentType::Multipart
    );
    assert_eq!(
        ContentType::from_lowercase_mime("application/x-www-form-urlencoded", "x"),
        ContentType::UrlEncoded
    );
    assert_eq!(
        ContentType::from_lowercase_mime("image/png", "Image/PNG"),
        ContentType::Custom("Image/PNG".to_string())
    );
    assert_eq!(
        ContentType::from_lowercase_mime("Text/Plain", "Text/Plain"),
        ContentType::Custom("Text/Plain".to_string())
    );
}
