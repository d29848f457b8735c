use almarjaa_network::{
    new_response, new_server, ContentType, HttpMethod, HttpRequest, HttpResponseBuilder,
    HttpServer, StatusCode,
};

#[test]
fn test_server_creation() {
    let server = HttpServer::new();
    assert_eq!(server.port, 8080);
    assert_eq!(server.host, "0.0.0.0");
}

#[test]
fn test_server_port() {
    let server = HttpServer::new().port(3000);
    assert_eq!(server.port, 3000);
}

#[test]
fn test_response_builder() {
    let response = HttpResponseBuilder::new()
        .status(StatusCode::OK())
        .text("مرحبا".to_string());

    assert_eq!(response.status, StatusCode::OK());
    assert_eq!(response.body, "مرحبا");
}

#[test]
fn test_json_response() {
    let mut map = serde_json::Map::new();
    map.insert(
        "message".to_string(),
        serde_json::Value::String("مرحبا".to_string()),
    );
    let data = serde_json::Value::Object(map);
    let response = HttpResponseBuilder::new().json_text(serde_json::to_string(&data).unwrap());

    assert_eq!(response.content_type, ContentType::Json);
}

#[test]
fn test_arabic_functions() {
    let server = new_server();
    assert_eq!(server.port, 8080);

    let response = new_response();
    assert_eq!(response.status, StatusCode::OK());
}

#[test]
fn test_pattern_matching() {
    let server = HttpServer::new();

    assert!(server.match_pattern("/", "/"));
    assert!(server.match_pattern("/users/:id", "/users/123"));
    assert!(!server.match_pattern("/users", "/posts"));
}

#[test]
fn test_route_handling() {
    let mut server = HttpServer::new();

    server.get("/", |_req: &HttpRequest| {
        HttpResponseBuilder::new().text("الصفحة الرئيسية".to_string())
    });

    let request = HttpRequest::new(HttpMethod::Get, "/".to_string());
    let response = server.handle(&request);

    assert_eq!(response.status, StatusCode::OK());
    assert_eq!(response.body, "الصفحة الرئيسية");
}

#[test]
fn test_404_response() {
    let mut server = HttpServer::new();

    let request = HttpRequest::new(HttpMethod::Get, "/nonexistent".to_string());
    let response = server.handle(&request);

    assert_eq!(response.status, StatusCode::NOT_FOUND());
}

#[test]
fn request_accessors() {
    let mut req = HttpRequest::new(HttpMethod::Get, "/p".to_string());
    assert_eq!(req.method, HttpMethod::Get);
    assert_eq!(req.body, "");
    assert_eq!(req.remote_addr, None);
    req.query.insert("q".to_string(), "1".to_string());
    req.cookies.insert("c".to_string(), "2".to_string());
    req.headers.insert("Accept".to_string(), "*/*".to_string());
    assert_eq!(req.query("q"), Some(&"1".to_string()));
    assert_eq!(req.query("z"), None);
    assert_eq!(req.cookie("c"), Some(&"2".to_string()));
    assert_eq!(req.header("ACCEPT"), Some(&"*/*".to_string()));
}

#[test]
fn response_builder_methods() {
    let r = HttpResponseBuilder::new()
        .body("b".to_string())
        .content_type(ContentType::Xml)
        .header("X-K".to_string(), "v".to_string());
    assert_eq!(r.body, "b");
    assert_eq!(r.content_type, ContentType::Xml);
    assert_eq!(r.headers.get("x-k"), Some(&"v".to_string()));

    let h = HttpResponseBuilder::new().html("<p/>".to_string());
    assert_eq!(h.content_type, ContentType::Html);
    assert_eq!(h.body, "<p/>");

    let red = HttpResponseBuilder::new().redirect("/login");
    assert_eq!(red.status, StatusCode::FOUND());
    assert_eq!(red.headers.get("location"), Some(&"/login".to_string()));

    let nf = HttpResponseBuilder::new().not_found();
    assert_eq!(nf.status, StatusCode::NOT_FOUND());
    assert_eq!(nf.body, "غير موجود");

    let ie = HttpResponseBuilder::new().internal_error("boom");
    assert_eq!(ie.status, StatusCode::INTERNAL_SERVER_ERROR());
    assert_eq!(ie.body, "boom");

    let d = HttpResponseBuilder::default();
    assert_eq!(d.status, StatusCode::OK());
    assert_eq!(d.content_type, ContentType::Text);
}

#[test]
fn build_wire_text() {
    let r = HttpResponseBuilder::new().text("hello".to_string());
    assert_eq!(
        r.build(),
        "HTTP/1.1 200 OK\r\nContent-Type: text/plain\r\nContent-Length: 5\r\n\r\n\r\nhello"
    );
    let r = HttpResponseBuilder::new()
        .status(StatusCode::NOT_FOUND())
        .json_text("{}".to_string())
        .header("X-A".to_string(), "1".to_string());
    assert_eq!(
        r.build(),
        "HTTP/1.1 404 Not Found\r\nContent-Type: application/json\r\nContent-Length: 2\r\nx-a: 1\r\n\r\n\r\n{}"
    );
    let r = HttpResponseBuilder::new().text("مرحبا".to_string());
    assert!(r.build().contains("Content-Length: 10\r\n"));
}

#[test]
fn pattern_matching_cases() {
    let s = HttpServer::new();
    assert!(s.match_pattern("/users/:id/posts/:pid", "/users/7/posts/9"));
    assert!(!s.match_pattern("/users/:id", "/users/7/posts"));
    assert!(!s.match_pattern("/users/:id", "/accounts/7"));
    assert!(s.match_pattern("/users/:id", "/users/"));
    assert!(s.match_pattern("", ""));
    assert!(s.match_pattern("/a", "/a"));
}

#[test]
fn first_matching_route_answers() {
    let mut server = HttpServer::new();
    server.get("/users/:id", |_r: &HttpRequest| HttpResponseBuilder::new().text("param".to_string()));
    server.get("/users/me", |_r: &HttpRequest| HttpResponseBuilder::new().text("me".to_string()));
    server.post("/users/me", |r: &HttpRequest| HttpResponseBuilder::new().text(r.body.clone()));
    server.put("/x", |_r: &HttpRequest| HttpResponseBuilder::new().text("put".to_string()));
    server.delete("/x", |_r: &HttpRequest| HttpResponseBuilder::new().text("del".to_string()));

    let res = server.handle(&HttpRequest::new(HttpMethod::Get, "/users/me".to_string()));
    assert_eq!(res.body, "param");

    let mut post = HttpRequest::new(HttpMethod::Post, "/users/me".to_string());
    post.body = "payload".to_string();
    assert_eq!(server.handle(&post).body, "payload");

    assert_eq!(server.handle(&HttpRequest::new(HttpMethod::Put, "/x".to_string())).body, "put");
    assert_eq!(server.handle(&HttpRequest::new(HttpMethod::Delete, "/x".to_string())).body, "del");

    let nf = server.handle(&HttpRequest::new(HttpMethod::Patch, "/x".to_string()));
    assert_eq!(nf.status, StatusCode::NOT_FOUND());
    assert_eq!(nf.body, "غير موجود");
}

#[test]
fn server_host_and_listener() {
    let s = HttpServer::new().host("127.0.0.1").port(9090);
    assert_eq!(s.host, "127.0.0.1");
    let real = s.real_server();
    assert_eq!(real.port, 9090);
    assert_eq!(real.host, "127.0.0.1");
}

#[test]
fn parameter_segment_stands_for_any_segment() {
    let s = HttpServer::new();
    for value in ["1", "abc", "مرحبا", "", "a:b"] {
        assert!(s.match_pattern("/api/:v/items", &format!("/api/{}/items", value)));
        assert!(s.match_pattern("/api/:v", &format!("/api/{}", value)));
    }
    assert!(!s.match_pattern("/api/:v/items", "/api/1/2/items"));
}

#[test]
fn static_pattern_matches_only_itself() {
    let s = HttpServer::new();
    assert!(s.match_pattern("/users/list", "/users/list"));
    assert!(!s.match_pattern("/users/list", "/users/list/"));
    assert!(!s.match_pattern("/users/list", "/users/List"));
    assert!(!s.match_pattern("/users", "/users/"));
    assert!(!s.match_pattern("", "/"));
}
