use crosspoint_service::http::{
    method_named, HttpError, HttpMethod, HttpRequest, HttpResponse, HttpResponseCode,
};

fn parse(text: &str) -> Result<HttpRequest, HttpError> {
    HttpRequest::read(text.as_bytes().to_vec())
}

fn refused(bytes: &[u8]) -> (i32, String) {
    match HttpRequest::read(bytes.to_vec()) {
        Ok(_) => panic!("the request was accepted"),
        Err(e) => (e.code.code, e.message),
    }
}

fn header(request: &HttpRequest, name: &str) -> Option<String> {
    request.headers.get(name).cloned()
}

fn param(request: &HttpRequest, name: &str) -> Option<String> {
    request.query_params.get(name).cloned()
}

#[test]
fn response_code_descriptions() {
    assert_eq!(HttpResponseCode::new(200).description(), "OK");
    assert_eq!(HttpResponseCode::new(400).description(), "Bad Request");
    assert_eq!(HttpResponseCode::new(404).description(), "Not Found");
    assert_eq!(HttpResponseCode::new(500).description(), "Bad Request");
    assert_eq!(HttpResponseCode::new(0).description(), "Bad Request");
    assert_eq!(HttpResponseCode::new(200).code, 200);
}

#[test]
fn error_keeps_code_and_message() {
    let error = HttpError::new(404, "File not found");
    assert_eq!(error.code, HttpResponseCode { code: 404 });
    assert_eq!(error.message, "File not found");
    assert_eq!(error.to_string(), "File not found");
}

#[test]
fn compose_with_content() {
    let response = HttpResponse {
        status_code: HttpResponseCode::new(200),
        content: Some(String::from("hi")),
        mime: Some(String::from("text/plain")),
    };
    assert_eq!(
        response.compose(),
        "HTTP/1.1 200 OK\nServer:CrossPointApi\nContent-Length: 2\nContent-Type: text/plain\n\nhi"
    );
}

#[test]
fn compose_without_content() {
    let response = HttpResponse {
        status_code: HttpResponseCode::new(404),
        content: None,
        mime: Some(String::from("text/plain")),
    };
    assert_eq!(response.compose(), "HTTP/1.1 404 Not Found\nServer:CrossPointApi");
}

#[test]
fn compose_counts_the_content_in_bytes() {
    let response = HttpResponse {
        status_code: HttpResponseCode::new(500),
        content: Some(String::from("Zwölf — zwölf")),
        mime: None,
    };
    assert_eq!(
        response.compose(),
        "HTTP/1.1 500 Bad Request\nServer:CrossPointApi\nContent-Length: 17\nContent-Type: \n\nZwölf — zwölf"
    );
}

#[test]
fn compose_with_empty_content_and_odd_codes() {
    let response = HttpResponse {
        status_code: HttpResponseCode::new(-7),
        content: Some(String::new()),
        mime: Some(String::from("a/b")),
    };
    assert_eq!(
        response.compose(),
        "HTTP/1.1 -7 Bad Request\nServer:CrossPointApi\nContent-Length: 0\nContent-Type: a/b\n\n"
    );
    let response =
        HttpResponse { status_code: HttpResponseCode::new(i32::MIN), content: None, mime: None };
    assert_eq!(response.compose(), "HTTP/1.1 -2147483648 Bad Request\nServer:CrossPointApi");
    let response =
        HttpResponse { status_code: HttpResponseCode::new(i32::MAX), content: None, mime: None };
    assert_eq!(response.compose(), "HTTP/1.1 2147483647 Bad Request\nServer:CrossPointApi");
    let response = HttpResponse { status_code: HttpResponseCode::new(10), content: None, mime: None };
    assert_eq!(response.compose(), "HTTP/1.1 10 Bad Request\nServer:CrossPointApi");
}

#[test]
fn method_names_in_any_case() {
    assert_eq!(HttpMethod::from_str("GET").ok(), Some(HttpMethod::GET));
    assert_eq!(HttpMethod::from_str("get").ok(), Some(HttpMethod::GET));
    assert_eq!(HttpMethod::from_str("Post").ok(), Some(HttpMethod::POST));
    assert_eq!(HttpMethod::from_str("put").ok(), Some(HttpMethod::PUT));
    assert_eq!(HttpMethod::from_str("pAtCh").ok(), Some(HttpMethod::PATCH));
    assert_eq!(HttpMethod::from_str("delete").ok(), Some(HttpMethod::DELETE));
    // The long s has `S` for its upper case.
    assert_eq!(HttpMethod::from_str("po\u{17f}t").ok(), Some(HttpMethod::POST));
}

#[test]
fn method_by_its_name_in_upper_case() {
    assert_eq!(method_named("GET"), Ok(HttpMethod::GET));
    assert_eq!(method_named("POST"), Ok(HttpMethod::POST));
    assert_eq!(method_named("PUT"), Ok(HttpMethod::PUT));
    assert_eq!(method_named("PATCH"), Ok(HttpMethod::PATCH));
    assert_eq!(method_named("DELETE"), Ok(HttpMethod::DELETE));
    for name in ["get", "Get", "", "GETS", " GET", "HEAD"] {
        assert_eq!(method_named(name), Err(HttpError::new(405, "Invalid method")), "{:?}", name);
    }
}

#[test]
fn unknown_method_is_refused_with_405() {
    for name in ["", "HEAD", "GET ", "G E T"] {
        let error = HttpMethod::from_str(name).unwrap_err();
        assert_eq!(error.code.code, 405);
        assert_eq!(error.message, "Invalid method");
    }
}

#[test]
fn request_with_query_and_headers() {
    let request = parse(
        "GET /saveCurrentToPreset?preset=3&x=y HTTP/1.1\r\nHost: localhost:8080\r\nAccept: */*\r\n\r\n",
    )
    .unwrap();
    assert_eq!(request.method, HttpMethod::GET);
    assert_eq!(request.path, "/saveCurrentToPreset");
    assert_eq!(request.http_version, "HTTP/1.1\r");
    assert_eq!(request.query_params.len(), 2);
    assert_eq!(param(&request, "preset"), Some(String::from("3")));
    assert_eq!(param(&request, "x"), Some(String::from("y")));
    assert_eq!(request.headers.len(), 2);
    assert_eq!(header(&request, "Host"), Some(String::from("localhost")));
    assert_eq!(header(&request, "Accept"), Some(String::from("*/*")));
    assert_eq!(request.content, None);
}

#[test]
fn request_without_query_or_headers() {
    let request = parse("delete /a/b HTTP/1.0").unwrap();
    assert_eq!(request.method, HttpMethod::DELETE);
    assert_eq!(request.path, "/a/b");
    assert_eq!(request.http_version, "HTTP/1.0");
    assert_eq!(request.query_params.len(), 0);
    assert_eq!(request.headers.len(), 0);
    assert_eq!(request.content, None);
}

#[test]
fn request_line_takes_its_first_three_pieces() {
    let request = parse("GET  HTTP/1.1 extra").unwrap();
    assert_eq!(request.path, "");
    assert_eq!(request.http_version, "HTTP/1.1");
    let request = parse("GET /x?a=1?b=2 v more and more").unwrap();
    assert_eq!(request.path, "/x");
    assert_eq!(param(&request, "a"), Some(String::from("1")));
    assert_eq!(param(&request, "b"), None);
    assert_eq!(request.http_version, "v");
}

#[test]
fn query_pairs() {
    let request = parse("GET /x?a=b=c&flag&\tk\t=\tv\t&=&a=z&only= HTTP/1.1").unwrap();
    assert_eq!(request.query_params.len(), 4);
    assert_eq!(param(&request, "a"), Some(String::from("z")));
    assert_eq!(param(&request, "k"), Some(String::from("v")));
    assert_eq!(param(&request, ""), Some(String::new()));
    assert_eq!(param(&request, "only"), Some(String::new()));
    assert_eq!(param(&request, "flag"), None);
    let request = parse("GET /x? HTTP/1.1").unwrap();
    assert_eq!(request.query_params.len(), 0);
}

#[test]
fn headers_end_at_the_first_line_without_a_colon() {
    let request =
        parse("GET / HTTP/1.1\nA: 1\nB : 2 \nA:3\nno colon here\nC: 4\n").unwrap();
    assert_eq!(request.headers.len(), 2);
    assert_eq!(header(&request, "A"), Some(String::from("3")));
    assert_eq!(header(&request, "B"), Some(String::from("2")));
    assert_eq!(header(&request, "C"), None);
}

#[test]
fn content_is_what_follows_that_many_bytes_of_the_request() {
    let request = parse("POST /createPreset HTTP/1.1\nContent-Length: 5\n\nhello").unwrap();
    assert_eq!(request.method, HttpMethod::POST);
    assert_eq!(
        request.content,
        Some(String::from("/createPreset HTTP/1.1\nContent-Length: 5\n\nhello"))
    );
    // 16 bytes of request line, 20 of header, one empty line, 7 of content.
    let text = "POST / HTTP/1.1\nContent-Length: +44\n\n{\"a\":1}";
    assert_eq!(text.len(), 44);
    assert_eq!(parse(text).unwrap().content, Some(String::new()));
    let text = "POST / HTTP/1.1\nContent-Length: 36\n\n{\"a\":1}";
    assert_eq!(parse(text).unwrap().content, Some(String::from("{\"a\":1}")));
}

#[test]
fn content_length_of_zero_means_no_content() {
    let request = parse("POST / HTTP/1.1\nContent-Length: 0\n\nhello").unwrap();
    assert_eq!(request.content, None);
    let request = parse("POST / HTTP/1.1\nContent-Length: 000\n\nhello").unwrap();
    assert_eq!(request.content, None);
    let request = parse("POST / HTTP/1.1\ncontent-length: 3\n\nhello").unwrap();
    assert_eq!(request.content, None);
}

#[test]
fn request_that_is_not_text_is_refused() {
    assert_eq!(
        refused(b"GET / HTTP/1.1\n\xff"),
        (400, String::from("Request content unreadable"))
    );
}

#[test]
fn request_with_an_unknown_method_is_refused_with_400() {
    assert_eq!(refused(b"BREW /pot HTTP/1.1"), (400, String::from("Invalid method")));
    assert_eq!(refused(b""), (400, String::from("Invalid method")));
    assert_eq!(refused(b" GET / HTTP/1.1"), (400, String::from("Invalid method")));
}

#[test]
fn request_line_without_target_or_version_is_refused() {
    assert_eq!(refused(b"GET"), (400, String::from("Malformed request line")));
    assert_eq!(refused(b"GET /"), (400, String::from("Malformed request line")));
    assert_eq!(refused(b"GET\n/ HTTP/1.1"), (400, String::from("Malformed request line")));
}

#[test]
fn content_length_that_cannot_be_used_is_refused() {
    let invalid = (400, String::from("Invalid content length"));
    assert_eq!(refused(b"POST / HTTP/1.1\nContent-Length: five\n\nhello"), invalid);
    assert_eq!(refused(b"POST / HTTP/1.1\nContent-Length: -1\n\nhello"), invalid);
    assert_eq!(refused(b"POST / HTTP/1.1\nContent-Length:\n\nhello"), invalid);
    assert_eq!(refused(b"POST / HTTP/1.1\nContent-Length: 46\n\n{\"a\":1}"), invalid);
    assert_eq!(
        refused(b"POST / HTTP/1.1\nContent-Length: 99999999999999999999999999\n\nhello"),
        invalid
    );
    // Byte 37 lies inside the two bytes of the first character of the content.
    assert_eq!(refused("POST / HTTP/1.1\nContent-Length: 37\n\nöl".as_bytes()), invalid);
    assert_eq!(
        parse("POST / HTTP/1.1\nContent-Length: 38\n\nöl").unwrap().content,
        Some(String::from("l"))
    );
}
