use object_storage::http::{
    empty_response, HttpMethod, StatusClass, BAD_REQUEST, NOT_FOUND, OK_RESPONSE, SERVER_ERROR,
};
use object_storage::http_client::{EncodedRequest, HttpClient, RequestBuilder, Response};
use object_storage::http_handler::object_head;

#[test]
fn test() {
    let (host, path) =
        RequestBuilder::parse_url("http://localhost:8084/hello?hello=world&test=1").unwrap();
    assert_eq!(host, "localhost:8084");
    assert_eq!(path, "/hello?hello=world&test=1");
}

fn parse(url: &str) -> Option<(String, String)> {
    RequestBuilder::parse_url(url)
}

fn pair(host: &str, path: &str) -> Option<(String, String)> {
    Some((host.to_string(), path.to_string()))
}

#[test]
fn url_is_cut_into_host_and_path() {
    assert_eq!(parse("http://localhost:8080/"), pair("localhost:8080", "/"));
    assert_eq!(parse("http://localhost:8080//hoho"), pair("localhost:8080", "//hoho"));
    assert_eq!(parse("  http://host/a b \r\n"), pair("host", "/a b"));
    assert_eq!(parse("http:// host/x"), pair("host", "/x"));
    assert_eq!(parse("http:///x"), pair("", "/x"));
    assert_eq!(parse("http://h/http://x"), pair("h", "/http://x"));
}

#[test]
fn url_without_path_or_of_another_scheme_is_refused() {
    assert_eq!(parse("http://localhost:8080"), None);
    assert_eq!(parse("https://localhost/x"), None);
    assert_eq!(parse("HTTP://localhost/x"), None);
    assert_eq!(parse("localhost/x"), None);
    assert_eq!(parse("http:/localhost/x"), None);
    assert_eq!(parse("//localhost/x"), None);
    assert_eq!(parse(" http ://localhost/x"), None);
    assert_eq!(parse(""), None);
}

#[test]
fn status_is_the_second_term_of_the_response() {
    assert_eq!(RequestBuilder::extract_status("HTTP/1.1 200 OK\r\n\r\n"), Some(200));
    assert_eq!(RequestBuilder::extract_status(OK_RESPONSE), Some(200));
    assert_eq!(RequestBuilder::extract_status(BAD_REQUEST), Some(400));
    assert_eq!(RequestBuilder::extract_status(NOT_FOUND), Some(404));
    assert_eq!(RequestBuilder::extract_status(SERVER_ERROR), Some(500));
    assert_eq!(RequestBuilder::extract_status("  HTTP/1.1 201 OK"), Some(201));
    assert_eq!(RequestBuilder::extract_status("x 65535"), Some(65535));
    assert_eq!(RequestBuilder::extract_status("x +7 y"), Some(7));
}

#[test]
fn status_that_is_no_number_is_none() {
    assert_eq!(RequestBuilder::extract_status(""), None);
    assert_eq!(RequestBuilder::extract_status("HTTP/1.1"), None);
    assert_eq!(RequestBuilder::extract_status("HTTP/1.1  200 OK"), None);
    assert_eq!(RequestBuilder::extract_status("HTTP/1.1 OK 200"), None);
    assert_eq!(RequestBuilder::extract_status("HTTP/1.1 65536 OK"), None);
    assert_eq!(RequestBuilder::extract_status("HTTP/1.1 200\r\n"), Some(200));
    assert_eq!(RequestBuilder::extract_status("HTTP/1.1 200\r\nmore"), None);
    assert_eq!(RequestBuilder::extract_status("HTTP/1.1\t200 OK"), None);
}

#[test]
fn status_written_by_the_server_is_read_by_the_client() {
    for code in [0u16, 7, 100, 200, 201, 205, 400, 404, 500, 599, 65535] {
        for class in [
            StatusClass::Success,
            StatusClass::BadRequest,
            StatusClass::NotFound,
            StatusClass::InternalError,
        ] {
            assert_eq!(RequestBuilder::extract_status(&empty_response(code, class)), Some(code));
        }
    }
    let with_body = format!("{}hello world \r\n", object_head(12));
    assert_eq!(RequestBuilder::extract_status(&with_body), Some(200));
}

#[test]
fn response_without_status_counts_as_400() {
    assert_eq!(RequestBuilder::response("").status(), 400);
    assert_eq!(RequestBuilder::response("garbage").status(), 400);
    assert_eq!(RequestBuilder::response(NOT_FOUND).status(), 404);
    assert_eq!(RequestBuilder::response(OK_RESPONSE).status(), 200);
    assert_eq!(Response::new(201).status(), 201);
    assert_eq!(Response::new(0).status(), 0);
}

#[test]
fn get_request_is_written_with_host_and_empty_line() {
    let client = HttpClient::new();
    let encoded = client.get("http://localhost:8080/hello").encode().unwrap();
    assert_eq!(
        encoded,
        EncodedRequest {
            host: "localhost:8080".to_string(),
            head: "GET /hello HTTP/1.1\r\nHost: localhost:8080\r\n\r\n".to_string(),
            body: Vec::new(),
        }
    );
}

#[test]
fn post_request_is_written_with_fields_and_length_of_body() {
    let client = HttpClient::new();
    let encoded = client
        .post("http://localhost:8083/object?bucket_name=photos&object_name=a.txt")
        .header("X-One", "1")
        .header("content-type", "text/plain")
        .body("héllo")
        .encode()
        .unwrap();
    assert_eq!(encoded.host, "localhost:8083");
    assert_eq!(
        encoded.head,
        "POST /object?bucket_name=photos&object_name=a.txt HTTP/1.1\r\n\
         X-One: 1\r\n\
         content-type: text/plain\r\n\
         Host: localhost:8083\r\n\
         Content-Length: 6\r\n\r\n"
    );
    assert_eq!(encoded.body, "héllo".as_bytes());
}

#[test]
fn header_given_twice_keeps_its_place_and_its_last_value() {
    let encoded = HttpClient::new()
        .get("http://h/p")
        .header("a", "1")
        .header("b", "2")
        .header("a", "3")
        .header("A", "4")
        .encode()
        .unwrap();
    assert_eq!(encoded.head, "GET /p HTTP/1.1\r\na: 3\r\nb: 2\r\nA: 4\r\nHost: h\r\n\r\n");
}

#[test]
fn method_and_body_can_be_set_anew() {
    let encoded = HttpClient::new()
        .get("http://h/p")
        .body("first")
        .method(HttpMethod::DELETE)
        .body("")
        .encode()
        .unwrap();
    assert_eq!(encoded.head, "DELETE /p HTTP/1.1\r\nHost: h\r\n\r\n");
    assert!(encoded.body.is_empty());
    let encoded =
        HttpClient::new().post("http://h/p").method(HttpMethod::GET).body("ab").encode().unwrap();
    assert_eq!(encoded.head, "GET /p HTTP/1.1\r\nHost: h\r\nContent-Length: 2\r\n\r\n");
    assert_eq!(encoded.body, b"ab");
}

#[test]
fn request_for_a_url_that_cannot_be_sent_to_is_not_written() {
    assert_eq!(HttpClient::new().get("ftp://h/p").encode(), None);
    assert_eq!(HttpClient::new().post("http://h").header("a", "b").encode(), None);
}
