use object_storage::file_storage::{FileStorage, FileStorageConfig, StorageCall, StorageReply};
use object_storage::http::{
    empty_response, HttpMethod, HttpReq, LineRead, StatusClass, BAD_REQUEST, NOT_FOUND,
    OK_RESPONSE, SERVER_ERROR,
};
use object_storage::http_client::{HttpClient, RequestBuilder};
use object_storage::http_handler::{
    Handler, HandlerEvent, HandlerStep, HttpHandler, Transfer,
};
use object_storage::server::{
    Action, Connection, Event, HttpServer, HttpServerConfig, Router, ServerSetup,
};
use object_storage::thread_pool::PoolCreationError;
use std::collections::BTreeMap;

/// One end of a connection, held in memory.
struct Wire {
    input: Vec<u8>,
    at: usize,
    output: Vec<u8>,
    fail_reads_from: Option<usize>,
}

impl Wire {
    fn new(input: &[u8]) -> Self {
        Wire { input: input.to_vec(), at: 0, output: Vec::new(), fail_reads_from: None }
    }

    fn read_line(&mut self) -> LineRead {
        if let Some(limit) = self.fail_reads_from {
            if self.at >= limit {
                return LineRead::Failed;
            }
        }
        let rest = &self.input[self.at..];
        let len = match rest.iter().position(|byte| *byte == b'\n') {
            Some(place) => place + 1,
            None => rest.len(),
        };
        let line = rest[..len].to_vec();
        self.at += len;
        match String::from_utf8(line) {
            Ok(line) => LineRead::Line(line),
            Err(_) => LineRead::Failed,
        }
    }

    fn read(&mut self, len: usize) -> Vec<u8> {
        let end = (self.at + len).min(self.input.len());
        let bytes = self.input[self.at..end].to_vec();
        self.at = end;
        bytes
    }
}

/// Buckets and objects, held in memory.
struct Memory {
    buckets: BTreeMap<String, BTreeMap<String, Vec<u8>>>,
    open: Vec<u8>,
    created: (String, String),
    calls: Vec<StorageCall>,
}

impl Memory {
    fn new() -> Self {
        Memory {
            buckets: BTreeMap::new(),
            open: Vec::new(),
            created: (String::new(), String::new()),
            calls: Vec::new(),
        }
    }

    fn call(&mut self, call: StorageCall) -> StorageReply {
        self.calls.push(call.clone());
        match call {
            StorageCall::CreateRoot { .. } => StorageReply::Done,
            StorageCall::BucketExists { bucket, .. } => {
                StorageReply::Exists(self.buckets.contains_key(&bucket))
            }
            StorageCall::CreateBucket { bucket, .. } => {
                if self.buckets.contains_key(&bucket) {
                    StorageReply::Failed
                } else {
                    self.buckets.insert(bucket, BTreeMap::new());
                    StorageReply::Done
                }
            }
            StorageCall::DeleteBucket { bucket, .. } => match self.buckets.remove(&bucket) {
                Some(_) => StorageReply::Done,
                None => StorageReply::Missing,
            },
            StorageCall::OpenObject { bucket, object, .. } => {
                match self.buckets.get(&bucket).and_then(|objects| objects.get(&object)) {
                    Some(bytes) => {
                        self.open = bytes.clone();
                        StorageReply::Opened { size: bytes.len() as u64 }
                    }
                    None => StorageReply::Missing,
                }
            }
            StorageCall::CreateObject { bucket, object, .. } => {
                match self.buckets.get_mut(&bucket) {
                    Some(objects) => {
                        objects.insert(object.clone(), Vec::new());
                        self.created = (bucket, object);
                        StorageReply::Created
                    }
                    None => StorageReply::Missing,
                }
            }
        }
    }

    fn append(&mut self, bytes: &[u8]) {
        let (bucket, object) = self.created.clone();
        self.buckets.get_mut(&bucket).unwrap().get_mut(&object).unwrap().extend_from_slice(bytes);
    }
}

/// Lets `handler` deal with `request`. Returns whether it asked to close the connection.
fn handle<H: HttpHandler>(
    handler: &H,
    request: &HttpReq,
    wire: &mut Wire,
    memory: &mut Memory,
) -> bool {
    let mut event = HandlerEvent::Request;
    for _ in 0..16 {
        match handler.handle_request(request, event) {
            HandlerStep::Respond { response, close } => {
                wire.output.extend_from_slice(response.as_bytes());
                return close;
            }
            HandlerStep::Call { call } => {
                event = HandlerEvent::Storage(memory.call(call));
            }
            HandlerStep::SendObject { head, size } => {
                wire.output.extend_from_slice(head.as_bytes());
                let object = memory.open.clone();
                assert_eq!(size, object.len() as u64);
                let mut transfer = Transfer::new(size);
                loop {
                    let from = transfer.moved() as usize;
                    let len = transfer.next_len();
                    wire.output.extend_from_slice(&object[from..from + len]);
                    if transfer.advance(len) {
                        break;
                    }
                }
                return false;
            }
            HandlerStep::ReceiveObject { size } => {
                let mut transfer = Transfer::new(size);
                loop {
                    let bytes = wire.read(transfer.next_len());
                    memory.append(&bytes);
                    if transfer.advance(bytes.len()) {
                        break;
                    }
                }
                event = HandlerEvent::Storage(StorageReply::Done);
            }
            HandlerStep::ReadLine => {
                event = HandlerEvent::Line(wire.read_line());
            }
        }
    }
    panic!("the handler does not come to an end");
}

/// Serves the connection `wire` until it is closed. Returns the number of requests that
/// were given to a handler.
fn serve<H: HttpHandler>(
    handlers: &Vec<H>,
    router: &Router,
    wire: &mut Wire,
    memory: &mut Memory,
) -> usize {
    let mut handled = 0;
    let mut connection = Connection::new();
    let mut event = Event::Read(wire.read_line());
    loop {
        let (next, action) = connection.step(router, event);
        connection = next;
        match action {
            Action::ReadLine => {
                event = Event::Read(wire.read_line());
            }
            Action::Reply { response, close } => {
                wire.output.extend_from_slice(response.as_bytes());
                if close {
                    assert!(connection.is_closed());
                    return handled;
                }
                event = Event::Read(wire.read_line());
            }
            Action::Invoke { handler, request } => {
                handled += 1;
                let close = handle(&handlers[handler], &request, wire, memory);
                event = Event::Handled { close };
            }
            Action::Close => {
                assert!(connection.is_closed());
                return handled;
            }
        }
    }
}

struct TestHandler;

impl TestHandler {
    fn answer(response: String) -> HandlerStep {
        HandlerStep::Respond { response, close: true }
    }
}

impl HttpHandler for TestHandler {
    fn handle_request(&self, req: &HttpReq, event: HandlerEvent) -> HandlerStep {
        if req.headers.contains_key("content-length") {
            match event {
                HandlerEvent::Request => HandlerStep::ReadLine,
                HandlerEvent::Line(LineRead::Line(line)) if line == "helloworld\r\n" => {
                    Self::answer(empty_response(201, StatusClass::Success))
                }
                _ => Self::answer(BAD_REQUEST.to_string()),
            }
        } else if req.headers.contains_key("x-query") {
            let hello = req.query_params.get("hello");
            let test = req.query_params.get("test");
            if hello.is_none() || test.is_none() {
                Self::answer(BAD_REQUEST.to_string())
            } else if hello.unwrap() == "world" && test.unwrap() == "1" {
                Self::answer(empty_response(205, StatusClass::Success))
            } else {
                Self::answer(BAD_REQUEST.to_string())
            }
        } else {
            Self::answer(empty_response(200, StatusClass::Success))
        }
    }

    fn path(&self) -> &str {
        "/hello"
    }

    fn method(&self) -> HttpMethod {
        HttpMethod::GET
    }
}

/// Sends `request` to a server with the one handler `TestHandler` and gives the status of
/// what comes back.
fn send(request: RequestBuilder) -> u16 {
    let encoded = request.encode().unwrap();
    let mut input = encoded.head.into_bytes();
    input.extend_from_slice(&encoded.body);
    let handlers = vec![TestHandler];
    let router = HttpServer::create_handler_map(&handlers);
    let mut wire = Wire::new(&input);
    serve(&handlers, &router, &mut wire, &mut Memory::new());
    RequestBuilder::response(&String::from_utf8(wire.output).unwrap()).status()
}

fn send_req(port: u16, method: HttpMethod, path: &str) -> u16 {
    let client = HttpClient::new();
    let url = format!("http://localhost:{}/{}", port, path);
    let request = match method {
        HttpMethod::GET => client.get(&url),
        HttpMethod::POST => client.post(&url),
        _ => panic!("unknown method"),
    };
    send(request)
}

#[test]
fn send_fine_request() {
    assert_eq!(200, send_req(8080, HttpMethod::GET, "hello"));
}

#[test]
fn send_unknown_method() {
    assert_eq!(404, send_req(8081, HttpMethod::POST, "hello"));
}

#[test]
fn send_unknown_path() {
    assert_eq!(404, send_req(8082, HttpMethod::GET, "hoho"));
}

#[test]
fn send_body() {
    let client = HttpClient::new();
    let req = client
        .get("http://localhost:8083/hello")
        .header("content-length", "?")
        .body("helloworld\r\n");

    assert_eq!(201, send(req));
}

#[test]
fn send_query_params() {
    let client = HttpClient::new();
    let req = client.get("http://localhost:8084/hello?hello=world&test=1").header("X-QUERY", "?");

    assert_eq!(205, send(req));
}

#[test]
fn send_wrong_query_params() {
    let client = HttpClient::new();
    let req = client.get("http://localhost:8084/hello?hello=world&test=2").header("X-QUERY", "?");
    assert_eq!(400, send(req));
    let req = client.get("http://localhost:8084/hello?hello=world").header("x-query", "?");
    assert_eq!(400, send(req));
}

#[test]
fn router_finds_what_was_registered() {
    let mut router = Router::new();
    assert_eq!(router.lookup(HttpMethod::GET, "/hello"), None);
    router.register(HttpMethod::GET, "/hello", 7);
    router.register(HttpMethod::POST, "/hello", 8);
    router.register(HttpMethod::DELETE, "/bye", 9);
    assert_eq!(router.lookup(HttpMethod::GET, "/hello"), Some(7));
    assert_eq!(router.lookup(HttpMethod::POST, "/hello"), Some(8));
    assert_eq!(router.lookup(HttpMethod::DELETE, "/bye"), Some(9));
    assert_eq!(router.lookup(HttpMethod::DELETE, "/hello"), None);
    assert_eq!(router.lookup(HttpMethod::GET, "/bye"), None);
}

#[test]
fn router_matches_paths_as_they_are_written() {
    let mut router = Router::new();
    router.register(HttpMethod::GET, "/hello", 0);
    for path in ["/hello/", "/Hello", "hello", "/hell", "/hello?x=1", "/hello ", ""] {
        assert_eq!(router.lookup(HttpMethod::GET, path), None, "{:?}", path);
    }
}

#[test]
fn a_later_registration_replaces_an_earlier_one() {
    let mut router = Router::new();
    router.register(HttpMethod::GET, "/hello", 1);
    router.register(HttpMethod::GET, "/hello", 2);
    assert_eq!(router.lookup(HttpMethod::GET, "/hello"), Some(2));

    let bindings = vec![
        (HttpMethod::GET, "/a".to_string()),
        (HttpMethod::POST, "/a".to_string()),
        (HttpMethod::GET, "/a".to_string()),
        (HttpMethod::GET, "/b".to_string()),
    ];
    let router = HttpServer::routes(&bindings);
    assert_eq!(router.lookup(HttpMethod::GET, "/a"), Some(2));
    assert_eq!(router.lookup(HttpMethod::POST, "/a"), Some(1));
    assert_eq!(router.lookup(HttpMethod::GET, "/b"), Some(3));
    assert_eq!(router.lookup(HttpMethod::DELETE, "/a"), None);
    assert_eq!(HttpServer::routes(&Vec::new()).lookup(HttpMethod::GET, "/a"), None);
}

#[test]
fn bindings_are_what_the_handlers_answer() {
    assert_eq!(HttpServer::bindings(&Vec::<TestHandler>::new()), Vec::new());
    assert_eq!(
        HttpServer::bindings(&vec![TestHandler, TestHandler]),
        vec![(HttpMethod::GET, "/hello".to_string()), (HttpMethod::GET, "/hello".to_string())]
    );
}

#[test]
fn handler_map_binds_each_handler_to_its_place() {
    let handlers = vec![TestHandler, TestHandler];
    let router = HttpServer::create_handler_map(&handlers);
    assert_eq!(router.lookup(HttpMethod::GET, "/hello"), Some(1));
    assert_eq!(router.lookup(HttpMethod::POST, "/hello"), None);
    assert_eq!(router.lookup(HttpMethod::GET, "/hoho"), None);
}

#[test]
fn the_object_store_serves_its_five_endpoints() {
    let storage = FileStorage::new(FileStorageConfig::new());
    let handlers = Handler::all(&storage);
    for router in
        [HttpServer::create_handler_map(&handlers), HttpServer::routes(&Handler::bindings(&handlers))]
    {
        assert_eq!(router.lookup(HttpMethod::POST, "/bucket"), Some(0));
        assert_eq!(router.lookup(HttpMethod::DELETE, "/bucket"), Some(1));
        assert_eq!(router.lookup(HttpMethod::GET, "/bucket"), Some(2));
        assert_eq!(router.lookup(HttpMethod::GET, "/object"), Some(3));
        assert_eq!(router.lookup(HttpMethod::POST, "/object"), Some(4));
        assert_eq!(router.lookup(HttpMethod::DELETE, "/object"), None);
        assert_eq!(router.lookup(HttpMethod::GET, "/"), None);
    }
}

#[test]
fn server_is_set_up_as_its_config_says() {
    let setup: ServerSetup<TestHandler, u32> = HttpServer::start(HttpServerConfig::new()).unwrap();
    assert_eq!(setup.address, "127.0.0.1:8080");
    assert_eq!(setup.handlers.len(), 0);
    assert_eq!(setup.pool.size(), 4);
    assert_eq!(setup.pool.running(), 0);
    assert_eq!(setup.pool.waiting(), 0);
    assert_eq!(setup.router.lookup(HttpMethod::GET, "/hello"), None);

    let config = HttpServerConfig::new().port(9).pool_size(2).handlers(vec![TestHandler]);
    let setup: ServerSetup<TestHandler, u32> = HttpServer::start(config).unwrap();
    assert_eq!(setup.address, "127.0.0.1:9");
    assert_eq!(setup.handlers.len(), 1);
    assert_eq!(setup.bindings, vec![(HttpMethod::GET, "/hello".to_string())]);
    assert_eq!(setup.pool.size(), 2);
    assert_eq!(setup.router.lookup(HttpMethod::GET, "/hello"), Some(0));
}

#[test]
fn server_without_workers_is_not_set_up() {
    let config = HttpServerConfig::new().pool_size(0).handlers(vec![TestHandler]);
    let setup: Result<ServerSetup<TestHandler, u32>, PoolCreationError> = HttpServer::start(config);
    assert_eq!(setup.err(), Some(PoolCreationError));
}

#[test]
fn bind_address_is_the_port_of_the_local_host() {
    assert_eq!(HttpServer::bind_address(8080), "127.0.0.1:8080");
    assert_eq!(HttpServer::bind_address(0), "127.0.0.1:0");
    assert_eq!(HttpServer::bind_address(65535), "127.0.0.1:65535");
}

fn line(text: &str) -> Event {
    Event::Read(LineRead::Line(text.to_string()))
}

fn test_router() -> Router {
    HttpServer::create_handler_map(&vec![TestHandler])
}

#[test]
fn end_of_stream_closes_the_connection_without_an_answer() {
    let (connection, action) = Connection::new().step(&test_router(), line(""));
    assert!(connection.is_closed());
    assert!(matches!(action, Action::Close));
}

#[test]
fn failed_read_of_the_request_line_is_answered_with_500() {
    let (connection, action) = Connection::new().step(&test_router(), Event::Read(LineRead::Failed));
    assert!(connection.is_closed());
    assert!(matches!(action, Action::Reply { response: SERVER_ERROR, close: true }));
}

#[test]
fn malformed_request_line_is_answered_with_400_and_closes() {
    for text in ["GET\r\n", "\r\n", "PUT /hello HTTP/1.1\r\n", "   \n"] {
        let (connection, action) = Connection::new().step(&test_router(), line(text));
        assert!(connection.is_closed(), "{:?}", text);
        assert!(matches!(action, Action::Reply { response: BAD_REQUEST, close: true }));
    }
}

#[test]
fn failed_read_in_the_header_block_is_answered_with_400_and_closes() {
    let router = test_router();
    let (connection, action) = Connection::new().step(&router, line("GET /hello HTTP/1.1\r\n"));
    assert!(matches!(connection, Connection::ParsingHeaders { .. }));
    assert!(matches!(action, Action::ReadLine));
    let (connection, action) = connection.step(&router, line("Host: x\r\n"));
    assert!(matches!(action, Action::ReadLine));
    let (connection, action) = connection.step(&router, Event::Read(LineRead::Failed));
    assert!(connection.is_closed());
    assert!(matches!(action, Action::Reply { response: BAD_REQUEST, close: true }));
}

#[test]
fn request_is_given_to_its_handler_with_headers_and_parameters() {
    let router = test_router();
    let (connection, _) = Connection::new().step(&router, line("GET /hello?a=1&b=2 HTTP/1.1\r\n"));
    let (connection, _) = connection.step(&router, line("Content-Type: text/plain\r\n"));
    let (connection, _) = connection.step(&router, line("not a field\r\n"));
    let (connection, _) = connection.step(&router, line("X-Query: ?\r\n"));
    let (connection, action) = connection.step(&router, line("\r\n"));
    assert!(matches!(connection, Connection::Handling));
    match action {
        Action::Invoke { handler, request } => {
            assert_eq!(handler, 0);
            assert_eq!(request.method, HttpMethod::GET);
            assert_eq!(request.path, "/hello");
            assert_eq!(request.query_params.len(), 2);
            assert_eq!(request.query_params.get("a").unwrap(), "1");
            assert_eq!(request.query_params.get("b").unwrap(), "2");
            assert_eq!(request.headers.len(), 2);
            assert_eq!(request.headers.get("content-type").unwrap(), " text/plain\r\n");
            assert_eq!(request.headers.get("x-query").unwrap(), " ?\r\n");
        }
        _ => panic!("the request was not given to a handler"),
    }
    let (connection, action) = connection.step(&router, Event::Handled { close: false });
    assert!(matches!(connection, Connection::AwaitingRequest));
    assert!(matches!(action, Action::ReadLine));
}

#[test]
fn handler_can_ask_for_the_connection_to_be_closed() {
    let router = test_router();
    let (connection, _) = Connection::new().step(&router, line("GET /hello HTTP/1.1\r\n"));
    let (connection, _) = connection.step(&router, line("\r\n"));
    let (connection, action) = connection.step(&router, Event::Handled { close: true });
    assert!(connection.is_closed());
    assert!(matches!(action, Action::Close));
}

#[test]
fn request_without_handler_is_answered_with_404_and_the_connection_goes_on() {
    let router = test_router();
    for request_line in ["POST /hello HTTP/1.1\r\n", "GET /hoho HTTP/1.1\r\n", "DELETE / x\r\n"] {
        let (connection, _) = Connection::new().step(&router, line(request_line));
        let (connection, action) = connection.step(&router, line("\r\n"));
        assert!(matches!(connection, Connection::AwaitingRequest));
        assert!(matches!(action, Action::Reply { response: NOT_FOUND, close: false }));
        let (connection, action) = connection.step(&router, line("GET /hello HTTP/1.1\r\n"));
        assert!(matches!(connection, Connection::ParsingHeaders { .. }));
        assert!(matches!(action, Action::ReadLine));
    }
}

#[test]
fn failed_write_closes_the_connection() {
    let router = test_router();
    let (connection, action) = Connection::new().step(&router, Event::WriteFailed);
    assert!(connection.is_closed());
    assert!(matches!(action, Action::Close));
    let (connection, _) = Connection::new().step(&router, line("GET /hello HTTP/1.1\r\n"));
    let (connection, action) = connection.step(&router, Event::WriteFailed);
    assert!(connection.is_closed());
    assert!(matches!(action, Action::Close));
    let (connection, _) = Connection::new().step(&router, line("GET /hello HTTP/1.1\r\n"));
    let (connection, _) = connection.step(&router, line("\r\n"));
    let (connection, action) = connection.step(&router, Event::WriteFailed);
    assert!(connection.is_closed());
    assert!(matches!(action, Action::Close));
}

#[test]
fn unexpected_event_closes_the_connection() {
    let router = test_router();
    let (connection, action) = Connection::new().step(&router, Event::Handled { close: false });
    assert!(connection.is_closed());
    assert!(matches!(action, Action::Close));
    let (connection, _) = Connection::new().step(&router, line("GET /hello HTTP/1.1\r\n"));
    let (connection, _) = connection.step(&router, line("\r\n"));
    let (connection, action) = connection.step(&router, line("GET /hello HTTP/1.1\r\n"));
    assert!(connection.is_closed());
    assert!(matches!(action, Action::Close));
    let (connection, action) = connection.step(&router, line("GET /hello HTTP/1.1\r\n"));
    assert!(connection.is_closed());
    assert!(matches!(action, Action::Close));
}

/// Sends `input` to the object store over `memory` on one connection and gives what the
/// server writes.
fn object_store(memory: &mut Memory, input: &[u8]) -> String {
    let storage = FileStorage::new(FileStorageConfig::new());
    let handlers = Handler::all(&storage);
    let router = HttpServer::create_handler_map(&handlers);
    let mut wire = Wire::new(input);
    serve(&handlers, &router, &mut wire, memory);
    String::from_utf8(wire.output).unwrap()
}

fn status(response: &str) -> u16 {
    RequestBuilder::extract_status(response).unwrap()
}

#[test]
fn buckets_and_objects_from_end_to_end() {
    let mut memory = Memory::new();
    let response = object_store(&mut memory, b"POST /bucket?bucket_name=photos HTTP/1.1\r\n\r\n");
    assert_eq!(response, OK_RESPONSE);
    assert_eq!(status(&response), 200);

    let response = object_store(&mut memory, b"GET /bucket?bucket_name=photos HTTP/1.1\r\n\r\n");
    assert_eq!(status(&response), 200);

    let response = object_store(
        &mut memory,
        b"POST /object?bucket_name=photos&object_name=a.txt HTTP/1.1\r\ncontent-length: 5\r\n\r\nhello",
    );
    assert_eq!(status(&response), 200);
    assert_eq!(memory.buckets["photos"]["a.txt"], b"hello");

    let response = object_store(
        &mut memory,
        b"GET /object?bucket_name=photos&object_name=a.txt HTTP/1.1\r\n\r\n",
    );
    assert_eq!(status(&response), 200);
    assert_eq!(
        response,
        "HTTP/1.1 200 OK\r\nContent-type: application/octet-stream\r\nContent-length: 5\r\n\r\nhello"
    );

    let response = object_store(&mut memory, b"DELETE /bucket?bucket_name=photos HTTP/1.1\r\n\r\n");
    assert_eq!(status(&response), 200);

    let response = object_store(&mut memory, b"GET /bucket?bucket_name=photos HTTP/1.1\r\n\r\n");
    assert_eq!(status(&response), 404);
    assert_eq!(response, NOT_FOUND);
}

#[test]
fn requests_on_one_connection_are_served_one_after_the_other() {
    let mut memory = Memory::new();
    let input = b"POST /bucket?bucket_name=photos HTTP/1.1\r\nHost: x\r\n\r\n\
        POST /object?bucket_name=photos&object_name=a.txt HTTP/1.1\r\nContent-Length: 5\r\n\r\nhello\
        GET /nothing HTTP/1.1\r\n\r\n\
        GET /object?bucket_name=photos&object_name=a.txt HTTP/1.1\r\n\r\n\
        GET /object?bucket_name=photos&object_name=b.txt HTTP/1.1\r\n\r\n\
        GET /bucket HTTP/1.1\r\n\r\n";
    let response = object_store(&mut memory, input);
    let expected = format!(
        "{}{}{}{}hello{}{}",
        OK_RESPONSE,
        OK_RESPONSE,
        NOT_FOUND,
        "HTTP/1.1 200 OK\r\nContent-type: application/octet-stream\r\nContent-length: 5\r\n\r\n",
        NOT_FOUND,
        BAD_REQUEST
    );
    assert_eq!(response, expected);
}

#[test]
fn upload_takes_no_more_than_the_declared_length() {
    let mut memory = Memory::new();
    memory.buckets.insert("b".to_string(), BTreeMap::new());
    let input = b"POST /object?bucket_name=b&object_name=o HTTP/1.1\r\ncontent-length: 3\r\n\r\nabc\
        GET /bucket?bucket_name=b HTTP/1.1\r\n\r\n";
    let response = object_store(&mut memory, input);
    assert_eq!(memory.buckets["b"]["o"], b"abc");
    assert_eq!(response, format!("{}{}", OK_RESPONSE, OK_RESPONSE));
}

#[test]
fn upload_of_nothing_stores_an_empty_object() {
    let mut memory = Memory::new();
    memory.buckets.insert("b".to_string(), BTreeMap::new());
    let input = b"POST /object?bucket_name=b&object_name=o HTTP/1.1\r\ncontent-length: 0\r\n\r\n\
        GET /object?bucket_name=b&object_name=o HTTP/1.1\r\n\r\n";
    let response = object_store(&mut memory, input);
    assert_eq!(memory.buckets["b"]["o"], b"");
    assert_eq!(
        response,
        format!(
            "{}{}",
            OK_RESPONSE,
            "HTTP/1.1 200 OK\r\nContent-type: application/octet-stream\r\nContent-length: 0\r\n\r\n"
        )
    );
}

#[test]
fn an_object_comes_back_as_it_was_sent() {
    let mut memory = Memory::new();
    memory.buckets.insert("b".to_string(), BTreeMap::new());
    let payload: Vec<u8> = (0..3_000_000u32).map(|i| b'a' + (i % 26) as u8).collect();
    let mut input = format!(
        "POST /object?bucket_name=b&object_name=o HTTP/1.1\r\nContent-Length: {}\r\n\r\n",
        payload.len()
    )
    .into_bytes();
    input.extend_from_slice(&payload);
    input.extend_from_slice(b"GET /object?bucket_name=b&object_name=o HTTP/1.1\r\n\r\n");
    let response = object_store(&mut memory, &input);
    assert_eq!(memory.buckets["b"]["o"], payload);
    let head = format!(
        "{}HTTP/1.1 200 OK\r\nContent-type: application/octet-stream\r\nContent-length: {}\r\n\r\n",
        OK_RESPONSE,
        payload.len()
    );
    assert!(response.starts_with(&head));
    assert_eq!(response.as_bytes()[head.len()..], payload[..]);
}

#[test]
fn creating_a_bucket_twice_and_deleting_it_twice_is_answered_with_200() {
    let mut memory = Memory::new();
    let create = b"POST /bucket?bucket_name=photos HTTP/1.1\r\n\r\n";
    let delete = b"DELETE /bucket?bucket_name=photos HTTP/1.1\r\n\r\n";
    assert_eq!(object_store(&mut memory, create), OK_RESPONSE);
    assert_eq!(object_store(&mut memory, create), OK_RESPONSE);
    let created = memory
        .calls
        .iter()
        .filter(|call| matches!(call, StorageCall::CreateBucket { .. }))
        .count();
    assert_eq!(created, 1);
    assert_eq!(object_store(&mut memory, delete), OK_RESPONSE);
    assert_eq!(object_store(&mut memory, delete), OK_RESPONSE);
    assert_eq!(object_store(&mut memory, delete), OK_RESPONSE);
}

#[test]
fn storing_into_a_bucket_that_does_not_exist_is_answered_with_404() {
    let mut memory = Memory::new();
    let input = b"POST /object?bucket_name=b&object_name=o HTTP/1.1\r\ncontent-length: 0\r\n\r\n";
    assert_eq!(object_store(&mut memory, input), NOT_FOUND);
}

#[test]
fn a_body_that_no_handler_took_is_read_as_the_next_request() {
    let mut memory = Memory::new();
    let input = b"POST /object?bucket_name=b&object_name=o HTTP/1.1\r\ncontent-length: 3\r\n\r\nabc";
    assert_eq!(object_store(&mut memory, input), format!("{}{}", NOT_FOUND, BAD_REQUEST));
}

#[test]
fn malformed_request_ends_the_connection() {
    let mut memory = Memory::new();
    let input = b"GET /bucket?bucket_name=b HTTP/1.1\r\n\r\n\
        nonsense\r\n\r\n\
        GET /bucket?bucket_name=b HTTP/1.1\r\n\r\n";
    assert_eq!(object_store(&mut memory, input), format!("{}{}", NOT_FOUND, BAD_REQUEST));
}

#[test]
fn read_failure_ends_the_connection_with_500() {
    let storage = FileStorage::new(FileStorageConfig::new());
    let handlers = Handler::all(&storage);
    let router = HttpServer::create_handler_map(&handlers);
    let first = b"GET /bucket?bucket_name=b HTTP/1.1\r\n\r\n";
    let mut wire = Wire::new(first);
    wire.fail_reads_from = Some(first.len());
    let handled = serve(&handlers, &router, &mut wire, &mut Memory::new());
    assert_eq!(handled, 1);
    assert_eq!(String::from_utf8(wire.output).unwrap(), format!("{}{}", NOT_FOUND, SERVER_ERROR));
}
