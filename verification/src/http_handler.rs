//! The handlers: what each one decides from a request and from what the
//! storage answered. A handler never touches the connection or the disk. It
//! says what is to be done next, and is called again with what came of it.

use crate::file_storage::{FileStorage, StorageCall, StorageCallView, StorageReply};
use crate::http::{
    spec_cut_header_line, spec_status_line, status_line, HeaderLineView, HttpMethod, HttpReq,
    HttpReqView, LineRead, LineReadView, StatusClass, BAD_REQUEST, NOT_FOUND, OK_RESPONSE,
    SERVER_ERROR,
};
use crate::text::{
    chars_of, lemma_decimal_digits, lemma_decimal_round_trip, lemma_find_is,
    lemma_trim_end_take, parse_unsigned, push_decimal, spec_decimal, spec_is_whitespace,
    spec_parse_unsigned, spec_trim, spec_trim_end, spec_trim_start, trim,
};
use vstd::prelude::*;

verus! {

/// The path under which buckets are served.
pub const BUCKET_PATH: &'static str = "/bucket";

/// The path under which objects are served.
pub const OBJECT_PATH: &'static str = "/object";

/// The largest number of bytes that is moved between connection and storage in one piece.
pub const CHUNK_SIZE: usize = 1048576;

/// Why a handler is called.
#[derive(Debug, Clone, PartialEq, Eq)]
pub enum HandlerEvent {
    /// A request has arrived for it.
    Request,
    /// The storage call it asked for has been made, or the body it asked to be stored has
    /// been dealt with; this is the storage's answer.
    Storage(StorageReply),
    /// The line of the body it asked for has been read, or could not be read.
    Line(LineRead),
}

/// What a `HandlerEvent` holds, as sequences of characters.
pub ghost enum HandlerEventView {
    Request,
    Storage(StorageReply),
    Line(LineReadView),
}

impl View for HandlerEvent {
    type V = HandlerEventView;

    open spec fn view(&self) -> HandlerEventView {
        match self {
            HandlerEvent::Request => HandlerEventView::Request,
            HandlerEvent::Storage(reply) => HandlerEventView::Storage(*reply),
            HandlerEvent::Line(read) => HandlerEventView::Line(read@),
        }
    }
}

/// What a handler wants done next.
#[derive(Debug, PartialEq, Eq)]
pub enum HandlerStep {
    /// Write `response`, which is a whole response. The request is then dealt with; `close`
    /// asks for the connection to be closed after it.
    Respond { response: String, close: bool },
    /// Make the call `call`, and call the handler again with the reply.
    Call { call: StorageCall },
    /// Write `head` and after it `size` bytes of the object that was opened last. The
    /// request is then dealt with.
    SendObject { head: String, size: u64 },
    /// Copy `size` bytes of the request's body into the object that was created last, and
    /// call the handler again with `Done`, or with `Failed` where they could not be stored.
    ReceiveObject { size: u64 },
    /// Read one line of the request's body, and call the handler again with it.
    ReadLine,
}

/// What a `HandlerStep` holds, as sequences of characters.
pub ghost enum HandlerStepView {
    Respond { response: Seq<char>, close: bool },
    Call { call: StorageCallView },
    SendObject { head: Seq<char>, size: u64 },
    ReceiveObject { size: u64 },
    ReadLine,
}

impl View for HandlerStep {
    type V = HandlerStepView;

    open spec fn view(&self) -> HandlerStepView {
        match self {
            HandlerStep::Respond { response, close } => HandlerStepView::Respond {
                response: response@,
                close: *close,
            },
            HandlerStep::Call { call } => HandlerStepView::Call { call: call@ },
            HandlerStep::SendObject { head, size } => HandlerStepView::SendObject {
                head: head@,
                size: *size,
            },
            HandlerStep::ReceiveObject { size } => HandlerStepView::ReceiveObject { size: *size },
            HandlerStep::ReadLine => HandlerStepView::ReadLine,
        }
    }
}

/// The unit of logic bound to one method and one path. It produces the whole response.
///
/// `handle_request` is called with `HandlerEvent::Request` when a request has arrived for
/// the handler, and again with the outcome of each step that asks for it, until a step ends
/// the dealing with the request.
pub trait HttpHandler {
    /// The next step in dealing with `req`, given what has happened last.
    fn handle_request(&self, req: &HttpReq, event: HandlerEvent) -> HandlerStep;

    /// The path that the handler serves. Paths match as they are written.
    fn path(&self) -> &str;

    /// The method that the handler serves.
    fn method(&self) -> HttpMethod;
}

/// The step that writes one of the server's ready responses and leaves the connection open.
pub open spec fn spec_respond(response: Seq<char>) -> HandlerStepView {
    HandlerStepView::Respond { response, close: false }
}

/// The step that writes `response` and leaves the connection open.
pub fn respond(response: &str) -> (step: HandlerStep)
    ensures
        step@ == spec_respond(response@),
{
    HandlerStep::Respond { response: response.to_owned(), close: false }
}

/// The response to a storage call that was not carried out: `404` where the storage says
/// that what was named does not exist, `500` otherwise.
pub open spec fn spec_storage_failure(reply: StorageReply) -> HandlerStepView {
    if reply is Missing {
        spec_respond(NOT_FOUND@)
    } else {
        spec_respond(SERVER_ERROR@)
    }
}

/// The answer to a storage call that was not carried out.
pub fn storage_failure(reply: StorageReply) -> (step: HandlerStep)
    ensures
        step@ == spec_storage_failure(reply),
{
    match reply {
        StorageReply::Missing => respond(NOT_FOUND),
        _ => respond(SERVER_ERROR),
    }
}

/// The value of the query parameter `name`, if the request has it.
pub open spec fn spec_param(req: HttpReqView, name: Seq<char>) -> Option<Seq<char>> {
    if req.query_params.contains_key(name) {
        Some(req.query_params[name])
    } else {
        None
    }
}

/// Creates a bucket: `POST /bucket?bucket_name=..`.
pub struct BucketCreateHandler<'a> {
    file_storage: &'a FileStorage,
}

impl<'a> BucketCreateHandler<'a> {
    /// The storage that the handler works on.
    pub closed spec fn spec_storage(&self) -> &FileStorage {
        self.file_storage
    }

    /// The handler over the storage `file_storage`.
    pub fn new(file_storage: &'a FileStorage) -> (handler: Self)
        ensures
            handler.spec_storage() == file_storage,
    {
        BucketCreateHandler { file_storage }
    }

    /// Without `bucket_name` the answer is `400`. Otherwise the storage is asked whether the
    /// bucket exists. Where it does the answer is `200` and nothing is created; where it does
    /// not, the bucket is created, and the answer is `200` once that is done. A call that the
    /// storage did not carry out is answered as `spec_storage_failure` says, and a line of
    /// the body, which the handler never asks for, with `500`.
    pub open spec fn spec_handle_request(
        &self,
        req: HttpReqView,
        event: HandlerEventView,
    ) -> HandlerStepView {
        let root = self.spec_storage().spec_data_path();
        match spec_param(req, "bucket_name"@) {
            None => spec_respond(BAD_REQUEST@),
            Some(bucket) => match event {
                HandlerEventView::Request => HandlerStepView::Call {
                    call: StorageCallView::BucketExists { root, bucket },
                },
                HandlerEventView::Storage(StorageReply::Exists(true)) => spec_respond(OK_RESPONSE@),
                HandlerEventView::Storage(StorageReply::Exists(false)) => HandlerStepView::Call {
                    call: StorageCallView::CreateBucket { root, bucket },
                },
                HandlerEventView::Storage(StorageReply::Done) => spec_respond(OK_RESPONSE@),
                HandlerEventView::Storage(reply) => spec_storage_failure(reply),
                HandlerEventView::Line(_) => spec_respond(SERVER_ERROR@),
            },
        }
    }

    /// The path that the handler serves.
    pub open spec fn spec_path(&self) -> Seq<char> {
        BUCKET_PATH@
    }

    /// The method that the handler serves.
    pub open spec fn spec_method(&self) -> HttpMethod {
        HttpMethod::POST
    }
}

impl<'a> HttpHandler for BucketCreateHandler<'a> {
    fn handle_request(&self, req: &HttpReq, event: HandlerEvent) -> (step: HandlerStep)
        ensures
            step@ == self.spec_handle_request(req@, event@),
    {
        match req.query_params.get("bucket_name") {
            None => respond(BAD_REQUEST),
            Some(bucket) => match event {
                HandlerEvent::Request => HandlerStep::Call {
                    call: self.file_storage.bucket_exists(bucket.as_str()),
                },
                HandlerEvent::Storage(StorageReply::Exists(exists)) => {
                    match self.file_storage.create_bucket(bucket.as_str(), exists) {
                        None => respond(OK_RESPONSE),
                        Some(call) => HandlerStep::Call { call },
                    }
                },
                HandlerEvent::Storage(StorageReply::Done) => respond(OK_RESPONSE),
                HandlerEvent::Storage(reply) => storage_failure(reply),
                HandlerEvent::Line(_) => respond(SERVER_ERROR),
            },
        }
    }

    fn path(&self) -> (path: &str)
        ensures
            path@ == self.spec_path(),
    {
        BUCKET_PATH
    }

    fn method(&self) -> (method: HttpMethod)
        ensures
            method == self.spec_method(),
    {
        HttpMethod::POST
    }
}

/// Deletes a bucket and all it holds: `DELETE /bucket?bucket_name=..`.
pub struct BucketDeleteHandler<'a> {
    file_storage: &'a FileStorage,
}

impl<'a> BucketDeleteHandler<'a> {
    /// The storage that the handler works on.
    pub closed spec fn spec_storage(&self) -> &FileStorage {
        self.file_storage
    }

    /// The handler over the storage `file_storage`.
    pub fn new(file_storage: &'a FileStorage) -> (handler: Self)
        ensures
            handler.spec_storage() == file_storage,
    {
        BucketDeleteHandler { file_storage }
    }

    /// Without `bucket_name` the answer is `400`. Otherwise the bucket is removed, and the
    /// answer is `200` once that is done, and also where there was no such bucket. Anything
    /// else is answered with `500`.
    pub open spec fn spec_handle_request(
        &self,
        req: HttpReqView,
        event: HandlerEventView,
    ) -> HandlerStepView {
        let root = self.spec_storage().spec_data_path();
        match spec_param(req, "bucket_name"@) {
            None => spec_respond(BAD_REQUEST@),
            Some(bucket) => match event {
                HandlerEventView::Request => HandlerStepView::Call {
                    call: StorageCallView::DeleteBucket { root, bucket },
                },
                HandlerEventView::Storage(StorageReply::Done) => spec_respond(OK_RESPONSE@),
                HandlerEventView::Storage(StorageReply::Missing) => spec_respond(OK_RESPONSE@),
                HandlerEventView::Storage(_) => spec_respond(SERVER_ERROR@),
                HandlerEventView::Line(_) => spec_respond(SERVER_ERROR@),
            },
        }
    }

    /// The path that the handler serves.
    pub open spec fn spec_path(&self) -> Seq<char> {
        BUCKET_PATH@
    }

    /// The method that the handler serves.
    pub open spec fn spec_method(&self) -> HttpMethod {
        HttpMethod::DELETE
    }
}

impl<'a> HttpHandler for BucketDeleteHandler<'a> {
    fn handle_request(&self, req: &HttpReq, event: HandlerEvent) -> (step: HandlerStep)
        ensures
            step@ == self.spec_handle_request(req@, event@),
    {
        match req.query_params.get("bucket_name") {
            None => respond(BAD_REQUEST),
            Some(bucket) => match event {
                HandlerEvent::Request => HandlerStep::Call {
                    call: self.file_storage.delete_bucket(bucket.as_str()),
                },
                HandlerEvent::Storage(StorageReply::Done) => respond(OK_RESPONSE),
                HandlerEvent::Storage(StorageReply::Missing) => respond(OK_RESPONSE),
                HandlerEvent::Storage(_) => respond(SERVER_ERROR),
                HandlerEvent::Line(_) => respond(SERVER_ERROR),
            },
        }
    }

    fn path(&self) -> (path: &str)
        ensures
            path@ == self.spec_path(),
    {
        BUCKET_PATH
    }

    fn method(&self) -> (method: HttpMethod)
        ensures
            method == self.spec_method(),
    {
        HttpMethod::DELETE
    }
}

/// Says whether a bucket exists: `GET /bucket?bucket_name=..`.
pub struct BucketExistsHandler<'a> {
    file_storage: &'a FileStorage,
}

impl<'a> BucketExistsHandler<'a> {
    /// The storage that the handler works on.
    pub closed spec fn spec_storage(&self) -> &FileStorage {
        self.file_storage
    }

    /// The handler over the storage `file_storage`.
    pub fn new(file_storage: &'a FileStorage) -> (handler: Self)
        ensures
            handler.spec_storage() == file_storage,
    {
        BucketExistsHandler { file_storage }
    }

    /// Without `bucket_name` the answer is `400`. Otherwise the storage is asked, and the
    /// answer is `200` where the bucket exists and `404` where it does not. A call that the
    /// storage did not carry out is answered as `spec_storage_failure` says, and a line of
    /// the body, which the handler never asks for, with `500`.
    pub open spec fn spec_handle_request(
        &self,
        req: HttpReqView,
        event: HandlerEventView,
    ) -> HandlerStepView {
        let root = self.spec_storage().spec_data_path();
        match spec_param(req, "bucket_name"@) {
            None => spec_respond(BAD_REQUEST@),
            Some(bucket) => match event {
                HandlerEventView::Request => HandlerStepView::Call {
                    call: StorageCallView::BucketExists { root, bucket },
                },
                HandlerEventView::Storage(StorageReply::Exists(true)) => spec_respond(OK_RESPONSE@),
                HandlerEventView::Storage(StorageReply::Exists(false)) => spec_respond(NOT_FOUND@),
                HandlerEventView::Storage(reply) => spec_storage_failure(reply),
                HandlerEventView::Line(_) => spec_respond(SERVER_ERROR@),
            },
        }
    }

    /// The path that the handler serves.
    pub open spec fn spec_path(&self) -> Seq<char> {
        BUCKET_PATH@
    }

    /// The method that the handler serves.
    pub open spec fn spec_method(&self) -> HttpMethod {
        HttpMethod::GET
    }
}

impl<'a> HttpHandler for BucketExistsHandler<'a> {
    fn handle_request(&self, req: &HttpReq, event: HandlerEvent) -> (step: HandlerStep)
        ensures
            step@ == self.spec_handle_request(req@, event@),
    {
        match req.query_params.get("bucket_name") {
            None => respond(BAD_REQUEST),
            Some(bucket) => match event {
                HandlerEvent::Request => HandlerStep::Call {
                    call: self.file_storage.bucket_exists(bucket.as_str()),
                },
                HandlerEvent::Storage(StorageReply::Exists(true)) => respond(OK_RESPONSE),
                HandlerEvent::Storage(StorageReply::Exists(false)) => respond(NOT_FOUND),
                HandlerEvent::Storage(reply) => storage_failure(reply),
                HandlerEvent::Line(_) => respond(SERVER_ERROR),
            },
        }
    }

    fn path(&self) -> (path: &str)
        ensures
            path@ == self.spec_path(),
    {
        BUCKET_PATH
    }

    fn method(&self) -> (method: HttpMethod)
        ensures
            method == self.spec_method(),
    {
        HttpMethod::GET
    }
}

/// The header line that declares a body of `size` bytes.
pub open spec fn spec_length_line(size: nat) -> Seq<char> {
    "Content-length: "@ + spec_decimal(size) + "\r\n"@
}

/// What is written before the bytes of an object of `size` bytes: the status line, the
/// content type, the length of what follows, and the empty line.
pub open spec fn spec_object_head(size: nat) -> Seq<char> {
    spec_status_line(200, StatusClass::Success) + "Content-type: application/octet-stream\r\n"@
        + spec_length_line(size) + "\r\n"@
}

/// The length that the server declares for a body is the length that it reads, by its own
/// rule for `content-length`, from the line that declares it.
pub proof fn lemma_length_line_read_back(size: nat, max: nat)
    requires
        size <= max,
    ensures
        spec_cut_header_line(spec_length_line(size)) matches HeaderLineView::Field { name, value }
            && name == "Content-length"@ && spec_parse_unsigned(spec_trim(value), max) == Some(
            size,
        ),
{
    reveal_strlit("Content-length: ");
    reveal_strlit("Content-length");
    reveal_strlit("\r\n");
    let digits = spec_decimal(size);
    let line = spec_length_line(size);
    lemma_decimal_round_trip(size);
    lemma_decimal_digits(size);
    assert(line[14] == ':');
    assert forall|j: int| 0 <= j < 14 implies line[j] != ':' by {
        assert(line[j] == "Content-length: "@[j]);
    }
    lemma_find_is(line, ':', 14);
    assert(!spec_is_whitespace(line[0]));
    assert(line.take(14) =~= "Content-length"@);
    let value = line.skip(15);
    assert(value =~= seq![' '] + digits + "\r\n"@);
    let inner = value.skip(1);
    assert(inner =~= digits + "\r\n"@);
    assert(spec_trim_start(value) == spec_trim_start(inner));
    assert(inner[0] == digits[0]);
    assert(spec_trim_start(inner) == inner);
    let n = digits.len() as int;
    assert(inner[n + 1] == '\n' && inner[n] == '\r');
    assert(inner[n - 1] == digits[n - 1]);
    lemma_trim_end_take(inner, n);
    assert(inner.take(n) =~= digits);
    assert(spec_trim_end(digits) == digits);
}

/// Writes what stands before the bytes of an object of `size` bytes.
pub fn object_head(size: u64) -> (head: String)
    ensures
        head@ == spec_object_head(size as nat),
{
    let mut head = status_line(200, StatusClass::Success);
    head.append("Content-type: application/octet-stream\r\n");
    head.append("Content-length: ");
    push_decimal(&mut head, size);
    head.append("\r\n");
    head.append("\r\n");
    proof {
        assert(head@ =~= spec_object_head(size as nat));
    }
    head
}

/// Sends an object: `GET /object?bucket_name=..&object_name=..`.
pub struct ReadObjectHandler<'a> {
    file_storage: &'a FileStorage,
}

impl<'a> ReadObjectHandler<'a> {
    /// The storage that the handler works on.
    pub closed spec fn spec_storage(&self) -> &FileStorage {
        self.file_storage
    }

    /// The handler over the storage `file_storage`.
    pub fn new(file_storage: &'a FileStorage) -> (handler: Self)
        ensures
            handler.spec_storage() == file_storage,
    {
        ReadObjectHandler { file_storage }
    }

    /// Without `object_name` or `bucket_name` the answer is `400`. Otherwise the object is
    /// opened. Once that is done its length is known: the head is written with that length,
    /// and as many bytes of the object after it. Where there is no such object the answer is
    /// `404`, and `500` where it could not be opened for another reason. A line of the body,
    /// which the handler never asks for, is answered with `500`.
    pub open spec fn spec_handle_request(
        &self,
        req: HttpReqView,
        event: HandlerEventView,
    ) -> HandlerStepView {
        let root = self.spec_storage().spec_data_path();
        match (spec_param(req, "object_name"@), spec_param(req, "bucket_name"@)) {
            (Some(object), Some(bucket)) => match event {
                HandlerEventView::Request => HandlerStepView::Call {
                    call: StorageCallView::OpenObject { root, bucket, object },
                },
                HandlerEventView::Storage(StorageReply::Opened { size }) => {
                    HandlerStepView::SendObject { head: spec_object_head(size as nat), size }
                },
                HandlerEventView::Storage(reply) => spec_storage_failure(reply),
                HandlerEventView::Line(_) => spec_respond(SERVER_ERROR@),
            },
            _ => spec_respond(BAD_REQUEST@),
        }
    }

    /// The path that the handler serves.
    pub open spec fn spec_path(&self) -> Seq<char> {
        OBJECT_PATH@
    }

    /// The method that the handler serves.
    pub open spec fn spec_method(&self) -> HttpMethod {
        HttpMethod::GET
    }
}

impl<'a> HttpHandler for ReadObjectHandler<'a> {
    fn handle_request(&self, req: &HttpReq, event: HandlerEvent) -> (step: HandlerStep)
        ensures
            step@ == self.spec_handle_request(req@, event@),
    {
        match (req.query_params.get("object_name"), req.query_params.get("bucket_name")) {
            (Some(object), Some(bucket)) => match event {
                HandlerEvent::Request => HandlerStep::Call {
                    call: self.file_storage.open_file(bucket.as_str(), object.as_str()),
                },
                HandlerEvent::Storage(StorageReply::Opened { size }) => HandlerStep::SendObject {
                    head: object_head(size),
                    size,
                },
                HandlerEvent::Storage(reply) => storage_failure(reply),
                HandlerEvent::Line(_) => respond(SERVER_ERROR),
            },
            _ => respond(BAD_REQUEST),
        }
    }

    fn path(&self) -> (path: &str)
        ensures
            path@ == self.spec_path(),
    {
        OBJECT_PATH
    }

    fn method(&self) -> (method: HttpMethod)
        ensures
            method == self.spec_method(),
    {
        HttpMethod::GET
    }
}

/// The number of bytes that the header `content-length` declares: its value without the
/// white space around it, read as an unsigned number that fits a `usize`.
pub open spec fn spec_content_length(req: HttpReqView) -> Option<nat> {
    if req.headers.contains_key("content-length"@) {
        spec_parse_unsigned(spec_trim(req.headers["content-length"@]), usize::MAX as nat)
    } else {
        None
    }
}

/// Reads the number of bytes that the request declares for its body.
pub fn content_length(req: &HttpReq) -> (r: Option<u64>)
    ensures
        match r {
            Some(size) => spec_content_length(req@) == Some(size as nat),
            None => spec_content_length(req@).is_none(),
        },
{
    match req.headers.get("content-length") {
        None => None,
        Some(value) => {
            let chars = chars_of(value.as_str());
            parse_unsigned(trim(chars.as_slice()), usize::MAX as u64)
        },
    }
}

/// Stores an object: `POST /object?bucket_name=..&object_name=..`, with the object's bytes
/// as the body and their number in the header `content-length`.
pub struct CreateObjectHandler<'a> {
    file_storage: &'a FileStorage,
}

impl<'a> CreateObjectHandler<'a> {
    /// The storage that the handler works on.
    pub closed spec fn spec_storage(&self) -> &FileStorage {
        self.file_storage
    }

    /// The handler over the storage `file_storage`.
    pub fn new(file_storage: &'a FileStorage) -> (handler: Self)
        ensures
            handler.spec_storage() == file_storage,
    {
        CreateObjectHandler { file_storage }
    }

    /// Without `bucket_name` or `object_name`, and without a `content-length` that is a
    /// number, the answer is `400`. Otherwise the object is created, as many bytes of the
    /// body as `content-length` declares are copied into it, and the answer is `200`. Where
    /// the bucket does not exist the answer is `404`, and `500` where the object could not
    /// be created or stored for another reason. A line of the body, which the handler never
    /// asks for, is answered with `500`.
    pub open spec fn spec_handle_request(
        &self,
        req: HttpReqView,
        event: HandlerEventView,
    ) -> HandlerStepView {
        let root = self.spec_storage().spec_data_path();
        match (spec_param(req, "bucket_name"@), spec_param(req, "object_name"@)) {
            (Some(bucket), Some(object)) => match spec_content_length(req) {
                None => spec_respond(BAD_REQUEST@),
                Some(size) => match event {
                    HandlerEventView::Request => HandlerStepView::Call {
                        call: StorageCallView::CreateObject { root, bucket, object },
                    },
                    HandlerEventView::Storage(StorageReply::Created) => {
                        HandlerStepView::ReceiveObject { size: size as u64 }
                    },
                    HandlerEventView::Storage(StorageReply::Done) => spec_respond(OK_RESPONSE@),
                    HandlerEventView::Storage(reply) => spec_storage_failure(reply),
                    HandlerEventView::Line(_) => spec_respond(SERVER_ERROR@),
                },
            },
            _ => spec_respond(BAD_REQUEST@),
        }
    }

    /// The path that the handler serves.
    pub open spec fn spec_path(&self) -> Seq<char> {
        OBJECT_PATH@
    }

    /// The method that the handler serves.
    pub open spec fn spec_method(&self) -> HttpMethod {
        HttpMethod::POST
    }
}

impl<'a> HttpHandler for CreateObjectHandler<'a> {
    fn handle_request(&self, req: &HttpReq, event: HandlerEvent) -> (step: HandlerStep)
        ensures
            step@ == self.spec_handle_request(req@, event@),
    {
        match (req.query_params.get("bucket_name"), req.query_params.get("object_name")) {
            (Some(bucket), Some(object)) => match content_length(req) {
                None => respond(BAD_REQUEST),
                Some(size) => match event {
                    HandlerEvent::Request => HandlerStep::Call {
                        call: self.file_storage.create_file(bucket.as_str(), object.as_str()),
                    },
                    HandlerEvent::Storage(StorageReply::Created) => HandlerStep::ReceiveObject {
                        size,
                    },
                    HandlerEvent::Storage(StorageReply::Done) => respond(OK_RESPONSE),
                    HandlerEvent::Storage(reply) => storage_failure(reply),
                    HandlerEvent::Line(_) => respond(SERVER_ERROR),
                },
            },
            _ => respond(BAD_REQUEST),
        }
    }

    fn path(&self) -> (path: &str)
        ensures
            path@ == self.spec_path(),
    {
        OBJECT_PATH
    }

    fn method(&self) -> (method: HttpMethod)
        ensures
            method == self.spec_method(),
    {
        HttpMethod::POST
    }
}

/// The handlers that the object store is made of.
pub enum Handler<'a> {
    BucketCreate(BucketCreateHandler<'a>),
    BucketDelete(BucketDeleteHandler<'a>),
    BucketExists(BucketExistsHandler<'a>),
    ReadObject(ReadObjectHandler<'a>),
    CreateObject(CreateObjectHandler<'a>),
}

impl<'a> Handler<'a> {
    /// What the handler decides: what the handler that it holds decides.
    pub open spec fn spec_handle_request(
        &self,
        req: HttpReqView,
        event: HandlerEventView,
    ) -> HandlerStepView {
        match self {
            Handler::BucketCreate(handler) => handler.spec_handle_request(req, event),
            Handler::BucketDelete(handler) => handler.spec_handle_request(req, event),
            Handler::BucketExists(handler) => handler.spec_handle_request(req, event),
            Handler::ReadObject(handler) => handler.spec_handle_request(req, event),
            Handler::CreateObject(handler) => handler.spec_handle_request(req, event),
        }
    }

    /// The path that the handler serves.
    pub open spec fn spec_path(&self) -> Seq<char> {
        match self {
            Handler::BucketCreate(handler) => handler.spec_path(),
            Handler::BucketDelete(handler) => handler.spec_path(),
            Handler::BucketExists(handler) => handler.spec_path(),
            Handler::ReadObject(handler) => handler.spec_path(),
            Handler::CreateObject(handler) => handler.spec_path(),
        }
    }

    /// The method that the handler serves.
    pub open spec fn spec_method(&self) -> HttpMethod {
        match self {
            Handler::BucketCreate(handler) => handler.spec_method(),
            Handler::BucketDelete(handler) => handler.spec_method(),
            Handler::BucketExists(handler) => handler.spec_method(),
            Handler::ReadObject(handler) => handler.spec_method(),
            Handler::CreateObject(handler) => handler.spec_method(),
        }
    }

    /// The method and path that each of `handlers` serves, in order.
    pub open spec fn spec_bindings(handlers: Seq<Handler<'a>>) -> Seq<(HttpMethod, Seq<char>)> {
        handlers.map_values(|handler: Handler<'a>| (handler.spec_method(), handler.spec_path()))
    }

    /// The handlers of the object store over `file_storage`, in the order in which they are
    /// registered: create, delete and find a bucket, send and store an object.
    pub fn all(file_storage: &'a FileStorage) -> (handlers: Vec<Handler<'a>>)
        ensures
            handlers@.len() == 5,
            handlers@[0] matches Handler::BucketCreate(handler) && handler.spec_storage()
                == file_storage,
            handlers@[1] matches Handler::BucketDelete(handler) && handler.spec_storage()
                == file_storage,
            handlers@[2] matches Handler::BucketExists(handler) && handler.spec_storage()
                == file_storage,
            handlers@[3] matches Handler::ReadObject(handler) && handler.spec_storage()
                == file_storage,
            handlers@[4] matches Handler::CreateObject(handler) && handler.spec_storage()
                == file_storage,
            Self::spec_bindings(handlers@) == spec_endpoints(),
    {
        let mut handlers: Vec<Handler<'a>> = Vec::new();
        handlers.push(Handler::BucketCreate(BucketCreateHandler::new(file_storage)));
        handlers.push(Handler::BucketDelete(BucketDeleteHandler::new(file_storage)));
        handlers.push(Handler::BucketExists(BucketExistsHandler::new(file_storage)));
        handlers.push(Handler::ReadObject(ReadObjectHandler::new(file_storage)));
        handlers.push(Handler::CreateObject(CreateObjectHandler::new(file_storage)));
        assert(Self::spec_bindings(handlers@) =~= spec_endpoints());
        handlers
    }

    /// The method and path that each of `handlers` serves, in order.
    pub fn bindings(handlers: &Vec<Handler<'a>>) -> (bindings: Vec<(HttpMethod, String)>)
        ensures
            bindings@.len() == handlers@.len(),
            forall|i: int|
                0 <= i < handlers@.len() ==> (#[trigger] bindings@[i]).0
                    == handlers@[i].spec_method() && bindings@[i].1@ == handlers@[i].spec_path(),
    {
        let mut bindings: Vec<(HttpMethod, String)> = Vec::new();
        let mut i: usize = 0;
        while i < handlers.len()
            invariant
                0 <= i <= handlers.len(),
                bindings@.len() == i,
                forall|k: int|
                    0 <= k < i ==> (#[trigger] bindings@[k]).0 == handlers@[k].spec_method()
                        && bindings@[k].1@ == handlers@[k].spec_path(),
            decreases handlers.len() - i,
        {
            let method = handlers[i].method();
            let path = handlers[i].path().to_owned();
            bindings.push((method, path));
            i += 1;
        }
        bindings
    }
}

impl<'a> HttpHandler for Handler<'a> {
    fn handle_request(&self, req: &HttpReq, event: HandlerEvent) -> (step: HandlerStep)
        ensures
            step@ == self.spec_handle_request(req@, event@),
    {
        match self {
            Handler::BucketCreate(handler) => handler.handle_request(req, event),
            Handler::BucketDelete(handler) => handler.handle_request(req, event),
            Handler::BucketExists(handler) => handler.handle_request(req, event),
            Handler::ReadObject(handler) => handler.handle_request(req, event),
            Handler::CreateObject(handler) => handler.handle_request(req, event),
        }
    }

    fn path(&self) -> (path: &str)
        ensures
            path@ == self.spec_path(),
    {
        match self {
            Handler::BucketCreate(handler) => handler.path(),
            Handler::BucketDelete(handler) => handler.path(),
            Handler::BucketExists(handler) => handler.path(),
            Handler::ReadObject(handler) => handler.path(),
            Handler::CreateObject(handler) => handler.path(),
        }
    }

    fn method(&self) -> (method: HttpMethod)
        ensures
            method == self.spec_method(),
    {
        match self {
            Handler::BucketCreate(handler) => handler.method(),
            Handler::BucketDelete(handler) => handler.method(),
            Handler::BucketExists(handler) => handler.method(),
            Handler::ReadObject(handler) => handler.method(),
            Handler::CreateObject(handler) => handler.method(),
        }
    }
}

/// The endpoints of the object store, in the order in which their handlers are registered.
pub open spec fn spec_endpoints() -> Seq<(HttpMethod, Seq<char>)> {
    seq![
        (HttpMethod::POST, BUCKET_PATH@),
        (HttpMethod::DELETE, BUCKET_PATH@),
        (HttpMethod::GET, BUCKET_PATH@),
        (HttpMethod::GET, OBJECT_PATH@),
        (HttpMethod::POST, OBJECT_PATH@),
    ]
}

/// A request to create a bucket that exists already is answered with `200`, and nothing is
/// asked of the storage but whether the bucket exists.
pub proof fn lemma_create_existing_bucket(handler: BucketCreateHandler, req: HttpReqView)
    requires
        spec_param(req, "bucket_name"@) is Some,
    ensures
        handler.spec_handle_request(req, HandlerEventView::Request) == (HandlerStepView::Call {
            call: StorageCallView::BucketExists {
                root: handler.spec_storage().spec_data_path(),
                bucket: req.query_params["bucket_name"@],
            },
        }),
        handler.spec_handle_request(req, HandlerEventView::Storage(StorageReply::Exists(true)))
            == spec_respond(OK_RESPONSE@),
{
}

/// A request to delete a bucket is answered with `200` when the bucket has been removed,
/// and with `200` as well when the storage says that there was none.
pub proof fn lemma_delete_missing_bucket(handler: BucketDeleteHandler, req: HttpReqView)
    requires
        spec_param(req, "bucket_name"@) is Some,
    ensures
        handler.spec_handle_request(req, HandlerEventView::Storage(StorageReply::Done))
            == spec_respond(OK_RESPONSE@),
        handler.spec_handle_request(req, HandlerEventView::Storage(StorageReply::Missing))
            == spec_respond(OK_RESPONSE@),
{
}

/// The progress of moving a body of known length, piece by piece, between the connection
/// and the storage. It never asks for more than is still owed, so nothing that follows the
/// body on the connection is taken with it.
pub struct Transfer {
    size: u64,
    moved: u64,
}

impl Transfer {
    #[verifier::type_invariant]
    spec fn well_formed(self) -> bool {
        self.moved <= self.size
    }

    /// The length of the body.
    pub closed spec fn spec_size(&self) -> nat {
        self.size as nat
    }

    /// The number of bytes moved so far.
    pub closed spec fn spec_moved(&self) -> nat {
        self.moved as nat
    }

    /// The number of bytes to ask for next: what is still owed, but no more than
    /// `CHUNK_SIZE`.
    pub open spec fn spec_next_len(&self) -> nat {
        if self.spec_size() - self.spec_moved() < CHUNK_SIZE as nat {
            (self.spec_size() - self.spec_moved()) as nat
        } else {
            CHUNK_SIZE as nat
        }
    }

    /// A transfer of `size` bytes of which none has been moved.
    pub fn new(size: u64) -> (transfer: Self)
        ensures
            transfer.spec_size() == size,
            transfer.spec_moved() == 0,
    {
        Transfer { size, moved: 0 }
    }

    /// The number of bytes moved so far. It is never more than the body holds.
    pub fn moved(&self) -> (n: u64)
        ensures
            n == self.spec_moved(),
            n <= self.spec_size(),
    {
        proof {
            use_type_invariant(self);
        }
        self.moved
    }

    /// The number of bytes that are still owed.
    pub fn remaining(&self) -> (n: u64)
        ensures
            n == self.spec_size() - self.spec_moved(),
    {
        proof {
            use_type_invariant(self);
        }
        self.size - self.moved
    }

    /// The number of bytes to ask for next. It is 0 when all have been moved.
    pub fn next_len(&self) -> (n: usize)
        ensures
            n == self.spec_next_len(),
    {
        let remaining = self.remaining();
        if remaining < CHUNK_SIZE as u64 {
            remaining as usize
        } else {
            CHUNK_SIZE
        }
    }

    /// Records that `n` bytes were moved, where no more than `next_len` were asked for.
    /// Returns whether the transfer is over: all bytes have been moved, or none came.
    pub fn advance(&mut self, n: usize) -> (over: bool)
        requires
            n <= old(self).spec_next_len(),
        ensures
            final(self).spec_size() == old(self).spec_size(),
            final(self).spec_moved() == old(self).spec_moved() + n,
            over == (n == 0 || final(self).spec_moved() == final(self).spec_size()),
    {
        proof {
            use_type_invariant(&*self);
        }
        self.moved = self.moved + n as u64;
        n == 0 || self.moved == self.size
    }
}

} // verus!
