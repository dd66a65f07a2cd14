//! A small client for trying the server: how a request is written and how
//! the status of a response is read. Connecting and sending is the caller's
//! business.

use crate::http::{
    lemma_ready_responses, spec_parse_start_line, spec_status_line, HttpMethod, StatusClass,
    BAD_REQUEST, NOT_FOUND, OK_RESPONSE, SERVER_ERROR,
};
use crate::text::{
    chars_of, equal, lemma_decimal_digits, lemma_decimal_round_trip, lemma_find_is,
    lemma_find_str_is, lemma_first_word, lemma_split_whitespace_skip, lemma_trim_keeps,
    lemma_trim_none, parse_unsigned, push_decimal, spec_decimal, spec_is_whitespace,
    spec_parse_unsigned, spec_split, spec_split_once, spec_split_once_str,
    spec_split_whitespace, spec_trim, split, split_once, split_once_str, string_of, trim,
};
use vstd::prelude::*;
use vstd::string::StringSliceAdditionalSpecFns;

verus! {

/// The client. It holds nothing.
pub struct HttpClient;

/// What came back for a request.
#[derive(Debug, Clone, Copy, PartialEq, Eq)]
pub struct Response {
    status_code: u16,
}

impl Response {
    /// The status code of the response.
    pub closed spec fn spec_status(&self) -> u16 {
        self.status_code
    }

    /// A response with the status code `status_code`.
    pub fn new(status_code: u16) -> (response: Self)
        ensures
            response.spec_status() == status_code,
    {
        Response { status_code }
    }

    /// The status code.
    pub fn status(&self) -> (status_code: u16)
        ensures
            status_code == self.spec_status(),
    {
        self.status_code
    }
}

/// A request in the making.
pub struct RequestBuilder {
    url: String,
    method: HttpMethod,
    headers: Vec<(String, String)>,
    body: Vec<u8>,
}

/// What a `RequestBuilder` holds: the URL, the method, the header fields in the order in
/// which their names were first given, and the body. No two fields have the same name.
pub ghost struct RequestBuilderView {
    pub url: Seq<char>,
    pub method: HttpMethod,
    pub headers: Seq<(Seq<char>, Seq<char>)>,
    pub body: Seq<u8>,
}

/// The header fields `fields` as sequences of characters.
pub open spec fn spec_fields(fields: Seq<(String, String)>) -> Seq<(Seq<char>, Seq<char>)> {
    fields.map_values(|field: (String, String)| (field.0@, field.1@))
}

/// Whether no two of `headers` have the same name.
pub open spec fn spec_distinct_names(headers: Seq<(Seq<char>, Seq<char>)>) -> bool {
    forall|i: int, j: int|
        0 <= i < j < headers.len() ==> (#[trigger] headers[i]).0 != (#[trigger] headers[j]).0
}

impl View for RequestBuilder {
    type V = RequestBuilderView;

    closed spec fn view(&self) -> RequestBuilderView {
        RequestBuilderView {
            url: self.url@,
            method: self.method,
            headers: spec_fields(self.headers@),
            body: self.body@,
        }
    }
}

impl HttpClient {
    /// A client.
    pub fn new() -> (client: Self) {
        HttpClient
    }

    /// A `GET` request for `url`, without header fields and without a body.
    pub fn get(&self, url: &str) -> (request: RequestBuilder)
        ensures
            request@ == (RequestBuilderView {
                url: url@,
                method: HttpMethod::GET,
                headers: Seq::empty(),
                body: Seq::empty(),
            }),
    {
        let request = RequestBuilder {
            url: url.to_owned(),
            method: HttpMethod::GET,
            headers: Vec::new(),
            body: Vec::new(),
        };
        assert(spec_fields(request.headers@) == Seq::<(Seq<char>, Seq<char>)>::empty());
        request
    }

    /// A `POST` request for `url`, without header fields and without a body.
    pub fn post(&self, url: &str) -> (request: RequestBuilder)
        ensures
            request@ == (RequestBuilderView {
                url: url@,
                method: HttpMethod::POST,
                headers: Seq::empty(),
                body: Seq::empty(),
            }),
    {
        let request = RequestBuilder {
            url: url.to_owned(),
            method: HttpMethod::POST,
            headers: Vec::new(),
            body: Vec::new(),
        };
        assert(spec_fields(request.headers@) == Seq::<(Seq<char>, Seq<char>)>::empty());
        request
    }
}

/// The place of the field named `key` among `headers`, or their number where there is none.
pub open spec fn spec_field_index(headers: Seq<(Seq<char>, Seq<char>)>, key: Seq<char>) -> int
    decreases headers.len(),
{
    if headers.len() == 0 || headers[0].0 == key {
        0
    } else {
        1 + spec_field_index(headers.skip(1), key)
    }
}

/// `spec_field_index` is the least place that holds a field named `key`.
pub proof fn lemma_field_index(headers: Seq<(Seq<char>, Seq<char>)>, key: Seq<char>)
    ensures
        0 <= spec_field_index(headers, key) <= headers.len(),
        forall|j: int| 0 <= j < spec_field_index(headers, key) ==> (#[trigger] headers[j]).0 != key,
        spec_field_index(headers, key) < headers.len() ==> headers[spec_field_index(
            headers,
            key,
        )].0 == key,
    decreases headers.len(),
{
    if headers.len() == 0 || headers[0].0 == key {
    } else {
        let rest = headers.skip(1);
        lemma_field_index(rest, key);
        assert forall|j: int| 0 <= j < spec_field_index(headers, key) implies (
        #[trigger] headers[j]).0 != key by {
            if j > 0 {
                assert(headers[j] == rest[j - 1]);
            }
        }
    }
}

/// A place before which no field is named `key`, and which holds such a field or is the
/// number of fields, is `spec_field_index`.
pub proof fn lemma_field_index_is(headers: Seq<(Seq<char>, Seq<char>)>, key: Seq<char>, i: int)
    requires
        0 <= i <= headers.len(),
        forall|j: int| 0 <= j < i ==> (#[trigger] headers[j]).0 != key,
        i < headers.len() ==> headers[i].0 == key,
    ensures
        spec_field_index(headers, key) == i,
{
    lemma_field_index(headers, key);
}

/// `headers` with the field `key` set to `value`: in the place of the field of that name
/// where there is one, else at the end.
pub open spec fn spec_set_field(
    headers: Seq<(Seq<char>, Seq<char>)>,
    key: Seq<char>,
    value: Seq<char>,
) -> Seq<(Seq<char>, Seq<char>)> {
    let i = spec_field_index(headers, key);
    if 0 <= i < headers.len() {
        headers.update(i, (key, value))
    } else {
        headers.push((key, value))
    }
}

/// Setting a field leaves no two fields with the same name where there were none before.
pub proof fn lemma_set_field_distinct(
    headers: Seq<(Seq<char>, Seq<char>)>,
    key: Seq<char>,
    value: Seq<char>,
)
    requires
        spec_distinct_names(headers),
    ensures
        spec_distinct_names(spec_set_field(headers, key, value)),
{
    lemma_field_index(headers, key);
    let place = spec_field_index(headers, key);
    let after = spec_set_field(headers, key, value);
    assert forall|i: int, j: int| 0 <= i < j < after.len() implies (#[trigger] after[i]).0 != (
    #[trigger] after[j]).0 by {
        if place < headers.len() {
            assert(after[i].0 == headers[i].0);
            assert(after[j].0 == headers[j].0);
        } else {
            if j < headers.len() {
                assert(after[i] == headers[i]);
                assert(after[j] == headers[j]);
            } else {
                assert(after[i] == headers[i]);
                assert(after[j].0 == key);
            }
        }
    }
}

/// The header fields as they stand in a request: each on a line of its own, as its name, a
/// colon, a blank and its value.
pub open spec fn spec_field_lines(headers: Seq<(Seq<char>, Seq<char>)>) -> Seq<char>
    decreases headers.len(),
{
    if headers.len() == 0 {
        Seq::empty()
    } else {
        spec_field_lines(headers.drop_last()) + headers.last().0 + ": "@ + headers.last().1
            + "\r\n"@
    }
}

/// What is written before the body of a request: the request line, the header fields, the
/// `Host` field, and the length of the body where there is one.
pub open spec fn spec_request_head(
    method: HttpMethod,
    path: Seq<char>,
    headers: Seq<(Seq<char>, Seq<char>)>,
    host: Seq<char>,
    body_len: nat,
) -> Seq<char> {
    method.spec_as_str() + " "@ + path + " HTTP/1.1\r\n"@ + spec_field_lines(headers) + "Host: "@
        + host + "\r\n"@ + if body_len > 0 {
        "Content-Length: "@ + spec_decimal(body_len) + "\r\n\r\n"@
    } else {
        "\r\n"@
    }
}

/// The host and the path of an `http` URL. White space around the URL is not counted; the
/// host is what stands between `//` and the next `/`, the path the rest from that `/` on.
/// There is none where the URL names another scheme or has no path.
pub open spec fn spec_parse_url(uri: Seq<char>) -> Option<(Seq<char>, Seq<char>)> {
    match spec_split_once_str(spec_trim(uri), "//"@) {
        None => None,
        Some((protocol, url)) => if protocol == "http:"@ {
            match spec_split_once(spec_trim(url), '/') {
                Some((host, path)) => Some((host, "/"@ + path)),
                None => None,
            }
        } else {
            None
        },
    }
}

/// The status code of a response: the second of the pieces between single blanks, read as a
/// number that fits a `u16`. White space around the response is not counted.
pub open spec fn spec_extract_status(response: Seq<char>) -> Option<u16> {
    let terms = spec_split(spec_trim(response), ' ');
    if terms.len() >= 2 {
        match spec_parse_unsigned(terms[1], u16::MAX as nat) {
            Some(code) => Some(code as u16),
            None => None,
        }
    } else {
        None
    }
}

/// A request ready to be sent: the host to connect to, and what to write.
#[derive(Debug, PartialEq, Eq)]
pub struct EncodedRequest {
    pub host: String,
    pub head: String,
    pub body: Vec<u8>,
}

/// What an `EncodedRequest` holds.
pub ghost struct EncodedRequestView {
    pub host: Seq<char>,
    pub head: Seq<char>,
    pub body: Seq<u8>,
}

impl View for EncodedRequest {
    type V = EncodedRequestView;

    open spec fn view(&self) -> EncodedRequestView {
        EncodedRequestView { host: self.host@, head: self.head@, body: self.body@ }
    }
}

/// The request that `request` describes, ready to be sent. There is none where its URL is
/// not one that `spec_parse_url` accepts.
pub open spec fn spec_encode(request: RequestBuilderView) -> Option<EncodedRequestView> {
    match spec_parse_url(request.url) {
        None => None,
        Some((host, path)) => Some(
            EncodedRequestView {
                host,
                head: spec_request_head(
                    request.method,
                    path,
                    request.headers,
                    host,
                    request.body.len(),
                ),
                body: request.body,
            },
        ),
    }
}

impl RequestBuilder {
    #[verifier::type_invariant]
    spec fn well_formed(self) -> bool {
        spec_distinct_names(spec_fields(self.headers@))
    }

    /// Sets the header field `key` to `value`. A value given for `key` before is replaced,
    /// so that no two fields have the same name.
    pub fn header(self, key: &str, value: &str) -> (request: Self)
        ensures
            request@ == (RequestBuilderView {
                headers: spec_set_field(self@.headers, key@, value@),
                ..self@
            }),
            spec_distinct_names(request@.headers),
    {
        proof {
            use_type_invariant(&self);
        }
        let RequestBuilder { url, method, headers, body } = self;
        let mut headers = headers;
        let ghost before = spec_fields(headers@);
        let name = key.to_owned();
        let mut i: usize = 0;
        while i < headers.len() && !(headers[i].0 == name)
            invariant
                0 <= i <= headers.len(),
                name@ == key@,
                before == spec_fields(headers@),
                forall|j: int| 0 <= j < i ==> (#[trigger] before[j]).0 != key@,
            decreases headers.len() - i,
        {
            i += 1;
        }
        proof {
            if i < headers.len() {
                assert(before[i as int].0 == headers@[i as int].0@);
            }
            lemma_field_index_is(before, key@, i as int);
        }
        if i < headers.len() {
            headers.set(i, (name, value.to_owned()));
        } else {
            headers.push((name, value.to_owned()));
        }
        proof {
            assert(spec_fields(headers@) =~= spec_set_field(before, key@, value@));
            lemma_set_field_distinct(before, key@, value@);
        }
        RequestBuilder { url, method, headers, body }
    }

    /// Sets the body to the bytes of `data`.
    pub fn body(self, data: &str) -> (request: Self)
        ensures
            request@ == (RequestBuilderView { body: data.spec_bytes(), ..self@ }),
    {
        proof {
            use_type_invariant(&self);
        }
        let RequestBuilder { url, method, headers, body: _ } = self;
        RequestBuilder { url, method, headers, body: data.as_bytes_vec() }
    }

    /// Sets the method.
    pub fn method(self, method: HttpMethod) -> (request: Self)
        ensures
            request@ == (RequestBuilderView { method, ..self@ }),
    {
        proof {
            use_type_invariant(&self);
        }
        let RequestBuilder { url, method: _, headers, body } = self;
        RequestBuilder { url, method, headers, body }
    }

    /// Cuts an `http` URL into the host to connect to and the path to ask for.
    pub fn parse_url(uri: &str) -> (r: Option<(String, String)>)
        ensures
            match r {
                Some((host, path)) => spec_parse_url(uri@) == Some((host@, path@)),
                None => spec_parse_url(uri@).is_none(),
            },
    {
        let chars = chars_of(uri);
        let slashes = chars_of("//");
        let scheme = chars_of("http:");
        match split_once_str(trim(chars.as_slice()), slashes.as_slice()) {
            None => None,
            Some((protocol, url)) => {
                if equal(protocol, scheme.as_slice()) {
                    match split_once(trim(url), '/') {
                        Some((host, path)) => {
                            let mut full_path = "/".to_owned();
                            full_path.append(string_of(path).as_str());
                            Some((string_of(host), full_path))
                        },
                        None => None,
                    }
                } else {
                    None
                }
            },
        }
    }

    /// Reads the status code off the text of a response.
    pub fn extract_status(response: &str) -> (r: Option<u16>)
        ensures
            r == spec_extract_status(response@),
    {
        let chars = chars_of(response);
        let terms = split(trim(chars.as_slice()), ' ');
        if terms.len() >= 2 {
            match parse_unsigned(terms[1], u16::MAX as u64) {
                Some(code) => Some(code as u16),
                None => None,
            }
        } else {
            None
        }
    }

    /// The response to report for the text `response` that came back: its status code, or
    /// `400` where it has none.
    pub fn response(response: &str) -> (r: Response)
        ensures
            r.spec_status() == match spec_extract_status(response@) {
                Some(code) => code,
                None => 400u16,
            },
    {
        match Self::extract_status(response) {
            Some(code) => Response::new(code),
            None => Response::new(400),
        }
    }

    /// The request ready to be sent, if its URL is one that can be sent to.
    pub fn encode(&self) -> (r: Option<EncodedRequest>)
        ensures
            match r {
                Some(encoded) => spec_encode(self@) == Some(encoded@),
                None => spec_encode(self@).is_none(),
            },
    {
        match Self::parse_url(self.url.as_str()) {
            None => None,
            Some((host, path)) => {
                let mut head = self.method.as_str().to_owned();
                head.append(" ");
                head.append(path.as_str());
                head.append(" HTTP/1.1\r\n");
                let ghost start = head@;
                let ghost fields = spec_fields(self.headers@);
                let mut i: usize = 0;
                while i < self.headers.len()
                    invariant
                        0 <= i <= self.headers.len(),
                        fields == spec_fields(self.headers@),
                        head@ == start + spec_field_lines(fields.take(i as int)),
                    decreases self.headers.len() - i,
                {
                    proof {
                        assert(fields.take(i + 1).drop_last() == fields.take(i as int));
                        assert(fields.take(i + 1).last() == fields[i as int]);
                    }
                    head.append(self.headers[i].0.as_str());
                    head.append(": ");
                    head.append(self.headers[i].1.as_str());
                    head.append("\r\n");
                    i += 1;
                }
                proof {
                    assert(fields.take(i as int) == fields);
                }
                head.append("Host: ");
                head.append(host.as_str());
                head.append("\r\n");
                if self.body.len() > 0 {
                    head.append("Content-Length: ");
                    push_decimal(&mut head, self.body.len() as u64);
                    head.append("\r\n\r\n");
                } else {
                    head.append("\r\n");
                }
                let body = self.body.clone();
                proof {
                    assert(body@ =~= self.body@);
                    assert(head@ =~= spec_request_head(
                        self.method,
                        path@,
                        fields,
                        host@,
                        self.body@.len(),
                    ));
                }
                Some(EncodedRequest { host, head, body })
            },
        }
    }
}

/// The status code that the server writes is the one that the client reads: whatever
/// follows the status line, `spec_extract_status` gives the code of the line back.
pub proof fn lemma_status_read_back(code: nat, class: StatusClass, rest: Seq<char>)
    requires
        code <= u16::MAX,
    ensures
        spec_extract_status(spec_status_line(code, class) + rest) == Some(code as u16),
{
    reveal_strlit("HTTP/1.1 ");
    reveal_strlit(" ");
    reveal_strlit("\r\n");
    reveal_strlit("OK");
    reveal_strlit("BAD REQUEST");
    reveal_strlit("NOT FOUND");
    reveal_strlit("INTERNAL ERROR");
    let digits = spec_decimal(code);
    let reason = class.spec_reason();
    let text = spec_status_line(code, class) + rest;
    lemma_decimal_round_trip(code);
    lemma_decimal_digits(code);
    let n = digits.len() as int;
    let end = 10 + n + reason.len();
    assert(reason.len() >= 2);
    assert(text[0] == 'H');
    assert(text[end - 1] == reason[reason.len() - 1]);
    assert(!spec_is_whitespace(reason[reason.len() - 1]));
    lemma_trim_keeps(text, end);
    let trimmed = spec_trim(text);
    assert forall|j: int| 0 <= j < 8 implies trimmed[j] != ' ' by {
        assert(trimmed[j] == "HTTP/1.1 "@[j]);
    }
    assert(trimmed[8] == ' ');
    lemma_find_is(trimmed, ' ', 8);
    let after = trimmed.skip(9);
    assert forall|j: int| 0 <= j < n implies after[j] != ' ' by {
        assert(after[j] == digits[j]);
    }
    assert(after[n] == ' ');
    lemma_find_is(after, ' ', n);
    assert(after.take(n) =~= digits);
    assert(spec_split(trimmed, ' ') == seq![trimmed.take(8)] + spec_split(after, ' '));
    assert(spec_split(after, ' ') == seq![digits] + spec_split(after.skip(n + 1), ' '));
    assert(spec_split(trimmed, ' ')[1] == digits);
}

/// The client reads from each of the server's ready responses the code that it stands for.
pub proof fn lemma_ready_response_codes()
    ensures
        spec_extract_status(OK_RESPONSE@) == Some(200u16),
        spec_extract_status(BAD_REQUEST@) == Some(400u16),
        spec_extract_status(NOT_FOUND@) == Some(404u16),
        spec_extract_status(SERVER_ERROR@) == Some(500u16),
{
    lemma_ready_responses();
    let rest = "Content-Length: 0\r\n\r\n"@;
    lemma_status_read_back(200, StatusClass::Success, rest);
    lemma_status_read_back(400, StatusClass::BadRequest, rest);
    lemma_status_read_back(404, StatusClass::NotFound, rest);
    lemma_status_read_back(500, StatusClass::InternalError, rest);
}

/// The request line that the client writes is read by the server as it was meant: it gives
/// back the method and the path, provided the path is not empty and holds no white space.
pub proof fn lemma_request_line_read_back(method: HttpMethod, path: Seq<char>)
    requires
        path.len() > 0,
        forall|i: int| 0 <= i < path.len() ==> !spec_is_whitespace(#[trigger] path[i]),
    ensures
        spec_parse_start_line(method.spec_as_str() + " "@ + path + " HTTP/1.1\r\n"@) == Some(
            (method, path),
        ),
{
    reveal_strlit("POST");
    reveal_strlit("GET");
    reveal_strlit("DELETE");
    reveal_strlit(" ");
    reveal_strlit(" HTTP/1.1\r\n");
    let token = method.spec_as_str();
    let line = token + " "@ + path + " HTTP/1.1\r\n"@;
    method.lemma_token_round_trip();
    assert(token.len() >= 3);
    assert forall|i: int| 0 <= i < token.len() implies !spec_is_whitespace(
        #[trigger] token[i],
    ) by {}
    assert(token =~= line.subrange(0, token.len() as int));
    assert(line[token.len() as int] == ' ');
    lemma_first_word(line, token);
    let rest = line.skip(token.len() as int);
    assert(rest[0] == ' ');
    lemma_split_whitespace_skip(rest, 1);
    let tail = rest.skip(1);
    assert(tail =~= path + " HTTP/1.1\r\n"@);
    assert(path =~= tail.subrange(0, path.len() as int));
    assert(tail[path.len() as int] == ' ');
    lemma_first_word(tail, path);
    let words = spec_split_whitespace(line);
    assert(words == seq![token] + (seq![path] + spec_split_whitespace(
        tail.skip(path.len() as int),
    )));
    assert(words[0] == token);
    assert(words[1] == path);
}

/// An `http` URL is cut into its host and its path: the host is what stands between `//`
/// and the next `/`, the path what follows from that `/` on.
pub proof fn lemma_url_parts(host: Seq<char>, path: Seq<char>)
    requires
        !host.contains('/'),
        host.len() > 0 ==> !spec_is_whitespace(host[0]),
        path.len() > 0 ==> !spec_is_whitespace(path.last()),
    ensures
        spec_parse_url("http://"@ + host + "/"@ + path) == Some((host, "/"@ + path)),
{
    reveal_strlit("http://");
    reveal_strlit("http:");
    reveal_strlit("//");
    reveal_strlit("/");
    let uri = "http://"@ + host + "/"@ + path;
    let url = host + "/"@ + path;
    assert(uri[0] == 'h');
    assert(uri.last() == if path.len() > 0 {
        path.last()
    } else {
        '/'
    });
    lemma_trim_none(uri);
    assert forall|j: int| 0 <= j < 5 implies !"//"@.is_prefix_of(#[trigger] uri.skip(j)) by {
        assert(uri.skip(j)[0] == "http://"@[j]);
        if "//"@.is_prefix_of(uri.skip(j)) {
            assert(uri.skip(j).subrange(0, 2)[0] == "//"@[0]);
        }
    }
    assert(uri.skip(5).subrange(0, 2) =~= "//"@);
    lemma_find_str_is(uri, "//"@, 5);
    assert(uri.take(5) =~= "http:"@);
    assert(uri.skip(7) =~= url);
    assert(url[0] == if host.len() > 0 {
        host[0]
    } else {
        '/'
    });
    assert(url.last() == uri.last());
    lemma_trim_none(url);
    assert forall|j: int| 0 <= j < host.len() implies url[j] != '/' by {
        assert(url[j] == host[j]);
        assert(host.contains(host[j]));
    }
    assert(url[host.len() as int] == '/');
    lemma_find_is(url, '/', host.len() as int);
    assert(url.take(host.len() as int) =~= host);
    assert(url.skip(host.len() as int + 1) =~= path);
}

} // verus!
