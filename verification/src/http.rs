//! The protocol codec: request line, header lines, query string, and the
//! engine's own responses.

use crate::string_map::StringMap;
use crate::text::{
    chars_of, equal, is_blank, lemma_find_is, push_decimal, spec_decimal,
    spec_is_blank, spec_is_whitespace, spec_split, spec_split_once, spec_split_whitespace,
    split, split_once, split_whitespace, string_of,
};
use vstd::prelude::*;

verus! {

/// The answer to a request that cannot be understood. It closes the connection.
pub const BAD_REQUEST: &'static str = "HTTP/1.1 400 BAD REQUEST\r\nContent-Length: 0\r\n\r\n";

/// The answer to a request for which nothing is registered, or whose resource is absent.
pub const NOT_FOUND: &'static str = "HTTP/1.1 404 NOT FOUND\r\nContent-Length: 0\r\n\r\n";

/// The answer when the server itself failed.
pub const SERVER_ERROR: &'static str = "HTTP/1.1 500 INTERNAL ERROR\r\nContent-Length: 0\r\n\r\n";

/// The answer to a request that was carried out and has nothing to return.
pub const OK_RESPONSE: &'static str = "HTTP/1.1 200 OK\r\nContent-Length: 0\r\n\r\n";

/// The request methods that the server accepts.
#[derive(Debug, Clone, Copy, PartialEq, Eq, Hash, Structural)]
pub enum HttpMethod {
    POST,
    GET,
    DELETE,
}

impl HttpMethod {
    /// The method that the token `s` names. Tokens are case-sensitive.
    pub open spec fn spec_from_str(s: Seq<char>) -> Option<HttpMethod> {
        if s == "POST"@ {
            Some(HttpMethod::POST)
        } else if s == "GET"@ {
            Some(HttpMethod::GET)
        } else if s == "DELETE"@ {
            Some(HttpMethod::DELETE)
        } else {
            None
        }
    }

    /// The token that names the method.
    pub open spec fn spec_as_str(self) -> Seq<char> {
        match self {
            HttpMethod::POST => "POST"@,
            HttpMethod::GET => "GET"@,
            HttpMethod::DELETE => "DELETE"@,
        }
    }

    /// A method's token names that method and no other.
    pub proof fn lemma_token_round_trip(self)
        ensures
            Self::spec_from_str(self.spec_as_str()) == Some(self),
    {
        reveal_strlit("POST");
        reveal_strlit("GET");
        reveal_strlit("DELETE");
        assert("POST"@.len() == 4 && "GET"@.len() == 3 && "DELETE"@.len() == 6);
    }

    /// The method named by the characters `token`, if they name one.
    pub fn from_chars(token: &[char]) -> (r: Option<HttpMethod>)
        ensures
            r == Self::spec_from_str(token@),
    {
        let post = chars_of("POST");
        let get = chars_of("GET");
        let delete = chars_of("DELETE");
        if equal(token, post.as_slice()) {
            Some(HttpMethod::POST)
        } else if equal(token, get.as_slice()) {
            Some(HttpMethod::GET)
        } else if equal(token, delete.as_slice()) {
            Some(HttpMethod::DELETE)
        } else {
            None
        }
    }

    /// The method named by `method`, if it names one.
    pub fn parse(method: &str) -> (r: Option<HttpMethod>)
        ensures
            r == Self::spec_from_str(method@),
    {
        let chars = chars_of(method);
        Self::from_chars(chars.as_slice())
    }

    /// The method named by `method`, which must be `POST`, `GET` or `DELETE`.
    /// Use [`HttpMethod::parse`] for a token that may be anything.
    pub fn from_str(method: &str) -> (r: HttpMethod)
        requires
            Self::spec_from_str(method@).is_some(),
        ensures
            Self::spec_from_str(method@) == Some(r),
    {
        match Self::parse(method) {
            Some(m) => m,
            None => vstd::pervasive::unreached(),
        }
    }

    /// The token that names the method.
    pub fn as_str(&self) -> (r: &'static str)
        ensures
            r@ == self.spec_as_str(),
    {
        match self {
            HttpMethod::POST => "POST",
            HttpMethod::GET => "GET",
            HttpMethod::DELETE => "DELETE",
        }
    }
}

/// What a request line holds: the method named by its first word, and its second word. There
/// is none where the line has fewer than two words or the first names no method. Further
/// words are not looked at.
pub open spec fn spec_parse_start_line(line: Seq<char>) -> Option<(HttpMethod, Seq<char>)> {
    let words = spec_split_whitespace(line);
    if words.len() >= 2 {
        match HttpMethod::spec_from_str(words[0]) {
            Some(method) => Some((method, words[1])),
            None => None,
        }
    } else {
        None
    }
}

/// Reads the method and the raw path off a request line.
pub fn parse_start_line(line: &str) -> (r: Option<(HttpMethod, String)>)
    ensures
        match r {
            Some((method, path)) => spec_parse_start_line(line@) == Some((method, path@)),
            None => spec_parse_start_line(line@).is_none(),
        },
{
    let chars = chars_of(line);
    let words = split_whitespace(chars.as_slice());
    if words.len() >= 2 {
        match HttpMethod::from_chars(words[0]) {
            Some(method) => Some((method, string_of(words[1]))),
            None => None,
        }
    } else {
        None
    }
}

/// `params` with what the piece `pair` of a query string adds: its key and value if it holds
/// a `=`, nothing otherwise. A key that is bound already is bound anew.
pub open spec fn spec_add_param(params: Map<Seq<char>, Seq<char>>, pair: Seq<char>) -> Map<
    Seq<char>,
    Seq<char>,
> {
    match spec_split_once(pair, '=') {
        Some((key, value)) => params.insert(key, value),
        None => params,
    }
}

/// The parameters that the pieces `pairs` of a query string bind, taken from first to last.
pub open spec fn spec_params(pairs: Seq<Seq<char>>) -> Map<Seq<char>, Seq<char>>
    decreases pairs.len(),
{
    if pairs.len() == 0 {
        Map::empty()
    } else {
        spec_add_param(spec_params(pairs.drop_last()), pairs.last())
    }
}

/// The path of a raw request path: what stands before its first `?`, or all of it.
pub open spec fn spec_query_path(raw: Seq<char>) -> Seq<char> {
    match spec_split_once(raw, '?') {
        Some((path, _)) => path,
        None => raw,
    }
}

/// The parameters of a raw request path: what stands after its first `?`, cut at each `&`.
pub open spec fn spec_query_params(raw: Seq<char>) -> Map<Seq<char>, Seq<char>> {
    match spec_split_once(raw, '?') {
        Some((_, query)) => spec_params(spec_split(query, '&')),
        None => Map::empty(),
    }
}

/// Cuts the raw path of a request line into the path and the parameters of the query string.
pub fn parse_query_params(path: String) -> (r: (String, StringMap))
    ensures
        r.0@ == spec_query_path(path@),
        r.1@ == spec_query_params(path@),
{
    let chars = chars_of(path.as_str());
    match split_once(chars.as_slice(), '?') {
        None => (path, StringMap::new()),
        Some((head, query)) => {
            let pairs = split(query, '&');
            let ghost all = spec_split(query@, '&');
            let mut params = StringMap::new();
            let mut i: usize = 0;
            while i < pairs.len()
                invariant
                    0 <= i <= pairs.len(),
                    pairs@.len() == all.len(),
                    forall|k: int| 0 <= k < pairs@.len() ==> (#[trigger] pairs@[k])@ == all[k],
                    params@ == spec_params(all.take(i as int)),
                decreases pairs.len() - i,
            {
                proof {
                    assert(all.take(i + 1).drop_last() == all.take(i as int));
                }
                match split_once(pairs[i], '=') {
                    Some((key, value)) => {
                        params.insert(string_of(key), string_of(value));
                    },
                    None => {},
                }
                i += 1;
            }
            proof {
                assert(all.take(i as int) == all);
            }
            (string_of(head), params)
        },
    }
}

/// The lower-case form of a text, as `str::to_lowercase` in the standard library gives it.
/// The Unicode tables define it; it is named here and not spelled out, so nothing is known
/// of it but that it is a function of the text.
pub uninterp spec fn spec_to_lowercase(s: Seq<char>) -> Seq<char>;

/// Taken on trust of `str::to_lowercase` in the standard library: what it returns depends
/// on the characters of the text it is given and on nothing else.
pub assume_specification[ str::to_lowercase ](s: &str) -> (r: String)
    ensures
        r@ == spec_to_lowercase(s@),
;

/// One line of a header block as it stands on the wire: the line that ends the block, a
/// field with its name as written, or a line that is neither.
#[derive(Debug, PartialEq, Eq)]
pub enum RawHeaderLine {
    End,
    Field { name: String, value: String },
    Skipped,
}

/// One line of a header block: the line that ends the block, a field with its name in lower
/// case, or a line that is neither and is passed over.
#[derive(Debug, PartialEq, Eq)]
pub enum HeaderLine {
    End,
    Field { name: String, value: String },
    Skipped,
}

/// What a `RawHeaderLine` or a `HeaderLine` holds, as sequences of characters.
pub ghost enum HeaderLineView {
    End,
    Field { name: Seq<char>, value: Seq<char> },
    Skipped,
}

impl View for RawHeaderLine {
    type V = HeaderLineView;

    open spec fn view(&self) -> HeaderLineView {
        match self {
            RawHeaderLine::End => HeaderLineView::End,
            RawHeaderLine::Field { name, value } => HeaderLineView::Field {
                name: name@,
                value: value@,
            },
            RawHeaderLine::Skipped => HeaderLineView::Skipped,
        }
    }
}

impl View for HeaderLine {
    type V = HeaderLineView;

    open spec fn view(&self) -> HeaderLineView {
        match self {
            HeaderLine::End => HeaderLineView::End,
            HeaderLine::Field { name, value } => HeaderLineView::Field {
                name: name@,
                value: value@,
            },
            HeaderLine::Skipped => HeaderLineView::Skipped,
        }
    }
}

/// A line of a header block, cut but not folded. A line of white space only, the empty line
/// among them, ends the block. Any other line is cut at its first colon: the name stands
/// before it, the value after it, line ending and all. A line without a colon is passed over.
pub open spec fn spec_cut_header_line(line: Seq<char>) -> HeaderLineView {
    if spec_is_blank(line) {
        HeaderLineView::End
    } else {
        match spec_split_once(line, ':') {
            Some((name, value)) => HeaderLineView::Field { name, value },
            None => HeaderLineView::Skipped,
        }
    }
}

/// A line of a header block with the name of a field in lower case.
pub open spec fn spec_fold_header_line(line: HeaderLineView) -> HeaderLineView {
    match line {
        HeaderLineView::Field { name, value } => HeaderLineView::Field {
            name: spec_to_lowercase(name),
            value,
        },
        other => other,
    }
}

/// What a line of a header block says.
pub open spec fn spec_parse_header_line(line: Seq<char>) -> HeaderLineView {
    spec_fold_header_line(spec_cut_header_line(line))
}

/// Cuts a line of a header block, leaving the name of a field as it is written.
pub fn cut_header_line(line: &str) -> (r: RawHeaderLine)
    ensures
        r@ == spec_cut_header_line(line@),
{
    let chars = chars_of(line);
    if is_blank(chars.as_slice()) {
        RawHeaderLine::End
    } else {
        match split_once(chars.as_slice(), ':') {
            Some((name, value)) => RawHeaderLine::Field {
                name: string_of(name),
                value: string_of(value),
            },
            None => RawHeaderLine::Skipped,
        }
    }
}

/// Reads a line of a header block: cuts it, and folds the name of a field to lower case.
pub fn parse_header_line(line: &str) -> (r: HeaderLine)
    ensures
        r@ == spec_parse_header_line(line@),
{
    match cut_header_line(line) {
        RawHeaderLine::End => HeaderLine::End,
        RawHeaderLine::Field { name, value } => HeaderLine::Field {
            name: name.as_str().to_lowercase(),
            value,
        },
        RawHeaderLine::Skipped => HeaderLine::Skipped,
    }
}

/// `headers` with what a line of a header block adds. A field whose name is bound already is
/// bound anew.
pub open spec fn spec_add_header(
    headers: Map<Seq<char>, Seq<char>>,
    line: HeaderLineView,
) -> Map<Seq<char>, Seq<char>> {
    match line {
        HeaderLineView::Field { name, value } => headers.insert(name, value),
        _ => headers,
    }
}

/// Adds to `headers` what `line` says. Returns whether `line` ends the header block.
pub fn add_header(headers: &mut StringMap, line: HeaderLine) -> (end: bool)
    ensures
        final(headers)@ == spec_add_header(old(headers)@, line@),
        end == (line@ is End),
{
    match line {
        HeaderLine::End => true,
        HeaderLine::Field { name, value } => {
            headers.insert(name, value);
            false
        },
        HeaderLine::Skipped => false,
    }
}

/// What reading one line from a connection gave: the line with its line ending, or a
/// failure. The empty line stands for the end of the stream.
#[derive(Debug, Clone, PartialEq, Eq)]
pub enum LineRead {
    Line(String),
    Failed,
}

/// What a `LineRead` holds, as a sequence of characters.
pub ghost enum LineReadView {
    Line(Seq<char>),
    Failed,
}

impl View for LineRead {
    type V = LineReadView;

    open spec fn view(&self) -> LineReadView {
        match self {
            LineRead::Line(line) => LineReadView::Line(line@),
            LineRead::Failed => LineReadView::Failed,
        }
    }
}

/// The fields of a header block that is read line by line, added to `headers`. The block
/// ends at its first line of white space, or where there is nothing more to read. There is
/// no result where a read fails before that.
pub open spec fn spec_headers_from(
    headers: Map<Seq<char>, Seq<char>>,
    reads: Seq<LineReadView>,
) -> Option<Map<Seq<char>, Seq<char>>>
    decreases reads.len(),
{
    if reads.len() == 0 {
        Some(headers)
    } else {
        match reads[0] {
            LineReadView::Failed => None,
            LineReadView::Line(line) => {
                let parsed = spec_parse_header_line(line);
                if parsed is End {
                    Some(headers)
                } else {
                    spec_headers_from(spec_add_header(headers, parsed), reads.skip(1))
                }
            },
        }
    }
}

/// The fields of a header block that is read line by line.
pub open spec fn spec_parse_headers(reads: Seq<LineReadView>) -> Option<
    Map<Seq<char>, Seq<char>>,
> {
    spec_headers_from(Map::empty(), reads)
}

/// What each of `reads` holds, in order.
pub open spec fn spec_reads(reads: Seq<LineRead>) -> Seq<LineReadView> {
    reads.map_values(|read: LineRead| read@)
}

/// Gathers the fields of a header block from the lines read for it.
pub fn parse_headers(reads: &Vec<LineRead>) -> (r: Option<StringMap>)
    ensures
        match r {
            Some(headers) => spec_parse_headers(spec_reads(reads@)) == Some(headers@),
            None => spec_parse_headers(spec_reads(reads@)).is_none(),
        },
{
    let ghost all = spec_reads(reads@);
    let mut headers = StringMap::new();
    let mut i: usize = 0;
    proof {
        assert(all.skip(0) == all);
    }
    while i < reads.len()
        invariant
            0 <= i <= reads.len(),
            all == spec_reads(reads@),
            spec_parse_headers(all) == spec_headers_from(headers@, all.skip(i as int)),
        decreases reads.len() - i,
    {
        proof {
            assert(all.skip(i as int)[0] == reads[i as int]@);
            assert(all.skip(i as int).skip(1) == all.skip(i + 1));
        }
        match &reads[i] {
            LineRead::Failed => {
                return None;
            },
            LineRead::Line(line) => {
                let end = add_header(&mut headers, parse_header_line(line.as_str()));
                if end {
                    return Some(headers);
                }
            },
        }
        i += 1;
    }
    Some(headers)
}

/// A parsed request, without its body. The body stays on the connection, at the first
/// octet after the header block, for the handler to take.
pub struct HttpReq {
    pub method: HttpMethod,
    pub path: String,
    pub headers: StringMap,
    pub query_params: StringMap,
}

/// What an `HttpReq` holds, as sequences and maps.
pub ghost struct HttpReqView {
    pub method: HttpMethod,
    pub path: Seq<char>,
    pub headers: Map<Seq<char>, Seq<char>>,
    pub query_params: Map<Seq<char>, Seq<char>>,
}

impl View for HttpReq {
    type V = HttpReqView;

    open spec fn view(&self) -> HttpReqView {
        HttpReqView {
            method: self.method,
            path: self.path@,
            headers: self.headers@,
            query_params: self.query_params@,
        }
    }
}

/// The request made of a method, the raw path of the request line, and the header fields.
pub open spec fn spec_request(
    method: HttpMethod,
    raw_path: Seq<char>,
    headers: Map<Seq<char>, Seq<char>>,
) -> HttpReqView {
    HttpReqView {
        method,
        path: spec_query_path(raw_path),
        headers,
        query_params: spec_query_params(raw_path),
    }
}

impl HttpReq {
    /// The request made of a method, the raw path of the request line, and the header
    /// fields: the query string is cut off the path and parsed.
    pub fn new(method: HttpMethod, raw_path: String, headers: StringMap) -> (r: HttpReq)
        ensures
            r@ == spec_request(method, raw_path@, headers@),
    {
        let (path, query_params) = parse_query_params(raw_path);
        HttpReq { method, path, headers, query_params }
    }
}

/// The reason phrases of the status lines that the server writes.
#[derive(Debug, Clone, Copy, PartialEq, Eq, Structural)]
pub enum StatusClass {
    Success,
    BadRequest,
    NotFound,
    InternalError,
}

impl StatusClass {
    /// The reason phrase.
    pub open spec fn spec_reason(self) -> Seq<char> {
        match self {
            StatusClass::Success => "OK"@,
            StatusClass::BadRequest => "BAD REQUEST"@,
            StatusClass::NotFound => "NOT FOUND"@,
            StatusClass::InternalError => "INTERNAL ERROR"@,
        }
    }

    /// The reason phrase.
    pub fn reason(&self) -> (r: &'static str)
        ensures
            r@ == self.spec_reason(),
    {
        match self {
            StatusClass::Success => "OK",
            StatusClass::BadRequest => "BAD REQUEST",
            StatusClass::NotFound => "NOT FOUND",
            StatusClass::InternalError => "INTERNAL ERROR",
        }
    }
}

/// The status line with the numeric code `code` and the reason phrase of `class`.
pub open spec fn spec_status_line(code: nat, class: StatusClass) -> Seq<char> {
    "HTTP/1.1 "@ + spec_decimal(code) + " "@ + class.spec_reason() + "\r\n"@
}

/// The whole response with the given status line and no body.
pub open spec fn spec_empty_response(code: nat, class: StatusClass) -> Seq<char> {
    spec_status_line(code, class) + "Content-Length: 0\r\n\r\n"@
}

/// Writes the status line with the code `code` and the reason phrase of `class`.
pub fn status_line(code: u16, class: StatusClass) -> (r: String)
    ensures
        r@ == spec_status_line(code as nat, class),
{
    let mut r = "HTTP/1.1 ".to_owned();
    push_decimal(&mut r, code as u64);
    r.append(" ");
    r.append(class.reason());
    r.append("\r\n");
    r
}

/// Writes the whole response with the given status line and no body.
pub fn empty_response(code: u16, class: StatusClass) -> (r: String)
    ensures
        r@ == spec_empty_response(code as nat, class),
{
    let mut r = status_line(code, class);
    r.append("Content-Length: 0\r\n\r\n");
    r
}

/// The four responses that the server holds ready are the empty responses of their codes.
pub proof fn lemma_ready_responses()
    ensures
        OK_RESPONSE@ == spec_empty_response(200, StatusClass::Success),
        BAD_REQUEST@ == spec_empty_response(400, StatusClass::BadRequest),
        NOT_FOUND@ == spec_empty_response(404, StatusClass::NotFound),
        SERVER_ERROR@ == spec_empty_response(500, StatusClass::InternalError),
{
    reveal_strlit("HTTP/1.1 ");
    reveal_strlit(" ");
    reveal_strlit("\r\n");
    reveal_strlit("Content-Length: 0\r\n\r\n");
    reveal_strlit("OK");
    reveal_strlit("BAD REQUEST");
    reveal_strlit("NOT FOUND");
    reveal_strlit("INTERNAL ERROR");
    reveal_strlit("HTTP/1.1 200 OK\r\nContent-Length: 0\r\n\r\n");
    reveal_strlit("HTTP/1.1 400 BAD REQUEST\r\nContent-Length: 0\r\n\r\n");
    reveal_strlit("HTTP/1.1 404 NOT FOUND\r\nContent-Length: 0\r\n\r\n");
    reveal_strlit("HTTP/1.1 500 INTERNAL ERROR\r\nContent-Length: 0\r\n\r\n");
    reveal_with_fuel(spec_decimal, 3);
    assert(spec_decimal(200) == seq!['2', '0', '0']);
    assert(spec_decimal(400) == seq!['4', '0', '0']);
    assert(spec_decimal(404) == seq!['4', '0', '4']);
    assert(spec_decimal(500) == seq!['5', '0', '0']);
    assert(OK_RESPONSE@ =~= spec_empty_response(200, StatusClass::Success));
    assert(BAD_REQUEST@ =~= spec_empty_response(400, StatusClass::BadRequest));
    assert(NOT_FOUND@ =~= spec_empty_response(404, StatusClass::NotFound));
    assert(SERVER_ERROR@ =~= spec_empty_response(500, StatusClass::InternalError));
}

/// Only the first `?` parts the path from the query string: what stands before it is the
/// path, and all that stands after it, further `?` included, is the query string.
pub proof fn lemma_first_question_mark(path: Seq<char>, query: Seq<char>)
    requires
        !path.contains('?'),
    ensures
        spec_query_path(path + seq!['?'] + query) == path,
        spec_query_params(path + seq!['?'] + query) == spec_params(spec_split(query, '&')),
{
    let raw = path + seq!['?'] + query;
    assert forall|j: int| 0 <= j < path.len() implies raw[j] != '?' by {
        assert(raw[j] == path[j]);
        assert(path.contains(path[j]));
    }
    assert(raw[path.len() as int] == '?');
    lemma_find_is(raw, '?', path.len() as int);
    assert(raw.take(path.len() as int) =~= path);
    assert(raw.skip(path.len() as int + 1) =~= query);
}

/// A raw path without `?` is the path, and has no parameters.
pub proof fn lemma_no_question_mark(raw: Seq<char>)
    requires
        !raw.contains('?'),
    ensures
        spec_query_path(raw) == raw,
        spec_query_params(raw) == Map::<Seq<char>, Seq<char>>::empty(),
{
    assert forall|j: int| 0 <= j < raw.len() implies raw[j] != '?' by {
        assert(raw.contains(raw[j]));
    }
    lemma_find_is(raw, '?', raw.len() as int);
}

/// A query string that is one pair binds its key to its value as the value is written:
/// the value is cut at no `=` and at no `?`.
pub proof fn lemma_value_verbatim(key: Seq<char>, value: Seq<char>)
    requires
        !key.contains('='),
        !key.contains('&'),
        !value.contains('&'),
    ensures
        spec_params(spec_split(key + seq!['='] + value, '&')) == Map::<
            Seq<char>,
            Seq<char>,
        >::empty().insert(key, value),
{
    let pair = key + seq!['='] + value;
    assert forall|j: int| 0 <= j < pair.len() implies pair[j] != '&' by {
        if j < key.len() {
            assert(pair[j] == key[j]);
            assert(key.contains(key[j]));
        } else if j > key.len() {
            assert(pair[j] == value[j - key.len() - 1]);
            assert(value.contains(value[j - key.len() - 1]));
        }
    }
    lemma_find_is(pair, '&', pair.len() as int);
    assert(spec_split(pair, '&') == seq![pair]);
    assert forall|j: int| 0 <= j < key.len() implies pair[j] != '=' by {
        assert(pair[j] == key[j]);
        assert(key.contains(key[j]));
    }
    assert(pair[key.len() as int] == '=');
    lemma_find_is(pair, '=', key.len() as int);
    assert(pair.take(key.len() as int) =~= key);
    assert(pair.skip(key.len() as int + 1) =~= value);
    assert(seq![pair].drop_last() =~= Seq::<Seq<char>>::empty());
    assert(spec_params(seq![pair]) == spec_add_param(spec_params(seq![pair].drop_last()), pair));
}

/// A header line binds the lower-case form of what stands before its first colon to what
/// stands after it. The field is then found under that name, however its name was written.
pub proof fn lemma_header_by_lower_case_name(
    headers: Map<Seq<char>, Seq<char>>,
    name: Seq<char>,
    value: Seq<char>,
)
    requires
        !name.contains(':'),
    ensures
        spec_parse_header_line(name + seq![':'] + value) == (HeaderLineView::Field {
            name: spec_to_lowercase(name),
            value,
        }),
        spec_add_header(headers, spec_parse_header_line(name + seq![':'] + value)).contains_key(
            spec_to_lowercase(name),
        ),
        spec_add_header(headers, spec_parse_header_line(name + seq![':'] + value))[
            spec_to_lowercase(name)
        ] == value,
{
    let line = name + seq![':'] + value;
    assert forall|j: int| 0 <= j < name.len() implies line[j] != ':' by {
        assert(line[j] == name[j]);
        assert(name.contains(name[j]));
    }
    assert(line[name.len() as int] == ':');
    assert(!spec_is_whitespace(line[name.len() as int]));
    lemma_find_is(line, ':', name.len() as int);
    assert(line.take(name.len() as int) =~= name);
    assert(line.skip(name.len() as int + 1) =~= value);
}

} // verus!
