//! The router, the set-up of the server, and the state machine that deals
//! with one connection.

use crate::http::{
    add_header, parse_header_line, parse_start_line, spec_add_header, spec_headers_from,
    spec_parse_header_line, spec_parse_start_line, spec_query_path, spec_request,
    HttpMethod, HttpReq, HttpReqView, LineRead, LineReadView, BAD_REQUEST, NOT_FOUND,
    SERVER_ERROR,
};
use crate::http_handler::{spec_endpoints, Handler, HttpHandler, BUCKET_PATH, OBJECT_PATH};
use crate::string_map::StringMap;
use crate::thread_pool::{PoolCreationError, ThreadPool, ThreadPoolView};
use crate::text::{push_decimal, spec_decimal};
use vstd::hash_map::StringHashMap;
use vstd::prelude::*;

verus! {

/// The table from method and path to the handler registered for them. A handler is known by
/// its place in the list that the table was made from. Paths match as they are written.
pub struct Router {
    post: StringHashMap<usize>,
    get: StringHashMap<usize>,
    delete: StringHashMap<usize>,
}

impl View for Router {
    type V = Map<(HttpMethod, Seq<char>), usize>;

    closed spec fn view(&self) -> Map<(HttpMethod, Seq<char>), usize> {
        Map::new(
            |key: (HttpMethod, Seq<char>)| self.spec_table(key.0).contains_key(key.1),
            |key: (HttpMethod, Seq<char>)| self.spec_table(key.0)[key.1],
        )
    }
}

/// The handler that `routes` holds for `method` and `path`, if there is one.
pub open spec fn spec_lookup(
    routes: Map<(HttpMethod, Seq<char>), usize>,
    method: HttpMethod,
    path: Seq<char>,
) -> Option<usize> {
    if routes.contains_key((method, path)) {
        Some(routes[(method, path)])
    } else {
        None
    }
}

impl Router {
    closed spec fn spec_table(&self, method: HttpMethod) -> Map<Seq<char>, usize> {
        match method {
            HttpMethod::POST => self.post@,
            HttpMethod::GET => self.get@,
            HttpMethod::DELETE => self.delete@,
        }
    }

    /// The table that holds nothing.
    pub fn new() -> (router: Self)
        ensures
            router@ == Map::<(HttpMethod, Seq<char>), usize>::empty(),
    {
        let router = Router {
            post: StringHashMap::new(),
            get: StringHashMap::new(),
            delete: StringHashMap::new(),
        };
        assert(router@ =~= Map::<(HttpMethod, Seq<char>), usize>::empty());
        router
    }

    /// Registers `handler` for `method` and `path`. What was registered for them before is
    /// replaced.
    pub fn register(&mut self, method: HttpMethod, path: &str, handler: usize)
        ensures
            final(self)@ == old(self)@.insert((method, path@), handler),
    {
        match method {
            HttpMethod::POST => self.post.insert(path.to_owned(), handler),
            HttpMethod::GET => self.get.insert(path.to_owned(), handler),
            HttpMethod::DELETE => self.delete.insert(path.to_owned(), handler),
        }
        assert(self@ =~= old(self)@.insert((method, path@), handler));
    }

    /// The handler registered for `method` and `path`: first by the method, then by the path.
    pub fn lookup(&self, method: HttpMethod, path: &str) -> (handler: Option<usize>)
        ensures
            handler == spec_lookup(self@, method, path@),
    {
        let table = match method {
            HttpMethod::POST => &self.post,
            HttpMethod::GET => &self.get,
            HttpMethod::DELETE => &self.delete,
        };
        match table.get(path) {
            Some(handler) => Some(*handler),
            None => None,
        }
    }
}

/// The bindings `bindings` with each path as a sequence of characters.
pub open spec fn spec_bindings(bindings: Seq<(HttpMethod, String)>) -> Seq<
    (HttpMethod, Seq<char>),
> {
    bindings.map_values(|binding: (HttpMethod, String)| (binding.0, binding.1@))
}

/// Whether `binding` is what `handler` answers when it is asked what it serves: the method
/// is one that its `method` gives, and the path is the text of one that its `path` gives.
pub open spec fn spec_answer<H: HttpHandler>(
    handler: &H,
    binding: (HttpMethod, Seq<char>),
) -> bool {
    &&& call_ensures(H::method, (handler,), binding.0)
    &&& exists|path: &str| #[trigger] call_ensures(H::path, (handler,), path) && path@ == binding.1
}

/// Whether `answers` holds, for each of `handlers` in turn, what that handler answers when
/// it is asked what it serves.
pub open spec fn spec_answers<H: HttpHandler>(
    handlers: Seq<H>,
    answers: Seq<(HttpMethod, Seq<char>)>,
) -> bool {
    &&& answers.len() == handlers.len()
    &&& forall|i: int| 0 <= i < handlers.len() ==> spec_answer(&handlers[i], #[trigger] answers[i])
}

/// The table made from a list of bindings, taken from first to last: each binds its method
/// and path to its place in the list.
pub open spec fn spec_routes(bindings: Seq<(HttpMethod, Seq<char>)>) -> Map<
    (HttpMethod, Seq<char>),
    usize,
>
    decreases bindings.len(),
{
    if bindings.len() == 0 {
        Map::empty()
    } else {
        spec_routes(bindings.drop_last()).insert(bindings.last(), (bindings.len() - 1) as usize)
    }
}

/// The table holds a method and path if and only if some binding names them, and it then
/// holds the place of the last binding that does: a later registration replaces an earlier.
pub proof fn lemma_routes(bindings: Seq<(HttpMethod, Seq<char>)>, key: (HttpMethod, Seq<char>))
    requires
        bindings.len() <= usize::MAX,
    ensures
        spec_routes(bindings).contains_key(key) <==> exists|i: int|
            0 <= i < bindings.len() && bindings[i] == key,
        spec_routes(bindings).contains_key(key) ==> {
            let place = spec_routes(bindings)[key] as int;
            &&& 0 <= place < bindings.len()
            &&& bindings[place] == key
            &&& forall|j: int| place < j < bindings.len() ==> bindings[j] != key
        },
    decreases bindings.len(),
{
    if bindings.len() > 0 {
        let front = bindings.drop_last();
        lemma_routes(front, key);
        if bindings.last() == key {
            assert(bindings[bindings.len() - 1] == key);
        } else {
            if spec_routes(front).contains_key(key) {
                let i = choose|i: int| 0 <= i < front.len() && front[i] == key;
                assert(bindings[i] == key);
                let place = spec_routes(front)[key] as int;
                assert(bindings[place] == front[place]);
                assert forall|j: int| place < j < bindings.len() implies bindings[j] != key by {
                    if j < front.len() {
                        assert(bindings[j] == front[j]);
                    }
                }
            } else {
                assert forall|i: int| 0 <= i < bindings.len() implies bindings[i] != key by {
                    if i < front.len() {
                        assert(bindings[i] == front[i]);
                    }
                }
            }
        }
    }
}

/// The table made from a list of bindings leads to places in that list only.
pub proof fn lemma_routes_in_range(bindings: Seq<(HttpMethod, Seq<char>)>)
    requires
        bindings.len() <= usize::MAX,
    ensures
        forall|key: (HttpMethod, Seq<char>)| #[trigger]
            spec_routes(bindings).contains_key(key) ==> spec_routes(bindings)[key]
                < bindings.len(),
        bindings.len() == 0 ==> spec_routes(bindings) == Map::<
            (HttpMethod, Seq<char>),
            usize,
        >::empty(),
{
    assert forall|key: (HttpMethod, Seq<char>)| #[trigger]
        spec_routes(bindings).contains_key(key) implies spec_routes(bindings)[key]
        < bindings.len() by {
        lemma_routes(bindings, key);
    }
}

/// How a server is set up: the port it listens on, its handlers, and the number of
/// connections it deals with at a time.
pub struct HttpServerConfig<H> {
    port: u16,
    handlers: Vec<H>,
    pool_size: usize,
}

impl<H> HttpServerConfig<H> {
    /// The port to listen on.
    pub closed spec fn spec_port(&self) -> u16 {
        self.port
    }

    /// The handlers, in the order in which they are registered.
    pub closed spec fn spec_handlers(&self) -> Seq<H> {
        self.handlers@
    }

    /// The number of connections that are dealt with at a time.
    pub closed spec fn spec_pool_size(&self) -> usize {
        self.pool_size
    }

    /// The default set-up: port 8080, no handlers, four connections at a time.
    pub fn new() -> (config: Self)
        ensures
            config.spec_port() == 8080,
            config.spec_handlers() == Seq::<H>::empty(),
            config.spec_pool_size() == 4,
    {
        HttpServerConfig { port: 8080, handlers: Vec::new(), pool_size: 4 }
    }

    /// The same set-up with `size` connections at a time.
    pub fn pool_size(self, size: usize) -> (config: Self)
        ensures
            config.spec_port() == self.spec_port(),
            config.spec_handlers() == self.spec_handlers(),
            config.spec_pool_size() == size,
    {
        let mut config = self;
        config.pool_size = size;
        config
    }

    /// The same set-up on the port `port`.
    pub fn port(self, port: u16) -> (config: Self)
        ensures
            config.spec_port() == port,
            config.spec_handlers() == self.spec_handlers(),
            config.spec_pool_size() == self.spec_pool_size(),
    {
        let mut config = self;
        config.port = port;
        config
    }

    /// The same set-up with the handlers `handlers`.
    pub fn handlers(self, handlers: Vec<H>) -> (config: Self)
        ensures
            config.spec_port() == self.spec_port(),
            config.spec_handlers() == handlers@,
            config.spec_pool_size() == self.spec_pool_size(),
    {
        let mut config = self;
        config.handlers = handlers;
        config
    }
}

/// The server.
pub struct HttpServer;

/// A server that is set up and has not begun to listen: the address to listen on, the
/// handlers, the method and path that each of them said it serves, the table made from
/// these, and the pool that its connections are handed to.
pub struct ServerSetup<H, T> {
    pub address: String,
    pub handlers: Vec<H>,
    pub bindings: Vec<(HttpMethod, String)>,
    pub router: Router,
    pub pool: ThreadPool<T>,
}

/// The address of the port `port` of the local host.
pub open spec fn spec_bind_address(port: u16) -> Seq<char> {
    "127.0.0.1:"@ + spec_decimal(port as nat)
}

impl HttpServer {
    /// The table made from a list of bindings of a method and a path: each is bound to its
    /// place in the list. Where two name the same method and path, the later one is found.
    pub fn routes(bindings: &Vec<(HttpMethod, String)>) -> (router: Router)
        ensures
            router@ == spec_routes(spec_bindings(bindings@)),
    {
        let ghost all = spec_bindings(bindings@);
        let mut router = Router::new();
        let mut i: usize = 0;
        while i < bindings.len()
            invariant
                0 <= i <= bindings.len(),
                all == spec_bindings(bindings@),
                router@ == spec_routes(all.take(i as int)),
            decreases bindings.len() - i,
        {
            proof {
                assert(all.take(i + 1).drop_last() == all.take(i as int));
                assert(all.take(i + 1).last() == all[i as int]);
            }
            router.register(bindings[i].0, bindings[i].1.as_str(), i);
            i += 1;
        }
        proof {
            assert(all.take(i as int) == all);
        }
        router
    }

    /// Asks each of `handlers` in turn for the method and the path that it serves. There is
    /// one answer for each handler, in the order of the handlers, and each is what `method`
    /// and `path` gave for that handler.
    pub fn bindings<H: HttpHandler>(handlers: &Vec<H>) -> (bindings: Vec<(HttpMethod, String)>)
        ensures
            bindings@.len() == handlers@.len(),
            spec_answers(handlers@, spec_bindings(bindings@)),
    {
        let mut bindings: Vec<(HttpMethod, String)> = Vec::new();
        let mut i: usize = 0;
        while i < handlers.len()
            invariant
                0 <= i <= handlers.len(),
                bindings.len() == i,
                forall|k: int|
                    0 <= k < i ==> spec_answer(
                        &handlers@[k],
                        #[trigger] spec_bindings(bindings@)[k],
                    ),
            decreases handlers.len() - i,
        {
            let ghost before = spec_bindings(bindings@);
            let method = handlers[i].method();
            let path = handlers[i].path();
            bindings.push((method, path.to_owned()));
            proof {
                let after = spec_bindings(bindings@);
                assert(after[i as int] == (method, path@));
                assert forall|k: int| 0 <= k < i + 1 implies spec_answer(
                    &handlers@[k],
                    #[trigger] after[k],
                ) by {
                    if k < i {
                        assert(after[k] == before[k]);
                    }
                }
            }
            i += 1;
        }
        bindings
    }

    /// The table from method and path to the place of the handler that serves them. Each of
    /// `handlers` is asked in turn for its method and path, and the table is the one that
    /// `routes` makes from the answers: each handler is bound to its place under what it
    /// answered, and where two answered the same, the later one is found. The table leads
    /// to places in `handlers` only, and it holds nothing where there is no handler.
    pub fn create_handler_map<H: HttpHandler>(handlers: &Vec<H>) -> (router: Router)
        ensures
            exists|answers: Seq<(HttpMethod, Seq<char>)>|
                spec_answers(handlers@, answers) && router@ == #[trigger] spec_routes(answers),
            forall|key: (HttpMethod, Seq<char>)| #[trigger]
                router@.contains_key(key) ==> router@[key] < handlers@.len(),
            handlers@.len() == 0 ==> router@ == Map::<(HttpMethod, Seq<char>), usize>::empty(),
    {
        let bindings = Self::bindings(handlers);
        let router = Self::routes(&bindings);
        proof {
            assert(spec_bindings(bindings@).len() == bindings.len());
            lemma_routes_in_range(spec_bindings(bindings@));
            assert(router@ == spec_routes(spec_bindings(bindings@)));
        }
        router
    }

    /// The address that the server listens on: the port `port` of the local host.
    pub fn bind_address(port: u16) -> (address: String)
        ensures
            address@ == spec_bind_address(port),
    {
        let mut address = "127.0.0.1:".to_owned();
        push_decimal(&mut address, port as u64);
        address
    }

    /// Sets the server up as `config` says: a pool of as many workers as `config` asks for,
    /// the table of its handlers, and the address of its port. A server cannot be set up
    /// without a worker. Listening, and handing each accepted connection to the pool, is
    /// what follows.
    pub fn start<H: HttpHandler, T>(config: HttpServerConfig<H>) -> (setup: Result<
        ServerSetup<H, T>,
        PoolCreationError,
    >)
        ensures
            config.spec_pool_size() == 0 <==> setup.is_err(),
            setup matches Ok(server) ==> {
                &&& server.address@ == spec_bind_address(config.spec_port())
                &&& server.handlers@ == config.spec_handlers()
                &&& server.bindings@.len() == server.handlers@.len()
                &&& spec_answers(server.handlers@, spec_bindings(server.bindings@))
                &&& server.router@ == spec_routes(spec_bindings(server.bindings@))
                &&& server.pool@ == (ThreadPoolView {
                    size: config.spec_pool_size() as nat,
                    running: 0,
                    queue: Seq::<T>::empty(),
                    accepting: true,
                })
                &&& forall|key: (HttpMethod, Seq<char>)| #[trigger]
                    server.router@.contains_key(key) ==> server.router@[key]
                        < server.handlers@.len()
            },
    {
        let HttpServerConfig { port, handlers, pool_size } = config;
        match ThreadPool::new(pool_size) {
            Err(error) => Err(error),
            Ok(pool) => {
                let bindings = Self::bindings(&handlers);
                let router = Self::routes(&bindings);
                proof {
                    assert(spec_bindings(bindings@).len() == bindings.len());
                    lemma_routes_in_range(spec_bindings(bindings@));
                }
                let address = Self::bind_address(port);
                Ok(ServerSetup { address, handlers, bindings, router, pool })
            },
        }
    }
}

/// Where the dealing with one connection stands. Looking the request up is no state of its
/// own: it is part of the step that ends the header block.
pub enum Connection {
    /// The request line of the next request is to be read.
    AwaitingRequest,
    /// The request line has been read; the header block is being read.
    ParsingHeaders { method: HttpMethod, raw_path: String, headers: StringMap },
    /// A handler is dealing with the request.
    Handling,
    /// Nothing more is read or written.
    Closed,
}

/// What a `Connection` holds, as sequences and maps.
pub ghost enum ConnectionView {
    AwaitingRequest,
    ParsingHeaders { method: HttpMethod, raw_path: Seq<char>, headers: Map<Seq<char>, Seq<char>> },
    Handling,
    Closed,
}

impl View for Connection {
    type V = ConnectionView;

    open spec fn view(&self) -> ConnectionView {
        match self {
            Connection::AwaitingRequest => ConnectionView::AwaitingRequest,
            Connection::ParsingHeaders { method, raw_path, headers } => {
                ConnectionView::ParsingHeaders {
                    method: *method,
                    raw_path: raw_path@,
                    headers: headers@,
                }
            },
            Connection::Handling => ConnectionView::Handling,
            Connection::Closed => ConnectionView::Closed,
        }
    }
}

/// What happened on a connection.
pub enum Event {
    /// The line asked for was read, or could not be read.
    Read(LineRead),
    /// The handler has dealt with the request. `close` says that it asked for the connection
    /// to be closed.
    Handled { close: bool },
    /// Something could not be written.
    WriteFailed,
}

/// What an `Event` holds, as sequences of characters.
pub ghost enum EventView {
    Read(LineReadView),
    Handled { close: bool },
    WriteFailed,
}

impl View for Event {
    type V = EventView;

    open spec fn view(&self) -> EventView {
        match self {
            Event::Read(read) => EventView::Read(read@),
            Event::Handled { close } => EventView::Handled { close: *close },
            Event::WriteFailed => EventView::WriteFailed,
        }
    }
}

/// What is to be done on a connection next.
pub enum Action {
    /// Read one line and report it.
    ReadLine,
    /// Write `response`. Then close the connection if `close` says so, else read one line
    /// and report it.
    Reply { response: &'static str, close: bool },
    /// Let the handler at the place `handler` deal with `request`, and report when it has.
    Invoke { handler: usize, request: HttpReq },
    /// Close the connection in both directions.
    Close,
}

/// What an `Action` holds, as sequences and maps.
pub ghost enum ActionView {
    ReadLine,
    Reply { response: Seq<char>, close: bool },
    Invoke { handler: usize, request: HttpReqView },
    Close,
}

impl View for Action {
    type V = ActionView;

    open spec fn view(&self) -> ActionView {
        match self {
            Action::ReadLine => ActionView::ReadLine,
            Action::Reply { response, close } => ActionView::Reply {
                response: response@,
                close: *close,
            },
            Action::Invoke { handler, request } => ActionView::Invoke {
                handler: *handler,
                request: request@,
            },
            Action::Close => ActionView::Close,
        }
    }
}

/// What follows once the header block of a request is complete: the request is looked up.
/// Where a handler is registered for its method and path, that handler is given the
/// request. Where none is, the answer is `404` and the connection goes on to the next
/// request.
pub open spec fn spec_route(
    routes: Map<(HttpMethod, Seq<char>), usize>,
    request: HttpReqView,
) -> (ConnectionView, ActionView) {
    if routes.contains_key((request.method, request.path)) {
        (
            ConnectionView::Handling,
            ActionView::Invoke { handler: routes[(request.method, request.path)], request },
        )
    } else {
        (ConnectionView::AwaitingRequest, ActionView::Reply { response: NOT_FOUND@, close: false })
    }
}

/// The state that a connection is in after `event`, and what is to be done next.
///
/// While a request is awaited: the empty line, which is the end of the stream, closes the
/// connection; a read that failed is answered with `500`, a line that is no request line
/// with `400`, and both close the connection; a request line leads on to the header block.
/// In the header block: a read that failed is answered with `400` and closes the connection;
/// a field is kept; a line that is neither field nor end is passed over; the end leads to
/// the handler, see `spec_route`. When the handler has dealt with the request, the next
/// request is awaited, unless the handler asked to close. A failed write closes the
/// connection, and so does an event that the state does not allow for.
pub open spec fn spec_step(
    connection: ConnectionView,
    routes: Map<(HttpMethod, Seq<char>), usize>,
    event: EventView,
) -> (ConnectionView, ActionView) {
    match (connection, event) {
        (ConnectionView::AwaitingRequest, EventView::Read(LineReadView::Failed)) => (
            ConnectionView::Closed,
            ActionView::Reply { response: SERVER_ERROR@, close: true },
        ),
        (ConnectionView::AwaitingRequest, EventView::Read(LineReadView::Line(line))) => {
            if line.len() == 0 {
                (ConnectionView::Closed, ActionView::Close)
            } else {
                match spec_parse_start_line(line) {
                    None => (
                        ConnectionView::Closed,
                        ActionView::Reply { response: BAD_REQUEST@, close: true },
                    ),
                    Some((method, raw_path)) => (
                        ConnectionView::ParsingHeaders { method, raw_path, headers: Map::empty() },
                        ActionView::ReadLine,
                    ),
                }
            }
        },
        (
            ConnectionView::ParsingHeaders { method, raw_path, headers },
            EventView::Read(LineReadView::Failed),
        ) => (ConnectionView::Closed, ActionView::Reply { response: BAD_REQUEST@, close: true }),
        (
            ConnectionView::ParsingHeaders { method, raw_path, headers },
            EventView::Read(LineReadView::Line(line)),
        ) => {
            let parsed = spec_parse_header_line(line);
            if parsed is End {
                spec_route(routes, spec_request(method, raw_path, headers))
            } else {
                (
                    ConnectionView::ParsingHeaders {
                        method,
                        raw_path,
                        headers: spec_add_header(headers, parsed),
                    },
                    ActionView::ReadLine,
                )
            }
        },
        (ConnectionView::Handling, EventView::Handled { close }) => {
            if close {
                (ConnectionView::Closed, ActionView::Close)
            } else {
                (ConnectionView::AwaitingRequest, ActionView::ReadLine)
            }
        },
        _ => (ConnectionView::Closed, ActionView::Close),
    }
}

impl Connection {
    /// A connection that has just been accepted. Its first action is to read a line.
    pub fn new() -> (connection: Self)
        ensures
            connection@ == ConnectionView::AwaitingRequest,
    {
        Connection::AwaitingRequest
    }

    /// Whether nothing more is to be read or written.
    pub fn is_closed(&self) -> (closed: bool)
        ensures
            closed == (self@ is Closed),
    {
        match self {
            Connection::Closed => true,
            _ => false,
        }
    }

    /// Takes in `event` and says what is to be done next.
    pub fn step(self, router: &Router, event: Event) -> (next: (Connection, Action))
        ensures
            (next.0@, next.1@) == spec_step(self@, router@, event@),
    {
        match (self, event) {
            (Connection::AwaitingRequest, Event::Read(LineRead::Failed)) => (
                Connection::Closed,
                Action::Reply { response: SERVER_ERROR, close: true },
            ),
            (Connection::AwaitingRequest, Event::Read(LineRead::Line(line))) => {
                if line.as_str().is_empty() {
                    (Connection::Closed, Action::Close)
                } else {
                    match parse_start_line(line.as_str()) {
                        None => (
                            Connection::Closed,
                            Action::Reply { response: BAD_REQUEST, close: true },
                        ),
                        Some((method, raw_path)) => (
                            Connection::ParsingHeaders {
                                method,
                                raw_path,
                                headers: StringMap::new(),
                            },
                            Action::ReadLine,
                        ),
                    }
                }
            },
            (
                Connection::ParsingHeaders { method, raw_path, headers },
                Event::Read(LineRead::Failed),
            ) => (Connection::Closed, Action::Reply { response: BAD_REQUEST, close: true }),
            (
                Connection::ParsingHeaders { method, raw_path, headers },
                Event::Read(LineRead::Line(line)),
            ) => {
                let mut headers = headers;
                let end = add_header(&mut headers, parse_header_line(line.as_str()));
                if end {
                    let request = HttpReq::new(method, raw_path, headers);
                    match router.lookup(request.method, request.path.as_str()) {
                        Some(handler) => (
                            Connection::Handling,
                            Action::Invoke { handler, request },
                        ),
                        None => (
                            Connection::AwaitingRequest,
                            Action::Reply { response: NOT_FOUND, close: false },
                        ),
                    }
                } else {
                    (Connection::ParsingHeaders { method, raw_path, headers }, Action::ReadLine)
                }
            },
            (Connection::Handling, Event::Handled { close }) => {
                if close {
                    (Connection::Closed, Action::Close)
                } else {
                    (Connection::AwaitingRequest, Action::ReadLine)
                }
            },
            _ => (Connection::Closed, Action::Close),
        }
    }
}

/// The state that a connection is in after the lines `reads` were read one after the other.
pub open spec fn spec_after_reads(
    connection: ConnectionView,
    routes: Map<(HttpMethod, Seq<char>), usize>,
    reads: Seq<LineReadView>,
) -> ConnectionView
    decreases reads.len(),
{
    if reads.len() == 0 {
        connection
    } else {
        spec_after_reads(
            spec_step(connection, routes, EventView::Read(reads[0])).0,
            routes,
            reads.skip(1),
        )
    }
}

/// Reading a header block line by line comes to what `spec_headers_from` makes of the block
/// as a whole: when all lines but the one that ends the block have been read, the fields
/// gathered are those of the block, and the line that ends it leads to `spec_route` with
/// the request made of them.
pub proof fn lemma_header_block(
    routes: Map<(HttpMethod, Seq<char>), usize>,
    method: HttpMethod,
    raw_path: Seq<char>,
    headers: Map<Seq<char>, Seq<char>>,
    fields: Seq<LineReadView>,
    end: Seq<char>,
)
    requires
        forall|i: int|
            0 <= i < fields.len() ==> ((#[trigger] fields[i]) matches LineReadView::Line(line)
                && !(spec_parse_header_line(line) is End)),
        spec_parse_header_line(end) is End,
    ensures
        spec_headers_from(headers, fields.push(LineReadView::Line(end))) is Some,
        ({
            let parsing = ConnectionView::ParsingHeaders { method, raw_path, headers };
            let block = spec_headers_from(headers, fields.push(LineReadView::Line(end))).unwrap();
            let gathered = ConnectionView::ParsingHeaders { method, raw_path, headers: block };
            &&& spec_after_reads(parsing, routes, fields) == gathered
            &&& spec_step(gathered, routes, EventView::Read(LineReadView::Line(end)))
                == spec_route(routes, spec_request(method, raw_path, block))
        }),
    decreases fields.len(),
{
    let reads = fields.push(LineReadView::Line(end));
    if fields.len() == 0 {
        assert(reads[0] == LineReadView::Line(end));
    } else {
        let first = fields[0];
        let line = first->Line_0;
        let next = spec_add_header(headers, spec_parse_header_line(line));
        lemma_header_block(routes, method, raw_path, next, fields.skip(1), end);
        assert(reads[0] == first);
        assert(reads.skip(1) =~= fields.skip(1).push(LineReadView::Line(end)));
    }
}

/// A request for which no handler is registered is answered with `404`, whatever it asks
/// for, and the connection then takes the next request line as a fresh connection would.
pub proof fn lemma_unrouted_request(
    routes: Map<(HttpMethod, Seq<char>), usize>,
    method: HttpMethod,
    raw_path: Seq<char>,
    headers: Map<Seq<char>, Seq<char>>,
    end: Seq<char>,
    next: EventView,
)
    requires
        spec_parse_header_line(end) is End,
        !routes.contains_key((method, spec_query_path(raw_path))),
    ensures
        ({
            let parsing = ConnectionView::ParsingHeaders { method, raw_path, headers };
            let after = spec_step(parsing, routes, EventView::Read(LineReadView::Line(end)));
            &&& after.1 == (ActionView::Reply { response: NOT_FOUND@, close: false })
            &&& after.0 == ConnectionView::AwaitingRequest
            &&& spec_step(after.0, routes, next) == spec_step(
                ConnectionView::AwaitingRequest,
                routes,
                next,
            )
        }),
{
}

/// A request for which a handler is registered is given to that handler, with its path cut
/// at the query string, its parameters and its header fields.
pub proof fn lemma_routed_request(
    routes: Map<(HttpMethod, Seq<char>), usize>,
    method: HttpMethod,
    raw_path: Seq<char>,
    headers: Map<Seq<char>, Seq<char>>,
    end: Seq<char>,
)
    requires
        spec_parse_header_line(end) is End,
        routes.contains_key((method, spec_query_path(raw_path))),
    ensures
        ({
            let parsing = ConnectionView::ParsingHeaders { method, raw_path, headers };
            let after = spec_step(parsing, routes, EventView::Read(LineReadView::Line(end)));
            &&& after.0 == ConnectionView::Handling
            &&& after.1 == (ActionView::Invoke {
                handler: routes[(method, spec_query_path(raw_path))],
                request: spec_request(method, raw_path, headers),
            })
        }),
{
}

/// The handlers of the object store answer one thing only when they are asked what they
/// serve: the method and the path that they are bound to. So the table that
/// `create_handler_map` makes from them is the table of their bindings, and no other.
pub proof fn lemma_object_store_answers(
    handlers: Seq<Handler>,
    answers: Seq<(HttpMethod, Seq<char>)>,
)
    requires
        spec_answers(handlers, answers),
    ensures
        answers == Handler::spec_bindings(handlers),
{
    assert(answers =~= Handler::spec_bindings(handlers));
}

/// The table made from the endpoints of the object store: buckets are created, deleted and
/// found under `/bucket`, objects are sent and stored under `/object`, and nothing else is
/// served.
pub proof fn lemma_object_store_routes(method: HttpMethod, path: Seq<char>)
    ensures
        spec_lookup(spec_routes(spec_endpoints()), method, path) == if path == BUCKET_PATH@ {
            match method {
                HttpMethod::POST => Some(0usize),
                HttpMethod::DELETE => Some(1usize),
                HttpMethod::GET => Some(2usize),
            }
        } else if path == OBJECT_PATH@ {
            match method {
                HttpMethod::GET => Some(3usize),
                HttpMethod::POST => Some(4usize),
                HttpMethod::DELETE => None,
            }
        } else {
            None
        },
{
    reveal_strlit("/bucket");
    reveal_strlit("/object");
    assert(BUCKET_PATH@[1] != OBJECT_PATH@[1]);
    let endpoints = spec_endpoints();
    lemma_routes(endpoints, (method, path));
    let routes = spec_routes(endpoints);
    if routes.contains_key((method, path)) {
        let place = routes[(method, path)] as int;
        assert(endpoints[place] == (method, path));
    } else {
        assert forall|i: int| 0 <= i < 5 implies endpoints[i] != (method, path) by {}
    }
}

} // verus!
