//! A small object store served over hand-written HTTP/1.1.
//!
//! The crate holds the protocol engine as plain values and verified
//! functions: the codec that cuts request lines, header lines and query
//! strings, the router, the state machine of a connection, the decisions of
//! the bucket and object handlers, the book-keeping of the worker pool and the
//! request text of a small client. Sockets, files and threads are the
//! caller's business: the engine says what to read or write next and is told
//! what came back.
//!
//! - [`text`] cuts sequences of characters: at a separator, at white space,
//!   into decimal numbers.
//! - [`string_map`] is the map from strings to strings that holds header
//!   fields and query parameters.
//! - [`http`] is the codec and the server's own responses.
//! - [`server`] is the router, the set-up of the server and the state machine
//!   of a connection.
//! - [`http_handler`] holds the handlers and the steps by which a handler
//!   deals with a request.
//! - [`file_storage`] names the calls that handlers make to the storage.
//! - [`object_store`] says, against an ideal storage, what the handlers come
//!   to as a whole.
//! - [`thread_pool`] keeps the books of the worker pool.
//! - [`http_client`] writes requests and reads the status of responses.

pub mod file_storage;
pub mod http;
pub mod http_client;
pub mod http_handler;
pub mod object_store;
pub mod server;
pub mod string_map;
pub mod text;
pub mod thread_pool;
