//! A small HTTP/1.1 server, without its sockets.
//!
//! The server answers four things: `GET /` with an empty `200`,
//! `GET /echo/<text>` with the text, compressed where the client takes gzip,
//! `GET /user-agent` with the client's own `User-Agent`, and `GET` and `POST`
//! on `/files/<name>` with a file read or written. Anything else is `404`.
//! A connection is kept and serves one request after another.
//!
//! Everything here works on bytes in memory. [`connection::Connection`] is
//! told what was read and says what to do next; a program that owns the
//! socket and the files drives it. What a client can count on is stated and
//! proved in [`exchange`].

pub mod connection;
pub mod decimal;
pub mod encoding;
pub mod exchange;
pub mod headers;
pub mod request;
pub mod response;
pub mod text;
