//! A small web server's reading of requests, verified.
//!
//! The heart is `frame::HttpParser`, which turns the bytes of a connection,
//! as they come, into one request: a request line, a header block and,
//! where the head announces one, a body. `header::HeaderLookup` finds a
//! header in the block, and `form::BodyParse` and `form::CookieParse` decode
//! a form body and a cookie header into their values. `stream` says what a
//! stream holds without the state machine, and `wire` proves that a written
//! request is read back as it was.
//!
//! Around that stand the decisions of the server itself: `route` says what
//! is to be answered, `posts` makes the home page, and `session` makes
//! session ids.

pub mod encoding;
pub mod error;
pub mod form;
pub mod frame;
pub mod head;
pub mod header;
pub mod posts;
pub mod route;
pub mod session;
pub mod stream;
pub mod text;
pub mod window;
pub mod wire;

pub use error::ErrorKind;
pub use form::{BodyParse, CookieParse};
pub use frame::{HttpParser, RawFrame, ReadEvent, State};
pub use header::HeaderLookup;
