//! Verified core of an ASGI bridge: it turns an HTTP request head into an
//! ASGI `http` connection scope, decides what the request-body receiver hands
//! to the application, assembles the HTTP response out of the messages the
//! application sends, and maps every failure to the answer the client gets.
pub mod error;
pub mod headers;
pub mod percent;
pub mod receive;
pub mod response;
pub mod scope;

pub use error::AsgiError;
pub use receive::{next_receive_step, ReceiveStep, Received, RequestMessage, MAX_BODY_SIZE};
pub use response::{AppMessage, Field, HttpResponse, ResponseAssembler};
pub use scope::{build_scope, HttpScope, HttpVersion, PathAndQuery, RequestHead};
